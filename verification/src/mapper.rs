//! Deterministic mapping from an Ethereum address to a native ledger
//! account identity, via the hosting program's derived-address scheme.

use vstd::prelude::*;

use crate::types::{EthAddress, NativeId};

verus! {

/// The derived identity and bump byte of a seed under a program identity,
/// or nothing in the statistically improbable event that no bump byte
/// yields a valid derivation.
pub uninterp spec fn pda_of(seed: Seq<u8>, program: Seq<u8>) -> Option<(Seq<u8>, u8)>;

/// Relies on Pubkey::try_find_program_address with the given bytes as the
/// single seed: a deterministic search over bump bytes, a function of the
/// seed and the program id alone; a derived identity is 32 bytes.
#[verifier::external_body]
fn find_pda(seed: &Vec<u8>, program: &Vec<u8>) -> (r: Option<(Vec<u8>, u8)>)
    requires
        seed@.len() <= 32,
        program@.len() == 32,
    ensures
        r matches Some(p) ==> pda_of(seed@, program@) == Some((p.0@, p.1)) && p.0@.len() == 32,
        (r is Some <==> pda_of(seed@, program@) is Some),
{
    let arr: [u8; 32] = match program.as_slice().try_into() {
        Ok(a) => a,
        Err(_) => return None,
    };
    let program_id = solana_program::pubkey::Pubkey::new_from_array(arr);
    solana_program::pubkey::Pubkey::try_find_program_address(&[seed.as_slice()], &program_id).map(
        |p: (solana_program::pubkey::Pubkey, u8)| (p.0.to_bytes().to_vec(), p.1),
    )
}

/// The deterministic address mapper: fixed to one hosting program identity.
pub struct AddressMapper {
    pub program: NativeId,
}

impl AddressMapper {
    pub open spec fn wf(&self) -> bool {
        self.program.wf()
    }

    pub fn new(program: NativeId) -> (r: AddressMapper)
        requires
            program.wf(),
        ensures
            r.program@ == program@,
            r.wf(),
    {
        AddressMapper { program }
    }

    /// Derive the native identity and bump byte of an Ethereum address.
    ///
    /// Identical inputs always yield identical outputs: the result equals
    /// `pda_of` of the address bytes and the program identity.
    pub fn derive(&self, address: &EthAddress) -> (r: Option<(NativeId, u8)>)
        requires
            self.wf(),
            address.wf(),
        ensures
            r matches Some(p) ==> pda_of(address@, self.program@) == Some((p.0@, p.1)) && p.0.wf(),
            (r is Some <==> pda_of(address@, self.program@) is Some),
    {
        match find_pda(address.bytes(), self.program.bytes()) {
            Some(p) => {
                let id = NativeId::new(p.0);
                Some((id, p.1))
            },
            None => None,
        }
    }
}

/// Law: address derivation is deterministic and stable — derivations from
/// equal address bytes under equal program identities yield equal results,
/// however often they are repeated.
pub proof fn lemma_derive_deterministic(
    m1: AddressMapper,
    m2: AddressMapper,
    a1: EthAddress,
    a2: EthAddress,
)
    requires
        a1@ == a2@,
        m1.program@ == m2.program@,
    ensures
        pda_of(a1@, m1.program@) == pda_of(a2@, m2.program@),
{
}

} // verus!
