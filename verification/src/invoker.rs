//! Delegated-authority invocation: the seed sets with which the host is
//! asked to co-sign a cross-program call on behalf of cached addresses.

use vstd::prelude::*;

use crate::types::{copy_range, eq_bytes, EthAddress};

verus! {

/// The authority of an address: its raw bytes and the bump byte that made
/// its derivation land on a valid program-derived identity. Carried with
/// each cached record from the moment its native id is derived.
pub struct AuthoritySeed {
    pub address: EthAddress,
    pub bump: u8,
}

impl AuthoritySeed {
    pub open spec fn wf(&self) -> bool {
        self.address.wf()
    }
}

/// One seed set authorizes one address: its twenty raw bytes, then the
/// bump byte alone.
pub open spec fn is_seed_set(ss: Vec<Vec<u8>>, a: Seq<u8>, bump: u8) -> bool {
    &&& ss@.len() == 2
    &&& ss@[0]@ == a
    &&& ss@[1]@ == seq![bump]
}

fn one_seed_set(s: &AuthoritySeed) -> (r: Vec<Vec<u8>>)
    ensures
        is_seed_set(r, s.address@, s.bump),
{
    let mut ss: Vec<Vec<u8>> = Vec::new();
    let ab = copy_range(&s.address.b, 0, s.address.b.len());
    proof {
        assert(s.address.b@.subrange(0, s.address.b@.len() as int) =~= s.address.b@);
    }
    ss.push(ab);
    let mut bb: Vec<u8> = Vec::new();
    bb.push(s.bump);
    proof {
        assert(bb@ =~= seq![s.bump]);
    }
    ss.push(bb);
    ss
}

/// The seed sets for a delegated cross-program call: always the contract
/// address's seeds; additionally the origin address's seeds, first, where
/// the origin differs from the contract. The host is asked to authorize
/// the call with exactly these.
pub fn seed_sets(contract: &AuthoritySeed, origin: Option<&AuthoritySeed>) -> (r: Vec<Vec<Vec<u8>>>)
    ensures
        (match origin {
            Some(o) => if o.address@ != contract.address@ {
                r@.len() == 2 && is_seed_set(r@[0], o.address@, o.bump) && is_seed_set(
                    r@[1],
                    contract.address@,
                    contract.bump,
                )
            } else {
                r@.len() == 1 && is_seed_set(r@[0], contract.address@, contract.bump)
            },
            None => r@.len() == 1 && is_seed_set(r@[0], contract.address@, contract.bump),
        }),
{
    let mut r: Vec<Vec<Vec<u8>>> = Vec::new();
    match origin {
        Some(o) => {
            if !eq_bytes(&o.address.b, &contract.address.b) {
                r.push(one_seed_set(o));
            }
        },
        None => {},
    }
    r.push(one_seed_set(contract));
    r
}

} // verus!
