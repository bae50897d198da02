//! Transaction authentication: building the payload of the platform's
//! signature-verification instruction, checking that a companion instruction
//! actually performed that verification, and recovering a signer address
//! from a signature.

use vstd::prelude::*;

use crate::types::{copy_range, eq_bytes, AuthError, CryptoError, EthAddress, NativeId};

verus! {

/// The low byte of a little-endian 16-bit value.
pub open spec fn lo(x: int) -> u8 {
    (x % 256) as u8
}

/// The high byte of a little-endian 16-bit value.
pub open spec fn hi(x: int) -> u8 {
    (x / 256) as u8
}

/// The exact payload of the platform signature-verification instruction:
/// a count byte of one, then the offsets record with little-endian 16-bit
/// fields, in the order: signature offset, signature instruction index,
/// address offset, address instruction index, message offset, message size,
/// message instruction index.
pub open spec fn offsets_bytes(idx: u8, message_len: u16, data_start: u16) -> Seq<u8> {
    seq![
        1u8,
        lo(data_start + 20),
        hi(data_start + 20),
        idx,
        lo(data_start as int),
        hi(data_start as int),
        idx,
        lo(data_start + 85),
        hi(data_start + 85),
        lo(message_len as int),
        hi(message_len as int),
        idx,
    ]
}

/// Build the signature-verification instruction payload: the signed address
/// sits at `data_start`, the 65-byte signature right after it, and the
/// message of `message_len` bytes after that.
pub fn build_offsets(instruction_index: u8, message_len: u16, data_start: u16) -> (r: Vec<u8>)
    requires
        data_start + 85 <= u16::MAX,
    ensures
        r@ == offsets_bytes(instruction_index, message_len, data_start),
        r@.len() == 12,
{
    let eth_offset: u16 = data_start;
    let sign_offset: u16 = eth_offset + 20;
    let msg_offset: u16 = sign_offset + 65;
    let mut r: Vec<u8> = Vec::new();
    r.push(1u8);
    r.push((sign_offset % 256) as u8);
    r.push((sign_offset / 256) as u8);
    r.push(instruction_index);
    r.push((eth_offset % 256) as u8);
    r.push((eth_offset / 256) as u8);
    r.push(instruction_index);
    r.push((msg_offset % 256) as u8);
    r.push((msg_offset / 256) as u8);
    r.push((message_len % 256) as u8);
    r.push((message_len / 256) as u8);
    r.push(instruction_index);
    proof {
        assert(r@ =~= offsets_bytes(instruction_index, message_len, data_start));
    }
    r
}

/// Whether a 32-byte program id is the platform's built-in
/// signature-verification program.
pub uninterp spec fn is_secp_id_of(id: Seq<u8>) -> bool;

/// Relies on solana_program::secp256k1_program::check_id: comparison of the
/// given id against the built-in signature-verification program's id.
#[verifier::external_body]
fn is_signature_program(id: &NativeId) -> (r: bool)
    requires
        id.wf(),
    ensures
        r == is_secp_id_of(id@),
{
    let arr: [u8; 32] = match id.bytes().as_slice().try_into() {
        Ok(a) => a,
        Err(_) => return false,
    };
    solana_program::secp256k1_program::check_id(&solana_program::pubkey::Pubkey::new_from_array(
        arr,
    ))
}

/// One instruction of the current top-level transaction, as the
/// instruction-list collaborator hands it over: its target program and its
/// payload.
pub struct CompanionInstruction {
    pub program_id: NativeId,
    pub data: Vec<u8>,
}

impl CompanionInstruction {
    pub open spec fn wf(&self) -> bool {
        self.program_id.wf()
    }
}

/// Check that the instruction immediately preceding the current one is a
/// call of the platform's signature-verification program over exactly the
/// expected byte ranges.
pub fn verify_companion_instruction(
    instructions: &Vec<CompanionInstruction>,
    current_index: usize,
    message_len: u16,
    data_start: u16,
) -> (r: Result<(), AuthError>)
    requires
        current_index <= u8::MAX,
        data_start + 85 <= u16::MAX,
        forall|k: int| 0 <= k < instructions@.len() ==> (#[trigger] instructions@[k]).wf(),
    ensures
        current_index == 0 || current_index > instructions@.len() ==> r == Err::<
            (),
            AuthError,
        >(AuthError::MissingSignature),
        0 < current_index <= instructions@.len() && !is_secp_id_of(
            instructions@[current_index - 1].program_id@,
        ) ==> r == Err::<(), AuthError>(AuthError::WrongProgram),
        0 < current_index <= instructions@.len() && is_secp_id_of(
            instructions@[current_index - 1].program_id@,
        ) && instructions@[current_index - 1].data@ != offsets_bytes(
            current_index as u8,
            message_len,
            data_start,
        ) ==> r == Err::<(), AuthError>(AuthError::OffsetMismatch),
        0 < current_index <= instructions@.len() && is_secp_id_of(
            instructions@[current_index - 1].program_id@,
        ) && instructions@[current_index - 1].data@ == offsets_bytes(
            current_index as u8,
            message_len,
            data_start,
        ) ==> r == Ok::<(), AuthError>(()),
{
    if current_index == 0 || current_index > instructions.len() {
        return Err(AuthError::MissingSignature);
    }
    let ins = &instructions[current_index - 1];
    if !is_signature_program(&ins.program_id) {
        return Err(AuthError::WrongProgram);
    }
    let expected = build_offsets(current_index as u8, message_len, data_start);
    if !eq_bytes(&ins.data, &expected) {
        return Err(AuthError::OffsetMismatch);
    }
    Ok(())
}

/// Whether a 32-byte account key is the instructions-sysvar account's id.
pub uninterp spec fn is_instructions_sysvar_of(id: Seq<u8>) -> bool;

/// Relies on solana_program::sysvar::instructions::check_id: comparison of
/// the given key against the instructions sysvar's id.
#[verifier::external_body]
fn is_instructions_sysvar(id: &NativeId) -> (r: bool)
    requires
        id.wf(),
    ensures
        r == is_instructions_sysvar_of(id@),
{
    let arr: [u8; 32] = match id.bytes().as_slice().try_into() {
        Ok(a) => a,
        Err(_) => return false,
    };
    #[allow(deprecated)]
    solana_program::sysvar::instructions::check_id(
        &solana_program::pubkey::Pubkey::new_from_array(arr),
    )
}

/// Whether a 32-byte account key is the rent-sysvar account's id.
pub uninterp spec fn is_rent_sysvar_of(id: Seq<u8>) -> bool;

/// Relies on solana_program::sysvar::rent::check_id: comparison of the
/// given key against the rent sysvar's id.
#[verifier::external_body]
fn is_rent_sysvar(id: &NativeId) -> (r: bool)
    requires
        id.wf(),
    ensures
        r == is_rent_sysvar_of(id@),
{
    let arr: [u8; 32] = match id.bytes().as_slice().try_into() {
        Ok(a) => a,
        Err(_) => return false,
    };
    solana_program::sysvar::rent::check_id(&solana_program::pubkey::Pubkey::new_from_array(arr))
}

/// The first account key that is the instructions sysvar, if any.
pub fn find_sysvar_info(keys: &Vec<NativeId>) -> (r: Option<usize>)
    requires
        forall|k: int| 0 <= k < keys@.len() ==> (#[trigger] keys@[k]).wf(),
    ensures
        r matches Some(i) ==> i < keys@.len() && is_instructions_sysvar_of(keys@[i as int]@)
            && (forall|j: int| 0 <= j < i ==> !is_instructions_sysvar_of(keys@[j]@)),
        r is None ==> forall|j: int| 0 <= j < keys@.len() ==> !is_instructions_sysvar_of(
            keys@[j]@,
        ),
{
    let mut i: usize = 0;
    while i < keys.len()
        invariant
            i <= keys@.len(),
            forall|k: int| 0 <= k < keys@.len() ==> (#[trigger] keys@[k]).wf(),
            forall|j: int| 0 <= j < i ==> !is_instructions_sysvar_of(keys@[j]@),
        decreases keys@.len() - i,
    {
        if is_instructions_sysvar(&keys[i]) {
            return Some(i);
        }
        i += 1;
    }
    None
}

/// The first account key that is the rent sysvar, if any.
pub fn find_rent_info(keys: &Vec<NativeId>) -> (r: Option<usize>)
    requires
        forall|k: int| 0 <= k < keys@.len() ==> (#[trigger] keys@[k]).wf(),
    ensures
        r matches Some(i) ==> i < keys@.len() && is_rent_sysvar_of(keys@[i as int]@) && (forall|
            j: int,
        | 0 <= j < i ==> !is_rent_sysvar_of(keys@[j]@)),
        r is None ==> forall|j: int| 0 <= j < keys@.len() ==> !is_rent_sysvar_of(keys@[j]@),
{
    let mut i: usize = 0;
    while i < keys.len()
        invariant
            i <= keys@.len(),
            forall|k: int| 0 <= k < keys@.len() ==> (#[trigger] keys@[k]).wf(),
            forall|j: int| 0 <= j < i ==> !is_rent_sysvar_of(keys@[j]@),
        decreases keys@.len() - i,
    {
        if is_rent_sysvar(&keys[i]) {
            return Some(i);
        }
        i += 1;
    }
    None
}

/// The 32-byte digest that the signed message hashes to.
pub uninterp spec fn keccak_of(b: Seq<u8>) -> Seq<u8>;

/// Relies on solana_program::keccak::hash: the 32-byte Keccak-256 digest of
/// the input, a function of the input bytes alone.
#[verifier::external_body]
pub(crate) fn keccak256(b: &Vec<u8>) -> (r: Vec<u8>)
    ensures
        r@ == keccak_of(b@),
        r@.len() == 32,
{
    solana_program::keccak::hash(b.as_slice()).to_bytes().to_vec()
}

/// The 65-byte uncompressed public key that elliptic-curve recovery yields
/// from a digest, a 64-byte signature, and a recovery id, or nothing where
/// recovery fails; a function of those inputs alone.
pub uninterp spec fn secp_recover_of(digest: Seq<u8>, sig: Seq<u8>, recid: u8) -> Option<Seq<u8>>;

/// Whether a 64-byte (r, s) slice parses as a standard signature; a
/// function of the bytes alone.
pub uninterp spec fn secp_sig_ok(sig: Seq<u8>) -> bool;

/// Relies on libsecp256k1: Message::parse_slice accepts any 32-byte digest;
/// RecoveryId::parse accepts exactly the bytes below four (excluded here by
/// the precondition, so it cannot fail); Signature::parse_standard_slice
/// parses the 64-byte (r, s) pair, succeeding exactly where `secp_sig_ok`
/// holds; recover performs public-key recovery; PublicKey::serialize
/// returns the 65-byte uncompressed form. With the recovery id below four,
/// a failure is the signature parse or the recovery itself, in that order.
#[verifier::external_body]
fn secp_recover(digest: &Vec<u8>, sig64: &Vec<u8>, recid: u8) -> (r: Result<Vec<u8>, CryptoError>)
    requires
        digest@.len() == 32,
        sig64@.len() == 64,
        recid < 4,
    ensures
        r matches Ok(k) ==> secp_recover_of(digest@, sig64@, recid) == Some(k@) && k@.len() == 65,
        (r is Ok <==> secp_recover_of(digest@, sig64@, recid) is Some),
        r matches Err(e) ==> (e == CryptoError::BadSignature <==> !secp_sig_ok(sig64@)),
        r matches Err(e) ==> (e == CryptoError::RecoveryFailed <==> secp_sig_ok(sig64@)),
{
    let msg = libsecp256k1::Message::parse_slice(digest.as_slice()).map_err(
        |_| CryptoError::RecoveryFailed,
    )?;
    let rid = libsecp256k1::RecoveryId::parse(recid).map_err(|_| CryptoError::BadRecoveryId)?;
    let sig = libsecp256k1::Signature::parse_standard_slice(sig64.as_slice()).map_err(
        |_| CryptoError::BadSignature,
    )?;
    let key = libsecp256k1::recover(&msg, &sig, &rid).map_err(|_| CryptoError::RecoveryFailed)?;
    Ok(key.serialize().to_vec())
}

/// The 20-byte address denoted by a recovered 65-byte public key: the low
/// twenty bytes of the digest of the key with its format byte stripped.
pub open spec fn signer_address_of(key: Seq<u8>) -> Seq<u8> {
    keccak_of(key.subrange(1, key.len() as int)).subrange(12, 32)
}

/// Recover the address that signed `message` from a 65-byte signature:
/// 64 bytes of (r, s) followed by one recovery id byte. Identical inputs
/// yield the identical result: the success case, the recovered address,
/// and the error carried on failure are each fixed by the inputs.
pub fn recover_signer(signature: &Vec<u8>, message: &Vec<u8>) -> (r: Result<
    EthAddress,
    CryptoError,
>)
    requires
        signature@.len() == 65,
    ensures
        (r is Ok <==> signature@[64] < 4 && secp_recover_of(
            keccak_of(message@),
            signature@.subrange(0, 64),
            signature@[64],
        ) is Some),
        r matches Ok(a) ==> a@ == signer_address_of(
            secp_recover_of(
                keccak_of(message@),
                signature@.subrange(0, 64),
                signature@[64],
            )->Some_0,
        ) && a.wf(),
        signature@[64] >= 4 ==> r == Err::<EthAddress, CryptoError>(CryptoError::BadRecoveryId),
        r matches Err(e) ==> e == (if signature@[64] >= 4 {
            CryptoError::BadRecoveryId
        } else if !secp_sig_ok(signature@.subrange(0, 64)) {
            CryptoError::BadSignature
        } else {
            CryptoError::RecoveryFailed
        }),
{
    let rid = signature[64];
    if rid >= 4 {
        return Err(CryptoError::BadRecoveryId);
    }
    let digest = keccak256(message);
    let sig64 = copy_range(signature, 0, 64);
    let key = match secp_recover(&digest, &sig64, rid) {
        Ok(k) => k,
        Err(e) => {
            return Err(e);
        },
    };
    let stripped = copy_range(&key, 1, 65);
    let h = keccak256(&stripped);
    let addr = copy_range(&h, 12, 32);
    proof {
        assert(stripped@ =~= key@.subrange(1, key@.len() as int));
    }
    Ok(EthAddress::new(addr))
}

} // verus!
