//! Text renderings used by the account report: hexadecimal for Ethereum
//! addresses and base58 for native ledger identities.

use vstd::prelude::*;

use crate::types::NativeId;

verus! {

/// The lowercase hexadecimal digit of a value below sixteen.
pub open spec fn hex_digit(n: int) -> char {
    if n == 0 {
        '0'
    } else if n == 1 {
        '1'
    } else if n == 2 {
        '2'
    } else if n == 3 {
        '3'
    } else if n == 4 {
        '4'
    } else if n == 5 {
        '5'
    } else if n == 6 {
        '6'
    } else if n == 7 {
        '7'
    } else if n == 8 {
        '8'
    } else if n == 9 {
        '9'
    } else if n == 10 {
        'a'
    } else if n == 11 {
        'b'
    } else if n == 12 {
        'c'
    } else if n == 13 {
        'd'
    } else if n == 14 {
        'e'
    } else {
        'f'
    }
}

/// The lowercase hexadecimal rendering of a byte string, two digits per
/// byte, most significant digit first.
pub open spec fn hex_seq(s: Seq<u8>) -> Seq<char>
    decreases s.len(),
{
    if s.len() == 0 {
        Seq::empty()
    } else {
        hex_seq(s.drop_last()) + seq![hex_digit(s.last() as int / 16), hex_digit(s.last() as int % 16)]
    }
}

/// Relies on hex::encode: two lowercase hexadecimal digits per input byte,
/// most significant digit first.
#[verifier::external_body]
pub(crate) fn hex_encode(b: &Vec<u8>) -> (r: String)
    ensures
        r@ == hex_seq(b@),
{
    hex::encode(b.as_slice())
}

/// The base58 rendering of a 32-byte native identity, a function of the
/// bytes alone.
pub uninterp spec fn base58_of(b: Seq<u8>) -> Seq<char>;

/// Relies on the Pubkey Display impl: the base58 rendering of the 32-byte
/// identity.
#[verifier::external_body]
pub(crate) fn native_id_to_base58(id: &NativeId) -> (r: String)
    requires
        id.wf(),
    ensures
        r@ == base58_of(id@),
{
    let arr: [u8; 32] = match id.bytes().as_slice().try_into() {
        Ok(a) => a,
        Err(_) => [0u8; 32],
    };
    solana_program::pubkey::Pubkey::new_from_array(arr).to_string()
}

} // verus!
