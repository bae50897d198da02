//! Core value types: Ethereum addresses, native ledger account identities,
//! 256-bit scalars, error taxonomy, and byte-sequence helpers.

use vstd::prelude::*;

verus! {

/// A 20-byte Ethereum address.
#[derive(Debug)]
pub struct EthAddress {
    pub b: Vec<u8>,
}

impl Clone for EthAddress {
    fn clone(&self) -> (r: Self)
        ensures
            r@ == self@,
    {
        let r = EthAddress { b: copy_range(&self.b, 0, self.b.len()) };
        proof {
            assert(self.b@.subrange(0, self.b@.len() as int) =~= self.b@);
        }
        r
    }
}

impl View for EthAddress {
    type V = Seq<u8>;

    open spec fn view(&self) -> Seq<u8> {
        self.b@
    }
}

impl EthAddress {
    pub open spec fn wf(&self) -> bool {
        self.b@.len() == 20
    }

    pub fn new(b: Vec<u8>) -> (r: EthAddress)
        requires
            b@.len() == 20,
        ensures
            r@ == b@,
            r.wf(),
    {
        EthAddress { b }
    }

    pub fn bytes(&self) -> (r: &Vec<u8>)
        ensures
            r@ == self@,
    {
        &self.b
    }
}

/// A 32-byte native ledger account identity.
#[derive(Debug)]
pub struct NativeId {
    pub b: Vec<u8>,
}

impl Clone for NativeId {
    fn clone(&self) -> (r: Self)
        ensures
            r@ == self@,
    {
        let r = NativeId { b: copy_range(&self.b, 0, self.b.len()) };
        proof {
            assert(self.b@.subrange(0, self.b@.len() as int) =~= self.b@);
        }
        r
    }
}

impl View for NativeId {
    type V = Seq<u8>;

    open spec fn view(&self) -> Seq<u8> {
        self.b@
    }
}

impl NativeId {
    pub open spec fn wf(&self) -> bool {
        self.b@.len() == 32
    }

    pub fn new(b: Vec<u8>) -> (r: NativeId)
        requires
            b@.len() == 32,
        ensures
            r@ == b@,
            r.wf(),
    {
        NativeId { b }
    }

    pub fn bytes(&self) -> (r: &Vec<u8>)
        ensures
            r@ == self@,
    {
        &self.b
    }

    /// The designated "no linked account" sentinel is the all-zero identity.
    pub open spec fn spec_is_zero(&self) -> bool {
        all_zero(self.b@)
    }

    pub fn is_zero(&self) -> (r: bool)
        ensures
            r == self.spec_is_zero(),
    {
        let mut i: usize = 0;
        while i < self.b.len()
            invariant
                i <= self.b@.len(),
                forall|j: int| 0 <= j < i ==> self.b@[j] == 0,
            decreases self.b@.len() - i,
        {
            if self.b[i] != 0u8 {
                return false;
            }
            i += 1;
        }
        true
    }
}

/// Every byte of the sequence is zero.
pub open spec fn all_zero(s: Seq<u8>) -> bool {
    forall|i: int| 0 <= i < s.len() ==> s[i] == 0
}

/// The value of a byte sequence read as a big-endian unsigned integer.
pub open spec fn be_nat(s: Seq<u8>) -> nat
    decreases s.len(),
{
    if s.len() == 0 {
        0
    } else {
        (be_nat(s.drop_last()) * 256 + s.last()) as nat
    }
}

/// 256 raised to the power n.
pub open spec fn pow256(n: nat) -> nat
    decreases n,
{
    if n == 0 {
        1
    } else {
        256 * pow256((n - 1) as nat)
    }
}

pub proof fn lemma_be_nat_bound(s: Seq<u8>)
    ensures
        be_nat(s) < pow256(s.len()),
    decreases s.len(),
{
    if s.len() > 0 {
        lemma_be_nat_bound(s.drop_last());
    }
}

pub proof fn lemma_pow256_8()
    ensures
        pow256(8) == 0x1_0000_0000_0000_0000,
{
    reveal_with_fuel(pow256, 9);
}

/// A 256-bit unsigned scalar held as its canonical (no leading zero)
/// big-endian byte string, as the transaction wire encoding carries it.
#[derive(Debug, PartialEq, Eq)]
pub struct U256 {
    pub be: Vec<u8>,
}

impl View for U256 {
    type V = Seq<u8>;

    open spec fn view(&self) -> Seq<u8> {
        self.be@
    }
}

/// A byte string is a canonical big-endian scalar of at most 32 bytes.
pub open spec fn canonical_scalar(s: Seq<u8>) -> bool {
    s.len() <= 32 && (s.len() > 0 ==> s[0] != 0)
}

impl U256 {
    pub open spec fn wf(&self) -> bool {
        canonical_scalar(self.be@)
    }

    /// The numeric value this scalar denotes.
    pub open spec fn value(&self) -> nat {
        be_nat(self.be@)
    }

    pub fn from_be(be: Vec<u8>) -> (r: U256)
        requires
            canonical_scalar(be@),
        ensures
            r@ == be@,
            r.wf(),
    {
        U256 { be }
    }

    pub fn zero() -> (r: U256)
        ensures
            r@ == Seq::<u8>::empty(),
            r.wf(),
    {
        U256 { be: Vec::new() }
    }

    pub fn be_bytes(&self) -> (r: &Vec<u8>)
        ensures
            r@ == self@,
    {
        &self.be
    }
}

/// Failures of the account and transaction byte decoders.
#[derive(Clone, Copy, Debug, PartialEq, Eq, Structural)]
pub enum DecodeError {
    /// A length or tag does not fit the expected layout.
    Malformed,
    /// The transaction encoding does not hold exactly nine fields.
    WrongFieldCount,
    /// A byte-string field was encoded as a list.
    ExpectedData,
}

/// Failures of the companion-instruction authentication check.
#[derive(Clone, Copy, Debug, PartialEq, Eq, Structural)]
pub enum AuthError {
    /// No instruction precedes the current one.
    MissingSignature,
    /// The preceding instruction targets the wrong program.
    WrongProgram,
    /// The preceding instruction's payload differs from the expected bytes.
    OffsetMismatch,
}

/// Failures of elliptic-curve signer recovery.
#[derive(Clone, Copy, Debug, PartialEq, Eq, Structural)]
pub enum CryptoError {
    /// The 64-byte (r, s) part does not parse as a signature.
    BadSignature,
    /// The recovery id byte is not below four.
    BadRecoveryId,
    /// Public-key recovery itself failed.
    RecoveryFailed,
}

/// Byte-wise equality of two byte vectors.
pub fn eq_bytes(a: &Vec<u8>, b: &Vec<u8>) -> (r: bool)
    ensures
        r == (a@ == b@),
{
    if a.len() != b.len() {
        return false;
    }
    let mut i: usize = 0;
    while i < a.len()
        invariant
            i <= a@.len(),
            a@.len() == b@.len(),
            forall|j: int| 0 <= j < i ==> a@[j] == b@[j],
        decreases a@.len() - i,
    {
        if a[i] != b[i] {
            return false;
        }
        i += 1;
    }
    proof {
        assert(a@ =~= b@);
    }
    true
}

/// A copy of the byte range `[from, to)` of `v`.
pub fn copy_range(v: &Vec<u8>, from: usize, to: usize) -> (r: Vec<u8>)
    requires
        from <= to <= v@.len(),
    ensures
        r@ == v@.subrange(from as int, to as int),
{
    let mut r: Vec<u8> = Vec::new();
    let mut i: usize = from;
    while i < to
        invariant
            from <= i <= to <= v@.len(),
            r@ == v@.subrange(from as int, i as int),
        decreases to - i,
    {
        r.push(v[i]);
        proof {
            assert(v@.subrange(from as int, (i + 1) as int) =~= v@.subrange(
                from as int,
                i as int,
            ).push(v@[i as int]));
        }
        i += 1;
    }
    r
}

/// The big-endian value of at most eight bytes, as a machine integer.
pub fn u64_from_be(v: &Vec<u8>, from: usize, to: usize) -> (r: u64)
    requires
        from <= to <= v@.len(),
        to - from <= 8,
    ensures
        r == be_nat(v@.subrange(from as int, to as int)),
{
    let mut acc: u64 = 0;
    let mut i: usize = from;
    proof {
        lemma_pow256_8();
    }
    while i < to
        invariant
            from <= i <= to <= v@.len(),
            to - from <= 8,
            acc == be_nat(v@.subrange(from as int, i as int)),
        decreases to - i,
    {
        proof {
            let pre = v@.subrange(from as int, i as int);
            lemma_be_nat_bound(pre);
            lemma_pow256_mono(pre.len(), 7);
            reveal_with_fuel(pow256, 8);
            assert(v@.subrange(from as int, (i + 1) as int).drop_last() =~= pre);
        }
        acc = acc * 256 + (v[i] as u64);
        i += 1;
    }
    acc
}

pub proof fn lemma_pow256_mono(a: nat, b: nat)
    requires
        a <= b,
    ensures
        pow256(a) <= pow256(b),
    decreases b,
{
    if a < b {
        lemma_pow256_mono(a, (b - 1) as nat);
        assert(pow256(b) == 256 * pow256((b - 1) as nat));
    }
}

} // verus!
