//! The account storage bridge: lazily resolves Ethereum addresses to native
//! ledger accounts through an injected fetch collaborator, caches the
//! outcome, consumes interpreter state diffs, and reports touched accounts.

use vstd::prelude::*;
use vstd::string::StringExecFns;

use crate::codec::{decode_account, is_contract_layout, is_plain_layout, AccountRecord};
use crate::encode::{base58_of, hex_encode, hex_seq, native_id_to_base58};
use crate::mapper::{pda_of, AddressMapper};
use crate::types::{all_zero, be_nat, eq_bytes, EthAddress, NativeId, U256};

verus! {

/// A raw ledger account as the fetch collaborator returns it.
pub struct RawAccount {
    pub data: Vec<u8>,
    pub balance: u64,
    pub owner: NativeId,
}

/// The injected account-fetch collaborator: the surrounding ledger-access
/// layer implements it. Its answer carries no contract — the bridge states
/// what holds of every outcome.
pub trait AccountFetcher {
    /// The raw ledger account stored under a native identity, or nothing
    /// where none exists.
    fn get(&mut self, id: &NativeId) -> Option<RawAccount>;
}

/// An Ethereum account whose ledger record was found to exist.
pub struct ResolvedAccount {
    pub data: RawAccount,
    pub native_id: NativeId,
    pub bump: u8,
    pub code: Option<(NativeId, RawAccount)>,
    pub writable: bool,
    pub code_size: Option<usize>,
}

impl ResolvedAccount {
    pub open spec fn wf(&self) -> bool {
        &&& self.native_id.wf()
        &&& (self.code matches Some(c) ==> c.0.wf())
    }
}

/// An Ethereum address with no existing ledger record yet.
pub struct UnresolvedAccount {
    pub native_id: NativeId,
    pub bump: u8,
    pub writable: bool,
    pub code_size: Option<usize>,
}

impl UnresolvedAccount {
    pub open spec fn wf(&self) -> bool {
        self.native_id.wf()
    }
}

/// The block context captured once at construction from the ledger's head.
#[derive(Clone, Copy, Debug, PartialEq, Eq, Structural)]
pub struct BlockContext {
    pub block_number: u64,
    pub block_timestamp: i64,
}

impl BlockContext {
    /// Capture the ledger head, falling back to zero where a fetch failed:
    /// an approximation acceptable only for non-authoritative simulation.
    pub fn from_fetch(slot: Option<u64>, timestamp: Option<i64>) -> (r: BlockContext)
        ensures
            r.block_number == (match slot {
                Some(s) => s,
                None => 0u64,
            }),
            r.block_timestamp == (match timestamp {
                Some(t) => t,
                None => 0i64,
            }),
    {
        let block_number = match slot {
            Some(s) => s,
            None => 0,
        };
        let block_timestamp = match timestamp {
            Some(t) => t,
            None => 0,
        };
        BlockContext { block_number, block_timestamp }
    }
}

/// One entry of the interpreter's state diff.
pub enum StateDiffEntry {
    /// An account was touched: its new basics, optionally new code, and its
    /// storage writes.
    Modify {
        address: EthAddress,
        nonce: u64,
        balance: U256,
        code: Option<Vec<u8>>,
        storage: Vec<(U256, U256)>,
        reset_storage: bool,
    },
    /// An account was deleted; surfaced for reporting, never enacted here.
    Delete { address: EthAddress },
}

/// The combined view of a found account handed to the interpreter.
pub struct AccountView {
    pub native_id: NativeId,
    pub balance: u64,
    pub trx_count: u64,
    pub code: Option<Vec<u8>>,
}

/// The two-armed outcome of a read: a found account view, or absence.
pub enum ReadOutcome {
    Found(AccountView),
    Absent,
}

/// One reported account, in the shape the report consumer expects.
#[derive(Debug)]
pub struct AccountJSON {
    pub address: String,
    pub account: String,
    pub contract: Option<String>,
    pub writable: bool,
    pub new: bool,
    pub code_size: Option<usize>,
}

/// Mathematical shape of one reported account.
pub struct SpecAccountJSON {
    pub address: Seq<char>,
    pub account: Seq<char>,
    pub contract: Option<Seq<char>>,
    pub writable: bool,
    pub new: bool,
    pub code_size: Option<usize>,
}

impl View for AccountJSON {
    type V = SpecAccountJSON;

    open spec fn view(&self) -> SpecAccountJSON {
        SpecAccountJSON {
            address: self.address@,
            account: self.account@,
            contract: match self.contract {
                Some(c) => Some(c@),
                None => None,
            },
            writable: self.writable,
            new: self.new,
            code_size: self.code_size,
        }
    }
}

/// Some entry of the association list carries the key.
pub open spec fn seq_has_key<T>(s: Seq<(EthAddress, T)>, k: Seq<u8>) -> bool {
    exists|i: int| 0 <= i < s.len() && s[i].0@ == k
}

/// The index of the entry carrying the key.
pub open spec fn key_index<T>(s: Seq<(EthAddress, T)>, k: Seq<u8>) -> int {
    choose|i: int| 0 <= i < s.len() && s[i].0@ == k
}

/// The value stored under the key.
pub open spec fn value_of<T>(s: Seq<(EthAddress, T)>, k: Seq<u8>) -> T {
    s[key_index(s, k)].1
}

/// Find the entry carrying an address, if any.
fn find_key<T>(v: &Vec<(EthAddress, T)>, a: &EthAddress) -> (r: Option<usize>)
    ensures
        r matches Some(i) ==> i < v@.len() && v@[i as int].0@ == a@,
        (r is Some <==> seq_has_key(v@, a@)),
{
    let mut i: usize = 0;
    while i < v.len()
        invariant
            i <= v@.len(),
            forall|j: int| 0 <= j < i ==> (#[trigger] v@[j]).0@ != a@,
        decreases v@.len() - i,
    {
        if eq_bytes(&v[i].0.b, &a.b) {
            return Some(i);
        }
        i += 1;
    }
    None
}

/// The designated system/reserved address: one 0xff byte followed by
/// nineteen zero bytes. It belongs to the host bridge itself and is never
/// reported.
pub open spec fn is_reserved_address(a: Seq<u8>) -> bool {
    a.len() == 20 && a[0] == 0xff && all_zero(a.subrange(1, 20))
}

/// The designated system/reserved address as a value.
pub fn reserved_address() -> (r: EthAddress)
    ensures
        is_reserved_address(r@),
        r.wf(),
{
    let mut b: Vec<u8> = Vec::new();
    b.push(0xffu8);
    let mut i: usize = 1;
    while i < 20
        invariant
            1 <= i <= 20,
            b@.len() == i,
            b@[0] == 0xff,
            forall|j: int| 1 <= j < i ==> b@[j] == 0,
        decreases 20 - i,
    {
        b.push(0u8);
        i += 1;
    }
    let r = EthAddress { b };
    proof {
        assert(all_zero(r@.subrange(1, 20)));
    }
    r
}

/// Whether an address is the designated system/reserved address.
pub fn is_reserved(a: &EthAddress) -> (r: bool)
    requires
        a.wf(),
    ensures
        r == is_reserved_address(a@),
{
    if a.b[0] != 0xff {
        return false;
    }
    let mut i: usize = 1;
    while i < 20
        invariant
            1 <= i <= 20,
            a@.len() == 20,
            forall|j: int| 1 <= j < i ==> a@[j] == 0,
        decreases 20 - i,
    {
        if a.b[i] != 0 {
            proof {
                assert(a@.subrange(1, 20)[i - 1] != 0);
            }
            return false;
        }
        i += 1;
    }
    proof {
        assert(all_zero(a@.subrange(1, 20)));
    }
    true
}

/// What a read of address `a` must yield, given the cache's state after
/// resolution: absence where no resolved entry exists or where the stored
/// bytes do not decode to the expected shapes; otherwise the combined view
/// of the data account and, where one is linked and valid, its code.
pub open spec fn read_outcome_ok(c: AccountCache, a: Seq<u8>, r: ReadOutcome) -> bool {
    if !seq_has_key(c.resolved@, a) {
        r is Absent
    } else {
        let acc = value_of(c.resolved@, a);
        let d = acc.data.data@;
        if !is_plain_layout(d) {
            r is Absent
        } else {
            match acc.code {
                None => {
                    &&& r matches ReadOutcome::Found(v)
                    &&& v.native_id@ == acc.native_id@
                    &&& v.balance == acc.data.balance
                    &&& v.trx_count == be_nat(d.subrange(21, 29))
                    &&& v.code is None
                },
                Some(ca) => if is_contract_layout(ca.1.data@) {
                    &&& r matches ReadOutcome::Found(v)
                    &&& v.native_id@ == acc.native_id@
                    &&& v.balance == acc.data.balance
                    &&& v.trx_count == be_nat(d.subrange(21, 29))
                    &&& v.code matches Some(cd) && cd@ == ca.1.data@.subrange(
                        37,
                        ca.1.data@.len() as int,
                    )
                } else {
                    r is Absent
                },
            }
        }
    }
}

/// Law: a read dispatches to exactly one of its two arms — an outcome is
/// found if and only if it is not absent.
pub proof fn lemma_read_dispatch_exclusive(r: ReadOutcome)
    ensures
        (r is Found) <==> !(r is Absent),
{
}

/// The value an account record folds to after consuming a state diff:
/// each `Modify` naming its address marks it writable and, where the diff
/// carries code, records that code's length; nothing else changes, and
/// `Delete` changes nothing.
pub open spec fn fold_resolved(
    acc: ResolvedAccount,
    k: Seq<u8>,
    diff: Seq<StateDiffEntry>,
) -> ResolvedAccount
    decreases diff.len(),
{
    if diff.len() == 0 {
        acc
    } else {
        let prev = fold_resolved(acc, k, diff.drop_last());
        match diff.last() {
            StateDiffEntry::Modify { address, code, .. } => if address@ == k {
                ResolvedAccount {
                    data: prev.data,
                    native_id: prev.native_id,
                    bump: prev.bump,
                    code: prev.code,
                    writable: true,
                    code_size: match code {
                        Some(c) => Some(c@.len() as usize),
                        None => prev.code_size,
                    },
                }
            } else {
                prev
            },
            StateDiffEntry::Delete { .. } => prev,
        }
    }
}

/// As `fold_resolved`, for an unresolved record.
pub open spec fn fold_unresolved(
    acc: UnresolvedAccount,
    k: Seq<u8>,
    diff: Seq<StateDiffEntry>,
) -> UnresolvedAccount
    decreases diff.len(),
{
    if diff.len() == 0 {
        acc
    } else {
        let prev = fold_unresolved(acc, k, diff.drop_last());
        match diff.last() {
            StateDiffEntry::Modify { address, code, .. } => if address@ == k {
                UnresolvedAccount {
                    native_id: prev.native_id,
                    bump: prev.bump,
                    writable: true,
                    code_size: match code {
                        Some(c) => Some(c@.len() as usize),
                        None => prev.code_size,
                    },
                }
            } else {
                prev
            },
            StateDiffEntry::Delete { .. } => prev,
        }
    }
}

/// The reported shape of one resolved entry: hexadecimal address with a
/// "0x" prefix, base58 native identity, the linked code identity where the
/// stored bytes declare a non-sentinel one, and the recorded flags.
pub open spec fn json_of_resolved(e: (EthAddress, ResolvedAccount)) -> SpecAccountJSON {
    SpecAccountJSON {
        address: seq!['0', 'x'] + hex_seq(e.0@),
        account: base58_of(e.1.native_id@),
        contract: {
            let d = e.1.data.data@;
            if is_plain_layout(d) && !all_zero(d.subrange(29, 61)) {
                Some(base58_of(d.subrange(29, 61)))
            } else {
                None
            }
        },
        writable: e.1.writable,
        new: false,
        code_size: e.1.code_size,
    }
}

/// The reported shape of one unresolved entry.
pub open spec fn json_of_unresolved(e: (EthAddress, UnresolvedAccount)) -> SpecAccountJSON {
    SpecAccountJSON {
        address: seq!['0', 'x'] + hex_seq(e.0@),
        account: base58_of(e.1.native_id@),
        contract: None,
        writable: e.1.writable,
        new: true,
        code_size: e.1.code_size,
    }
}

/// The report rows of the resolved map, in insertion order, the reserved
/// address left out.
pub open spec fn spec_report_resolved(s: Seq<(EthAddress, ResolvedAccount)>) -> Seq<
    SpecAccountJSON,
>
    decreases s.len(),
{
    if s.len() == 0 {
        Seq::empty()
    } else {
        spec_report_resolved(s.drop_last()) + (if is_reserved_address(s.last().0@) {
            Seq::empty()
        } else {
            seq![json_of_resolved(s.last())]
        })
    }
}

/// The report rows of the unresolved map, in insertion order, the reserved
/// address left out.
pub open spec fn spec_report_unresolved(s: Seq<(EthAddress, UnresolvedAccount)>) -> Seq<
    SpecAccountJSON,
>
    decreases s.len(),
{
    if s.len() == 0 {
        Seq::empty()
    } else {
        spec_report_unresolved(s.drop_last()) + (if is_reserved_address(s.last().0@) {
            Seq::empty()
        } else {
            seq![json_of_unresolved(s.last())]
        })
    }
}

/// The views of a sequence of report rows.
pub open spec fn jsons_view(v: Seq<AccountJSON>) -> Seq<SpecAccountJSON>
    decreases v.len(),
{
    if v.len() == 0 {
        Seq::empty()
    } else {
        jsons_view(v.drop_last()).push(v.last()@)
    }
}

/// Law: the report of the resolved map holds exactly the rows of its
/// non-reserved entries — every row stems from a cache entry whose address
/// is not the designated reserved address.
pub proof fn lemma_report_resolved_sound(s: Seq<(EthAddress, ResolvedAccount)>)
    ensures
        forall|j: int|
            0 <= j < spec_report_resolved(s).len() ==> exists|i: int|
                0 <= i < s.len() && !is_reserved_address(s[i].0@)
                    && #[trigger] spec_report_resolved(s)[j] == json_of_resolved(s[i]),
    decreases s.len(),
{
    if s.len() > 0 {
        lemma_report_resolved_sound(s.drop_last());
        let pre = spec_report_resolved(s.drop_last());
        assert forall|j: int| 0 <= j < spec_report_resolved(s).len() implies exists|i: int|
            0 <= i < s.len() && !is_reserved_address(s[i].0@)
                && #[trigger] spec_report_resolved(s)[j] == json_of_resolved(s[i]) by {
            if j < pre.len() {
                let i = choose|i: int|
                    0 <= i < s.drop_last().len() && !is_reserved_address(s.drop_last()[i].0@)
                        && pre[j] == json_of_resolved(s.drop_last()[i]);
                assert(s.drop_last()[i] == s[i]);
                assert(spec_report_resolved(s)[j] == json_of_resolved(s[i]));
            } else {
                assert(!is_reserved_address(s[s.len() - 1].0@));
                assert(spec_report_resolved(s)[j] == json_of_resolved(s[s.len() - 1]));
            }
        }
    }
}

/// Law: as `lemma_report_resolved_sound`, for the unresolved map.
pub proof fn lemma_report_unresolved_sound(s: Seq<(EthAddress, UnresolvedAccount)>)
    ensures
        forall|j: int|
            0 <= j < spec_report_unresolved(s).len() ==> exists|i: int|
                0 <= i < s.len() && !is_reserved_address(s[i].0@)
                    && #[trigger] spec_report_unresolved(s)[j] == json_of_unresolved(s[i]),
    decreases s.len(),
{
    if s.len() > 0 {
        lemma_report_unresolved_sound(s.drop_last());
        let pre = spec_report_unresolved(s.drop_last());
        assert forall|j: int| 0 <= j < spec_report_unresolved(s).len() implies exists|i: int|
            0 <= i < s.len() && !is_reserved_address(s[i].0@)
                && #[trigger] spec_report_unresolved(s)[j] == json_of_unresolved(s[i]) by {
            if j < pre.len() {
                let i = choose|i: int|
                    0 <= i < s.drop_last().len() && !is_reserved_address(s.drop_last()[i].0@)
                        && pre[j] == json_of_unresolved(s.drop_last()[i]);
                assert(s.drop_last()[i] == s[i]);
                assert(spec_report_unresolved(s)[j] == json_of_unresolved(s[i]));
            } else {
                assert(!is_reserved_address(s[s.len() - 1].0@));
                assert(spec_report_unresolved(s)[j] == json_of_unresolved(s[s.len() - 1]));
            }
        }
    }
}

/// An association list grew by exactly one fresh entry for the key `a`,
/// inserted unwritten (not writable, no recorded code size) with the
/// identity that `pda_of` derives for `a` under `program`. A resolved
/// entry is inserted only for fetched bytes of the plain-account layout,
/// and its code attachment honours the stored link: a zero-sentinel link
/// carries no code, and attached code sits under exactly the declared
/// link. (Whether a declared link's fetch succeeded is the collaborator's
/// answer and is not pinned.)
pub open spec fn extended_resolved(
    pre: Seq<(EthAddress, ResolvedAccount)>,
    post: Seq<(EthAddress, ResolvedAccount)>,
    a: Seq<u8>,
    program: Seq<u8>,
) -> bool {
    &&& post.len() == pre.len() + 1
    &&& post.subrange(0, pre.len() as int) == pre
    &&& post.last().0@ == a
    &&& post.last().1.writable == false
    &&& post.last().1.code_size is None
    &&& pda_of(a, program) == Some((post.last().1.native_id@, post.last().1.bump))
    &&& is_plain_layout(post.last().1.data.data@)
    &&& (post.last().1.code matches Some(c) ==> c.0@ == post.last().1.data.data@.subrange(29, 61)
        && !all_zero(post.last().1.data.data@.subrange(29, 61)))
    &&& (all_zero(post.last().1.data.data@.subrange(29, 61)) ==> post.last().1.code is None)
}

/// As `extended_resolved`, for the unresolved map.
pub open spec fn extended_unresolved(
    pre: Seq<(EthAddress, UnresolvedAccount)>,
    post: Seq<(EthAddress, UnresolvedAccount)>,
    a: Seq<u8>,
    program: Seq<u8>,
) -> bool {
    &&& post.len() == pre.len() + 1
    &&& post.subrange(0, pre.len() as int) == pre
    &&& post.last().0@ == a
    &&& post.last().1.writable == false
    &&& post.last().1.code_size is None
    &&& pda_of(a, program) == Some((post.last().1.native_id@, post.last().1.bump))
}

/// The account storage bridge.
pub struct AccountCache {
    pub resolved: Vec<(EthAddress, ResolvedAccount)>,
    pub unresolved: Vec<(EthAddress, UnresolvedAccount)>,
    pub mapper: AddressMapper,
    pub contract_id: EthAddress,
    pub origin_id: EthAddress,
    pub block: BlockContext,
}

impl AccountCache {
    /// Internal invariant: all entries well formed, every key held by at
    /// most one entry across both maps.
    pub open spec fn wf(&self) -> bool {
        &&& self.mapper.wf()
        &&& self.contract_id.wf()
        &&& self.origin_id.wf()
        &&& forall|i: int|
            0 <= i < self.resolved@.len() ==> (#[trigger] self.resolved@[i]).0.wf()
                && self.resolved@[i].1.wf()
        &&& forall|i: int|
            0 <= i < self.unresolved@.len() ==> (#[trigger] self.unresolved@[i]).0.wf()
                && self.unresolved@[i].1.wf()
        &&& forall|i: int, j: int|
            0 <= i < j < self.resolved@.len() ==> (#[trigger] self.resolved@[i]).0@ != (
            #[trigger] self.resolved@[j]).0@
        &&& forall|i: int, j: int|
            0 <= i < j < self.unresolved@.len() ==> (#[trigger] self.unresolved@[i]).0@ != (
            #[trigger] self.unresolved@[j]).0@
        &&& forall|i: int, j: int|
            0 <= i < self.resolved@.len() && 0 <= j < self.unresolved@.len() ==> (
            #[trigger] self.resolved@[i]).0@ != (#[trigger] self.unresolved@[j]).0@
    }

    /// The address has an entry in either map.
    pub open spec fn has_entry(&self, k: Seq<u8>) -> bool {
        seq_has_key(self.resolved@, k) || seq_has_key(self.unresolved@, k)
    }

    pub fn new(
        mapper: AddressMapper,
        contract_id: EthAddress,
        origin_id: EthAddress,
        block: BlockContext,
    ) -> (r: AccountCache)
        requires
            mapper.wf(),
            contract_id.wf(),
            origin_id.wf(),
        ensures
            r.wf(),
            r.resolved@.len() == 0,
            r.unresolved@.len() == 0,
            r.mapper == mapper,
            r.contract_id == contract_id,
            r.origin_id == origin_id,
            r.block == block,
    {
        AccountCache {
            resolved: Vec::new(),
            unresolved: Vec::new(),
            mapper,
            contract_id,
            origin_id,
            block,
        }
    }

    /// The executing contract's address.
    pub fn contract(&self) -> (r: &EthAddress)
        ensures
            r@ == self.contract_id@,
    {
        &self.contract_id
    }

    /// The transaction origin's address.
    pub fn origin(&self) -> (r: &EthAddress)
        ensures
            r@ == self.origin_id@,
    {
        &self.origin_id
    }

    /// The block number captured at construction.
    pub fn block_number(&self) -> (r: u64)
        ensures
            r == self.block.block_number,
    {
        self.block.block_number
    }

    /// The block timestamp captured at construction.
    pub fn block_timestamp(&self) -> (r: i64)
        ensures
            r == self.block.block_timestamp,
    {
        self.block.block_timestamp
    }

    /// Resolve an address against the ledger, at most once per cache
    /// lifetime: a present entry (resolved or unresolved) makes the call a
    /// no-op that touches neither the cache nor the fetch collaborator.
    /// Otherwise the address's native identity is derived, the account is
    /// fetched and decoded, and exactly one new entry is inserted: resolved
    /// on success, unresolved on fetch or decode failure. Returns whether
    /// the address now has a resolved (found on ledger) entry.
    pub fn ensure_resolved<F: AccountFetcher>(
        &mut self,
        fetcher: &mut F,
        address: &EthAddress,
    ) -> (found: bool)
        requires
            old(self).wf(),
            address.wf(),
        ensures
            final(self).wf(),
            final(self).mapper == old(self).mapper,
            final(self).contract_id == old(self).contract_id,
            final(self).origin_id == old(self).origin_id,
            final(self).block == old(self).block,
            old(self).has_entry(address@) ==> *final(self) == *old(self) && *final(fetcher)
                == *old(fetcher),
            found == seq_has_key(final(self).resolved@, address@),
            final(self).has_entry(address@) || pda_of(address@, old(self).mapper.program@)
                is None,
            !old(self).has_entry(address@) && pda_of(address@, old(self).mapper.program@)
                is None ==> *final(self) == *old(self) && *final(fetcher) == *old(fetcher),
            !old(self).has_entry(address@) && pda_of(address@, old(self).mapper.program@) is Some
                && found ==> final(self).unresolved@ == old(self).unresolved@ && extended_resolved(
                old(self).resolved@,
                final(self).resolved@,
                address@,
                old(self).mapper.program@,
            ),
            !old(self).has_entry(address@) && pda_of(address@, old(self).mapper.program@) is Some
                && !found ==> final(self).resolved@ == old(self).resolved@ && extended_unresolved(
                old(self).unresolved@,
                final(self).unresolved@,
                address@,
                old(self).mapper.program@,
            ),
    {
        if find_key(&self.resolved, address).is_some() {
            return true;
        }
        if find_key(&self.unresolved, address).is_some() {
            return false;
        }
        let (native_id, bump) = match self.mapper.derive(address) {
            Some(p) => p,
            None => {
                return false;
            },
        };
        let fetched = fetcher.get(&native_id);
        match fetched {
            Some(raw) => {
                let linked = match decode_account(&raw.data) {
                    Ok(AccountRecord::PlainAccount { code_account, .. }) => Some(code_account),
                    _ => None,
                };
                match linked {
                    Some(code_account) => {
                        let code = if code_account.is_zero() {
                            None
                        } else {
                            match fetcher.get(&code_account) {
                                Some(c) => Some((code_account, c)),
                                None => None,
                            }
                        };
                        let entry = ResolvedAccount {
                            data: raw,
                            native_id,
                            bump,
                            code,
                            writable: false,
                            code_size: None,
                        };
                        let ghost pre = self.resolved@;
                        self.resolved.push((address.clone(), entry));
                        proof {
                            assert(pre.push(self.resolved@.last()).subrange(0, pre.len() as int)
                                =~= pre);
                            assert(seq_has_key(self.resolved@, address@)) by {
                                assert(self.resolved@[self.resolved@.len() - 1].0@ == address@);
                            }
                        }
                        true
                    },
                    None => {
                        let ghost pre = self.unresolved@;
                        self.unresolved.push(
                            (
                                address.clone(),
                                UnresolvedAccount { native_id, bump, writable: false, code_size: None },
                            ),
                        );
                        proof {
                            assert(pre.push(self.unresolved@.last()).subrange(0, pre.len() as int)
                                =~= pre);
                            assert(seq_has_key(self.unresolved@, address@)) by {
                                assert(self.unresolved@[self.unresolved@.len() - 1].0@
                                    == address@);
                            }
                        }
                        false
                    },
                }
            },
            None => {
                let ghost pre = self.unresolved@;
                self.unresolved.push(
                    (
                        address.clone(),
                        UnresolvedAccount { native_id, bump, writable: false, code_size: None },
                    ),
                );
                proof {
                    assert(pre.push(self.unresolved@.last()).subrange(0, pre.len() as int) =~= pre);
                    assert(seq_has_key(self.unresolved@, address@)) by {
                        assert(self.unresolved@[self.unresolved@.len() - 1].0@ == address@);
                    }
                }
                false
            },
        }
    }

    /// Read an address: resolve it first, then dispatch on exactly one of
    /// the two arms. Absence — no resolved entry, or stored bytes that do
    /// not decode to the expected shapes — is a normal outcome, never an
    /// error.
    pub fn read<F: AccountFetcher>(&mut self, fetcher: &mut F, address: &EthAddress) -> (r:
        ReadOutcome)
        requires
            old(self).wf(),
            address.wf(),
        ensures
            final(self).wf(),
            final(self).mapper == old(self).mapper,
            final(self).contract_id == old(self).contract_id,
            final(self).origin_id == old(self).origin_id,
            final(self).block == old(self).block,
            old(self).has_entry(address@) ==> *final(self) == *old(self) && *final(fetcher)
                == *old(fetcher),
            final(self).has_entry(address@) || pda_of(address@, old(self).mapper.program@)
                is None,
            !old(self).has_entry(address@) && pda_of(address@, old(self).mapper.program@)
                is None ==> *final(self) == *old(self) && *final(fetcher) == *old(fetcher),
            !old(self).has_entry(address@) && pda_of(address@, old(self).mapper.program@) is Some
                && seq_has_key(final(self).resolved@, address@) ==> final(self).unresolved@ == old(
                self,
            ).unresolved@ && extended_resolved(
                old(self).resolved@,
                final(self).resolved@,
                address@,
                old(self).mapper.program@,
            ),
            !old(self).has_entry(address@) && pda_of(address@, old(self).mapper.program@) is Some
                && !seq_has_key(final(self).resolved@, address@) ==> final(self).resolved@ == old(
                self,
            ).resolved@ && extended_unresolved(
                old(self).unresolved@,
                final(self).unresolved@,
                address@,
                old(self).mapper.program@,
            ),
            read_outcome_ok(*final(self), address@, r),
    {
        self.ensure_resolved(fetcher, address);
        let i = match find_key(&self.resolved, address) {
            Some(i) => i,
            None => {
                return ReadOutcome::Absent;
            },
        };
        proof {
            let j = key_index(self.resolved@, address@);
            assert(0 <= j < self.resolved@.len() && self.resolved@[j].0@ == address@);
            assert(j == i);
        }
        let acc = &self.resolved[i].1;
        let rec = match decode_account(&acc.data.data) {
            Ok(rec) => rec,
            Err(_) => {
                return ReadOutcome::Absent;
            },
        };
        let trx_count = match rec {
            AccountRecord::PlainAccount { trx_count, .. } => trx_count,
            _ => {
                return ReadOutcome::Absent;
            },
        };
        match &acc.code {
            None => ReadOutcome::Found(
                AccountView {
                    native_id: acc.native_id.clone(),
                    balance: acc.data.balance,
                    trx_count,
                    code: None,
                },
            ),
            Some(ca) => match decode_account(&ca.1.data) {
                Ok(AccountRecord::ContractCode { code, .. }) => ReadOutcome::Found(
                    AccountView {
                        native_id: acc.native_id.clone(),
                        balance: acc.data.balance,
                        trx_count,
                        code: Some(code),
                    },
                ),
                _ => ReadOutcome::Absent,
            },
        }
    }

    /// Consume the interpreter's state diff. No entry is ever created or
    /// removed: a `Modify` for a cached address marks it writable and
    /// records supplied code's length (leaving the recorded size unchanged
    /// where the diff carries none); a `Modify` for an unknown address and
    /// every `Delete` leave the cache unchanged.
    pub fn apply(&mut self, diff: &Vec<StateDiffEntry>)
        requires
            old(self).wf(),
        ensures
            final(self).wf(),
            final(self).mapper == old(self).mapper,
            final(self).contract_id == old(self).contract_id,
            final(self).origin_id == old(self).origin_id,
            final(self).block == old(self).block,
            final(self).resolved@.len() == old(self).resolved@.len(),
            final(self).unresolved@.len() == old(self).unresolved@.len(),
            forall|i: int|
                0 <= i < old(self).resolved@.len() ==> (#[trigger] final(self).resolved@[i]).0
                    == old(self).resolved@[i].0 && final(self).resolved@[i].1 == fold_resolved(
                    old(self).resolved@[i].1,
                    old(self).resolved@[i].0@,
                    diff@,
                ),
            forall|i: int|
                0 <= i < old(self).unresolved@.len() ==> (#[trigger] final(self).unresolved@[i]).0
                    == old(self).unresolved@[i].0 && final(self).unresolved@[i].1
                    == fold_unresolved(
                    old(self).unresolved@[i].1,
                    old(self).unresolved@[i].0@,
                    diff@,
                ),
    {
        let mut j: usize = 0;
        while j < diff.len()
            invariant
                j <= diff@.len(),
                self.wf(),
                self.mapper == old(self).mapper,
                self.contract_id == old(self).contract_id,
                self.origin_id == old(self).origin_id,
                self.block == old(self).block,
                self.resolved@.len() == old(self).resolved@.len(),
                self.unresolved@.len() == old(self).unresolved@.len(),
                forall|i: int|
                    0 <= i < old(self).resolved@.len() ==> (#[trigger] self.resolved@[i]).0 == old(
                        self,
                    ).resolved@[i].0 && self.resolved@[i].1 == fold_resolved(
                        old(self).resolved@[i].1,
                        old(self).resolved@[i].0@,
                        diff@.take(j as int),
                    ),
                forall|i: int|
                    0 <= i < old(self).unresolved@.len() ==> (#[trigger] self.unresolved@[i]).0
                        == old(self).unresolved@[i].0 && self.unresolved@[i].1 == fold_unresolved(
                        old(self).unresolved@[i].1,
                        old(self).unresolved@[i].0@,
                        diff@.take(j as int),
                    ),
            decreases diff@.len() - j,
        {
            let ghost prevres = self.resolved@;
            let ghost prevunres = self.unresolved@;
            match &diff[j] {
                StateDiffEntry::Modify { address, code, .. } => {
                    match find_key(&self.resolved, address) {
                        Some(i) => {
                            let e = &mut self.resolved[i];
                            e.1.writable = true;
                            match code {
                                Some(c) => {
                                    e.1.code_size = Some(c.len());
                                },
                                None => {},
                            }
                        },
                        None => {
                            match find_key(&self.unresolved, address) {
                                Some(i) => {
                                    let e = &mut self.unresolved[i];
                                    e.1.writable = true;
                                    match code {
                                        Some(c) => {
                                            e.1.code_size = Some(c.len());
                                        },
                                        None => {},
                                    }
                                },
                                None => {},
                            }
                        },
                    }
                },
                StateDiffEntry::Delete { .. } => {},
            }
            proof {
                assert(diff@.take(j + 1).drop_last() =~= diff@.take(j as int));
                assert(diff@.take(j + 1).last() == diff@[j as int]);
            }
            j += 1;
        }
        proof {
            assert(diff@.take(diff@.len() as int) =~= diff@);
        }
    }

    /// Report every cached account except the designated reserved address:
    /// resolved entries first, then unresolved ones, each map in insertion
    /// order.
    pub fn get_used_accounts(&self) -> (r: Vec<AccountJSON>)
        requires
            self.wf(),
        ensures
            jsons_view(r@) == spec_report_resolved(self.resolved@) + spec_report_unresolved(
                self.unresolved@,
            ),
    {
        let mut out: Vec<AccountJSON> = Vec::new();
        let mut i: usize = 0;
        while i < self.resolved.len()
            invariant
                i <= self.resolved@.len(),
                self.wf(),
                jsons_view(out@) == spec_report_resolved(self.resolved@.take(i as int)),
            decreases self.resolved@.len() - i,
        {
            let e = &self.resolved[i];
            if !is_reserved(&e.0) {
                let hexs = hex_encode(&e.0.b);
                let address = String::from_str("0x").concat(hexs.as_str());
                let account = native_id_to_base58(&e.1.native_id);
                let contract: Option<String> = match decode_account(&e.1.data.data) {
                    Ok(AccountRecord::PlainAccount { code_account, .. }) => {
                        if code_account.is_zero() {
                            None
                        } else {
                            Some(native_id_to_base58(&code_account))
                        }
                    },
                    _ => None,
                };
                let row = AccountJSON {
                    address,
                    account,
                    contract,
                    writable: e.1.writable,
                    new: false,
                    code_size: e.1.code_size,
                };
                let ghost pre = out@;
                let ghost ge = self.resolved@[i as int];
                proof {
                    reveal_strlit("0x");
                    assert(row@.address =~= seq!['0', 'x'] + hex_seq(ge.0@));
                    assert(row@ == json_of_resolved(ge));
                }
                out.push(row);
                proof {
                    assert(out@.drop_last() =~= pre);
                    assert(self.resolved@.take(i as int + 1).drop_last() =~= self.resolved@.take(
                        i as int,
                    ));
                    assert(self.resolved@.take(i as int + 1).last() == ge);
                    assert(jsons_view(out@) =~= spec_report_resolved(
                        self.resolved@.take(i as int + 1),
                    ));
                }
            } else {
                proof {
                    assert(self.resolved@.take(i as int + 1).drop_last() =~= self.resolved@.take(
                        i as int,
                    ));
                    assert(jsons_view(out@) =~= spec_report_resolved(
                        self.resolved@.take(i as int + 1),
                    ));
                }
            }
            i += 1;
        }
        proof {
            assert(self.resolved@.take(self.resolved@.len() as int) =~= self.resolved@);
        }
        let mut k: usize = 0;
        while k < self.unresolved.len()
            invariant
                k <= self.unresolved@.len(),
                self.wf(),
                jsons_view(out@) == spec_report_resolved(self.resolved@) + spec_report_unresolved(
                    self.unresolved@.take(k as int),
                ),
            decreases self.unresolved@.len() - k,
        {
            let e = &self.unresolved[k];
            if !is_reserved(&e.0) {
                let hexs = hex_encode(&e.0.b);
                let address = String::from_str("0x").concat(hexs.as_str());
                let account = native_id_to_base58(&e.1.native_id);
                let row = AccountJSON {
                    address,
                    account,
                    contract: None,
                    writable: e.1.writable,
                    new: true,
                    code_size: e.1.code_size,
                };
                let ghost pre = out@;
                let ghost ge = self.unresolved@[k as int];
                proof {
                    reveal_strlit("0x");
                    assert(row@.address =~= seq!['0', 'x'] + hex_seq(ge.0@));
                    assert(row@ == json_of_unresolved(ge));
                }
                out.push(row);
                proof {
                    assert(out@.drop_last() =~= pre);
                    assert(self.unresolved@.take(k as int + 1).drop_last()
                        =~= self.unresolved@.take(k as int));
                    assert(self.unresolved@.take(k as int + 1).last() == ge);
                    assert(jsons_view(out@) =~= spec_report_resolved(self.resolved@)
                        + spec_report_unresolved(self.unresolved@.take(k as int + 1)));
                }
            } else {
                proof {
                    assert(self.unresolved@.take(k as int + 1).drop_last()
                        =~= self.unresolved@.take(k as int));
                    assert(jsons_view(out@) =~= spec_report_resolved(self.resolved@)
                        + spec_report_unresolved(self.unresolved@.take(k as int + 1)));
                }
            }
            k += 1;
        }
        proof {
            assert(self.unresolved@.take(self.unresolved@.len() as int) =~= self.unresolved@);
        }
        out
    }
}

} // verus!
