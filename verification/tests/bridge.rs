use evm_bridge::cache::{
    AccountCache, AccountFetcher, BlockContext, RawAccount, ReadOutcome, StateDiffEntry,
};
use evm_bridge::codec::{decode_account, AccountRecord};
use evm_bridge::mapper::AddressMapper;
use evm_bridge::types::{DecodeError, EthAddress, NativeId, U256};

fn program_id_bytes() -> Vec<u8> {
    vec![7u8; 32]
}

fn native_id_for(addr: &[u8; 20]) -> Vec<u8> {
    let program = solana_program::pubkey::Pubkey::new_from_array([7u8; 32]);
    let (key, _bump) = solana_program::pubkey::Pubkey::find_program_address(&[addr], &program);
    key.to_bytes().to_vec()
}

fn mk_plain(addr: &[u8; 20], trx: u64, code_id: &[u8; 32]) -> Vec<u8> {
    let mut v = vec![1u8];
    v.extend_from_slice(addr);
    v.extend_from_slice(&trx.to_be_bytes());
    v.extend_from_slice(code_id);
    v
}

fn mk_contract(owner: &[u8; 32], code: &[u8]) -> Vec<u8> {
    let mut v = vec![2u8];
    v.extend_from_slice(owner);
    v.extend_from_slice(&(code.len() as u32).to_be_bytes());
    v.extend_from_slice(code);
    v
}

struct MockFetcher {
    calls: usize,
    entries: Vec<(Vec<u8>, Vec<u8>, u64)>,
}

impl MockFetcher {
    fn new() -> MockFetcher {
        MockFetcher { calls: 0, entries: Vec::new() }
    }

    fn with(mut self, id: Vec<u8>, data: Vec<u8>, balance: u64) -> MockFetcher {
        self.entries.push((id, data, balance));
        self
    }
}

impl AccountFetcher for MockFetcher {
    fn get(&mut self, id: &NativeId) -> Option<RawAccount> {
        self.calls += 1;
        for (k, data, bal) in &self.entries {
            if k == id.bytes() {
                return Some(RawAccount {
                    data: data.clone(),
                    balance: *bal,
                    owner: NativeId::new(vec![0u8; 32]),
                });
            }
        }
        None
    }
}

fn mk_cache() -> AccountCache {
    let mapper = AddressMapper::new(NativeId::new(program_id_bytes()));
    let contract = EthAddress::new(vec![0x11u8; 20]);
    let origin = EthAddress::new(vec![0x22u8; 20]);
    AccountCache::new(mapper, contract, origin, BlockContext::from_fetch(Some(42), Some(1234)))
}

#[test]
fn derive_is_deterministic() {
    let mapper = AddressMapper::new(NativeId::new(program_id_bytes()));
    let a = EthAddress::new(vec![0x33u8; 20]);
    let r1 = mapper.derive(&a).unwrap();
    let r2 = mapper.derive(&a).unwrap();
    assert_eq!(r1.0.bytes(), r2.0.bytes());
    assert_eq!(r1.1, r2.1);
    assert_eq!(r1.0.bytes(), &native_id_for(&[0x33u8; 20]));
}

#[test]
fn ensure_resolved_fetches_at_most_once() {
    let mut cache = mk_cache();
    let addr = [0x44u8; 20];
    let a = EthAddress::new(addr.to_vec());
    let data = mk_plain(&addr, 3, &[0u8; 32]);
    let mut f = MockFetcher::new().with(native_id_for(&addr), data, 500);
    assert!(cache.ensure_resolved(&mut f, &a));
    let first_calls = f.calls;
    assert_eq!(first_calls, 1);
    assert!(cache.ensure_resolved(&mut f, &a));
    assert_eq!(f.calls, first_calls);
}

#[test]
fn ensure_resolved_absent_is_cached_too() {
    let mut cache = mk_cache();
    let a = EthAddress::new(vec![0x55u8; 20]);
    let mut f = MockFetcher::new();
    assert!(!cache.ensure_resolved(&mut f, &a));
    assert_eq!(f.calls, 1);
    assert!(!cache.ensure_resolved(&mut f, &a));
    assert_eq!(f.calls, 1);
}

#[test]
fn read_unresolved_is_absent() {
    let mut cache = mk_cache();
    let a = EthAddress::new(vec![0x66u8; 20]);
    let mut f = MockFetcher::new();
    match cache.read(&mut f, &a) {
        ReadOutcome::Absent => {},
        ReadOutcome::Found(_) => panic!("expected absence"),
    }
}

#[test]
fn read_resolved_without_code() {
    let mut cache = mk_cache();
    let addr = [0x77u8; 20];
    let a = EthAddress::new(addr.to_vec());
    let data = mk_plain(&addr, 9, &[0u8; 32]);
    let mut f = MockFetcher::new().with(native_id_for(&addr), data, 800);
    match cache.read(&mut f, &a) {
        ReadOutcome::Found(v) => {
            assert_eq!(v.balance, 800);
            assert_eq!(v.trx_count, 9);
            assert!(v.code.is_none());
            assert_eq!(v.native_id.bytes(), &native_id_for(&addr));
        },
        ReadOutcome::Absent => panic!("expected a found view"),
    }
}

#[test]
fn read_resolved_with_valid_code() {
    let mut cache = mk_cache();
    let addr = [0x78u8; 20];
    let a = EthAddress::new(addr.to_vec());
    let code_id = [0xabu8; 32];
    let data = mk_plain(&addr, 1, &code_id);
    let code_body = [0xde, 0xad, 0xbe, 0xef];
    let code_data = mk_contract(&[0u8; 32], &code_body);
    let mut f = MockFetcher::new()
        .with(native_id_for(&addr), data, 100)
        .with(code_id.to_vec(), code_data, 1);
    match cache.read(&mut f, &a) {
        ReadOutcome::Found(v) => {
            assert_eq!(v.code.as_deref(), Some(&code_body[..]));
        },
        ReadOutcome::Absent => panic!("expected a found view"),
    }
}

#[test]
fn read_resolved_with_malformed_code() {
    let mut cache = mk_cache();
    let addr = [0x79u8; 20];
    let a = EthAddress::new(addr.to_vec());
    let code_id = [0xacu8; 32];
    let data = mk_plain(&addr, 1, &code_id);
    let mut f = MockFetcher::new()
        .with(native_id_for(&addr), data, 100)
        .with(code_id.to_vec(), vec![9u8, 9, 9], 1);
    match cache.read(&mut f, &a) {
        ReadOutcome::Absent => {},
        ReadOutcome::Found(_) => panic!("malformed code must read as absent"),
    }
}

fn modify_for(addr: &[u8; 20], code: Option<Vec<u8>>) -> StateDiffEntry {
    StateDiffEntry::Modify {
        address: EthAddress::new(addr.to_vec()),
        nonce: 1,
        balance: U256::zero(),
        code,
        storage: Vec::new(),
        reset_storage: false,
    }
}

#[test]
fn apply_never_creates_entries() {
    let mut cache = mk_cache();
    let absent = [0x80u8; 20];
    cache.apply(&vec![modify_for(&absent, Some(vec![1, 2, 3]))]);
    assert_eq!(cache.get_used_accounts().len(), 0);
}

#[test]
fn apply_marks_writable_and_records_code_size() {
    let mut cache = mk_cache();
    let addr = [0x81u8; 20];
    let a = EthAddress::new(addr.to_vec());
    let data = mk_plain(&addr, 2, &[0u8; 32]);
    let mut f = MockFetcher::new().with(native_id_for(&addr), data, 50);
    assert!(cache.ensure_resolved(&mut f, &a));
    cache.apply(&vec![modify_for(&addr, Some(vec![1, 2, 3, 4, 5]))]);
    let report = cache.get_used_accounts();
    assert_eq!(report.len(), 1);
    assert!(report[0].writable);
    assert_eq!(report[0].code_size, Some(5));
    // A diff without code leaves the recorded size unchanged.
    cache.apply(&vec![modify_for(&addr, None)]);
    let report = cache.get_used_accounts();
    assert_eq!(report[0].code_size, Some(5));
}

#[test]
fn apply_delete_changes_nothing() {
    let mut cache = mk_cache();
    let addr = [0x82u8; 20];
    let a = EthAddress::new(addr.to_vec());
    let mut f = MockFetcher::new();
    cache.ensure_resolved(&mut f, &a);
    cache.apply(&vec![StateDiffEntry::Delete { address: EthAddress::new(addr.to_vec()) }]);
    let report = cache.get_used_accounts();
    assert_eq!(report.len(), 1);
    assert!(!report[0].writable);
    assert!(report[0].new);
}

#[test]
fn report_excludes_reserved_address() {
    let mut cache = mk_cache();
    let reserved = evm_bridge::cache::reserved_address();
    let other = EthAddress::new(vec![0x83u8; 20]);
    let mut f = MockFetcher::new();
    cache.ensure_resolved(&mut f, &reserved);
    cache.ensure_resolved(&mut f, &other);
    let report = cache.get_used_accounts();
    assert_eq!(report.len(), 1);
    assert_eq!(report[0].address, format!("0x{}", hex::encode(vec![0x83u8; 20])));
}

#[test]
fn report_renders_hex_and_base58() {
    let mut cache = mk_cache();
    let addr = [0x84u8; 20];
    let a = EthAddress::new(addr.to_vec());
    let code_id = [0xcdu8; 32];
    let data = mk_plain(&addr, 1, &code_id);
    let code_data = mk_contract(&[0u8; 32], &[0x11]);
    let mut f = MockFetcher::new()
        .with(native_id_for(&addr), data, 10)
        .with(code_id.to_vec(), code_data, 1);
    assert!(cache.ensure_resolved(&mut f, &a));
    let report = cache.get_used_accounts();
    assert_eq!(report.len(), 1);
    assert_eq!(report[0].address, format!("0x{}", hex::encode(addr)));
    assert_eq!(report[0].account, bs58::encode(native_id_for(&addr)).into_string());
    assert_eq!(report[0].contract, Some(bs58::encode(code_id).into_string()));
    assert!(!report[0].new);
}

#[test]
fn block_context_falls_back_to_zero() {
    let b = BlockContext::from_fetch(None, None);
    assert_eq!(b.block_number, 0);
    assert_eq!(b.block_timestamp, 0);
    let b = BlockContext::from_fetch(Some(5), None);
    assert_eq!(b.block_number, 5);
    assert_eq!(b.block_timestamp, 0);
}

#[test]
fn account_codec_roundtrip_shapes() {
    let addr = [0x85u8; 20];
    let code_id = [0x31u8; 32];
    match decode_account(&mk_plain(&addr, 77, &code_id)) {
        Ok(AccountRecord::PlainAccount { address, trx_count, code_account }) => {
            assert_eq!(address.bytes(), &addr.to_vec());
            assert_eq!(trx_count, 77);
            assert_eq!(code_account.bytes(), &code_id.to_vec());
        },
        _ => panic!("expected a plain account"),
    }
    match decode_account(&mk_contract(&[0x32u8; 32], &[9, 8, 7])) {
        Ok(AccountRecord::ContractCode { owner, code }) => {
            assert_eq!(owner.bytes(), &vec![0x32u8; 32]);
            assert_eq!(code, vec![9, 8, 7]);
        },
        _ => panic!("expected contract code"),
    }
    assert!(matches!(decode_account(&vec![0u8]), Ok(AccountRecord::Uninitialized)));
    assert!(matches!(decode_account(&vec![5u8, 6, 7]), Err(DecodeError::Malformed)));
    // A contract record whose declared size disagrees with the bytes.
    let mut bad = mk_contract(&[0x32u8; 32], &[9, 8, 7]);
    bad.pop();
    assert!(matches!(decode_account(&bad), Err(DecodeError::Malformed)));
}

#[test]
fn cache_getters_expose_construction_values() {
    let cache = mk_cache();
    assert_eq!(cache.contract().bytes(), &vec![0x11u8; 20]);
    assert_eq!(cache.origin().bytes(), &vec![0x22u8; 20]);
    assert_eq!(cache.block_number(), 42);
    assert_eq!(cache.block_timestamp(), 1234);
}
