use evm_bridge::invoker::{seed_sets, AuthoritySeed};
use evm_bridge::sigverify::{
    build_offsets, recover_signer, verify_companion_instruction, CompanionInstruction,
};
use evm_bridge::txcodec::decode_transaction;
use evm_bridge::types::{AuthError, DecodeError, EthAddress, NativeId};

fn rlp_item(b: &[u8]) -> Vec<u8> {
    if b.len() == 1 && b[0] < 0x80 {
        vec![b[0]]
    } else {
        assert!(b.len() <= 55);
        let mut v = vec![0x80u8 + b.len() as u8];
        v.extend_from_slice(b);
        v
    }
}

fn rlp_list(payload: &[u8]) -> Vec<u8> {
    assert!(payload.len() <= 55);
    let mut v = vec![0xc0u8 + payload.len() as u8];
    v.extend_from_slice(payload);
    v
}

fn tx_payload(to: &[u8], field_count: usize) -> Vec<u8> {
    // nonce, gas_price, gas_limit, to, value, call_data, chain_id, then
    // filler fields up to the requested count.
    let mut payload = Vec::new();
    let fields: Vec<Vec<u8>> = vec![
        rlp_item(&[0x01]),
        rlp_item(&[0x02]),
        rlp_item(&[0x03]),
        to.to_vec(),
        rlp_item(&[0x05]),
        rlp_item(&[0xaa, 0xbb]),
        rlp_item(&[0x08]),
        rlp_item(&[]),
        rlp_item(&[]),
    ];
    for f in fields.iter().take(field_count) {
        payload.extend_from_slice(f);
    }
    payload
}

#[test]
fn decode_nine_fields_with_creation_to() {
    let raw = rlp_list(&tx_payload(&rlp_item(&[]), 9));
    let tx = decode_transaction(&raw).expect("nine fields must decode");
    assert!(tx.to.is_none());
    assert_eq!(tx.nonce, 1);
    assert_eq!(tx.gas_price.be_bytes(), &vec![0x02]);
    assert_eq!(tx.gas_limit.be_bytes(), &vec![0x03]);
    assert_eq!(tx.value.be_bytes(), &vec![0x05]);
    assert_eq!(tx.call_data, vec![0xaa, 0xbb]);
    assert_eq!(tx.chain_id.be_bytes(), &vec![0x08]);
}

#[test]
fn decode_call_transaction_to_address() {
    let callee = [0x42u8; 20];
    let raw = rlp_list(&tx_payload(&rlp_item(&callee), 9));
    let tx = decode_transaction(&raw).expect("nine fields must decode");
    assert_eq!(tx.to.unwrap().bytes(), &callee.to_vec());
}

#[test]
fn decode_rejects_wrong_arity() {
    let raw8 = rlp_list(&tx_payload(&rlp_item(&[]), 8));
    assert!(matches!(decode_transaction(&raw8), Err(DecodeError::WrongFieldCount)));
    let mut payload10 = tx_payload(&rlp_item(&[]), 9);
    payload10.extend_from_slice(&rlp_item(&[]));
    let raw10 = rlp_list(&payload10);
    assert!(matches!(decode_transaction(&raw10), Err(DecodeError::WrongFieldCount)));
}

#[test]
fn decode_rejects_empty_list_to() {
    let raw = rlp_list(&tx_payload(&rlp_list(&[]), 9));
    assert!(matches!(decode_transaction(&raw), Err(DecodeError::ExpectedData)));
}

#[test]
fn decode_rejects_malformed_scalars() {
    // A leading zero in the nonce is not canonical.
    let mut payload = rlp_item(&[0x00, 0x01]);
    payload.extend_from_slice(&tx_payload(&rlp_item(&[]), 9)[1..]);
    assert!(matches!(decode_transaction(&rlp_list(&payload)), Err(DecodeError::Malformed)));
    // Trailing bytes after the list are refused.
    let mut raw = rlp_list(&tx_payload(&rlp_item(&[]), 9));
    raw.push(0x00);
    assert!(matches!(decode_transaction(&raw), Err(DecodeError::Malformed)));
    // A twenty-one byte callee is refused.
    let raw = rlp_list(&tx_payload(&rlp_item(&[0x42u8; 21]), 9));
    assert!(matches!(decode_transaction(&raw), Err(DecodeError::Malformed)));
}

#[test]
fn offsets_layout_is_exact() {
    let r = build_offsets(2, 32, 0);
    assert_eq!(r, vec![1u8, 20, 0, 2, 0, 0, 2, 85, 0, 32, 0, 2]);
}

fn secp_program_id() -> Vec<u8> {
    solana_program::secp256k1_program::ID.to_bytes().to_vec()
}

fn companion_list(data: Vec<u8>) -> Vec<CompanionInstruction> {
    vec![
        CompanionInstruction { program_id: NativeId::new(vec![0u8; 32]), data: Vec::new() },
        CompanionInstruction { program_id: NativeId::new(secp_program_id()), data },
    ]
}

#[test]
fn companion_accepts_exact_payload() {
    let instructions = companion_list(build_offsets(2, 32, 0));
    assert!(verify_companion_instruction(&instructions, 2, 32, 0).is_ok());
}

#[test]
fn companion_rejects_any_flipped_byte() {
    let good = build_offsets(2, 32, 0);
    for i in 0..good.len() {
        let mut bad = good.clone();
        bad[i] ^= 0xff;
        let instructions = companion_list(bad);
        assert!(matches!(
            verify_companion_instruction(&instructions, 2, 32, 0),
            Err(AuthError::OffsetMismatch)
        ));
    }
}

#[test]
fn companion_requires_a_preceding_instruction() {
    let instructions = companion_list(build_offsets(2, 32, 0));
    assert!(matches!(
        verify_companion_instruction(&instructions, 0, 32, 0),
        Err(AuthError::MissingSignature)
    ));
    assert!(matches!(
        verify_companion_instruction(&instructions, 5, 32, 0),
        Err(AuthError::MissingSignature)
    ));
}

#[test]
fn companion_rejects_wrong_program() {
    let mut instructions = companion_list(build_offsets(2, 32, 0));
    instructions[1].program_id = NativeId::new(vec![9u8; 32]);
    assert!(matches!(
        verify_companion_instruction(&instructions, 2, 32, 0),
        Err(AuthError::WrongProgram)
    ));
}

fn keccak(b: &[u8]) -> [u8; 32] {
    solana_program::keccak::hash(b).to_bytes()
}

#[test]
fn recover_signer_returns_expected_address() {
    let message = b"an unsigned transaction body".to_vec();
    let digest = keccak(&message);
    let sk = libsecp256k1::SecretKey::parse(&[0x11u8; 32]).expect("valid secret key");
    let pk = libsecp256k1::PublicKey::from_secret_key(&sk);
    let msg = libsecp256k1::Message::parse(&digest);
    let (sig, recid) = libsecp256k1::sign(&msg, &sk);
    let mut signature = sig.serialize().to_vec();
    signature.push(recid.serialize());
    let expected: Vec<u8> = keccak(&pk.serialize()[1..])[12..].to_vec();
    let addr = recover_signer(&signature, &message).expect("recovery must succeed");
    assert_eq!(addr.bytes(), &expected);
}

#[test]
fn recover_signer_rejects_bad_recovery_id() {
    let message = b"an unsigned transaction body".to_vec();
    let digest = keccak(&message);
    let sk = libsecp256k1::SecretKey::parse(&[0x11u8; 32]).expect("valid secret key");
    let msg = libsecp256k1::Message::parse(&digest);
    let (sig, _recid) = libsecp256k1::sign(&msg, &sk);
    let mut signature = sig.serialize().to_vec();
    signature.push(29);
    assert!(matches!(
        recover_signer(&signature, &message),
        Err(evm_bridge::types::CryptoError::BadRecoveryId)
    ));
}

#[test]
fn recover_signer_rejects_overflowing_signature() {
    // r and s at the maximum 256-bit value overflow the curve order, so the
    // signature itself is refused, with the same error on every call.
    let message = b"an unsigned transaction body".to_vec();
    let mut signature = vec![0xffu8; 64];
    signature.push(0);
    assert!(matches!(
        recover_signer(&signature, &message),
        Err(evm_bridge::types::CryptoError::BadSignature)
    ));
    assert!(matches!(
        recover_signer(&signature, &message),
        Err(evm_bridge::types::CryptoError::BadSignature)
    ));
}

#[test]
fn sysvar_lookups_find_the_right_keys() {
    let instructions_id = {
        #[allow(deprecated)]
        let id = solana_program::sysvar::instructions::ID;
        id.to_bytes().to_vec()
    };
    let rent_id = solana_program::sysvar::rent::ID.to_bytes().to_vec();
    let keys = vec![
        NativeId::new(vec![1u8; 32]),
        NativeId::new(rent_id.clone()),
        NativeId::new(instructions_id.clone()),
    ];
    assert_eq!(evm_bridge::sigverify::find_sysvar_info(&keys), Some(2));
    assert_eq!(evm_bridge::sigverify::find_rent_info(&keys), Some(1));
    let none = vec![NativeId::new(vec![1u8; 32])];
    assert_eq!(evm_bridge::sigverify::find_sysvar_info(&none), None);
    assert_eq!(evm_bridge::sigverify::find_rent_info(&none), None);
}

#[test]
fn seed_sets_include_origin_only_when_distinct() {
    let contract = AuthoritySeed { address: EthAddress::new(vec![1u8; 20]), bump: 250 };
    let origin = AuthoritySeed { address: EthAddress::new(vec![2u8; 20]), bump: 251 };
    let same = AuthoritySeed { address: EthAddress::new(vec![1u8; 20]), bump: 250 };
    let r = seed_sets(&contract, Some(&origin));
    assert_eq!(r.len(), 2);
    assert_eq!(r[0], vec![vec![2u8; 20], vec![251u8]]);
    assert_eq!(r[1], vec![vec![1u8; 20], vec![250u8]]);
    let r = seed_sets(&contract, Some(&same));
    assert_eq!(r.len(), 1);
    let r = seed_sets(&contract, None);
    assert_eq!(r.len(), 1);
    assert_eq!(r[0], vec![vec![1u8; 20], vec![250u8]]);
}
