use aptos_lc::hash::{append_bytes, hash_eq, hash_tagged};
use aptos_lc::ledger::TransactionInfo;
use aptos_lc::merkle::hash_node;
use aptos_lc::validator::{ValidatorInfo, ValidatorVerifier};

#[test]
fn tagged_hash_matches_known_digest() {
    let expected: [u8; 32] = [
        41, 169, 218, 232, 223, 239, 192, 143, 161, 114, 29, 202, 134, 193, 250, 123, 42, 51, 193,
        179, 221, 127, 53, 167, 137, 174, 48, 209, 4, 188, 81, 245,
    ];
    assert_eq!(hash_tagged(b"abc", b"xyz"), expected);
}

#[test]
fn tagged_hash_is_not_the_payload() {
    let payload = [3u8; 32];
    assert_ne!(hash_tagged(b"abc", &payload), payload);
}

#[test]
fn accumulator_node_matches_known_digest() {
    let expected: [u8; 32] = [
        142, 9, 110, 57, 243, 184, 250, 18, 94, 93, 98, 128, 100, 110, 245, 192, 243, 172, 74, 50,
        161, 97, 145, 182, 56, 219, 244, 24, 161, 252, 192, 218,
    ];
    assert_eq!(hash_node(b"APTOS::TransactionAccumulator", &[1u8; 32], &[2u8; 32]), expected);
}

#[test]
fn node_hash_depends_on_child_order() {
    let a = hash_node(b"APTOS::TransactionAccumulator", &[1u8; 32], &[2u8; 32]);
    let b = hash_node(b"APTOS::TransactionAccumulator", &[2u8; 32], &[1u8; 32]);
    assert_ne!(a, b);
}

#[test]
fn transaction_info_bytes_and_hash() {
    let info = TransactionInfo {
        transaction_hash: [7u8; 32],
        state_checkpoint_hash: Some([9u8; 32]),
        event_root_hash: [3u8; 32],
        gas_used: 1234,
    };
    let mut expected_bytes = vec![7u8; 32];
    expected_bytes.push(1);
    expected_bytes.extend_from_slice(&[9u8; 32]);
    expected_bytes.extend_from_slice(&[3u8; 32]);
    expected_bytes.extend_from_slice(&[0xd2, 0x04, 0, 0, 0, 0, 0, 0]);
    assert_eq!(info.to_bytes(), expected_bytes);
    let expected_hash: [u8; 32] = [
        87, 197, 233, 165, 88, 228, 123, 217, 107, 248, 19, 19, 186, 22, 125, 209, 42, 71, 182, 210,
        207, 209, 178, 130, 235, 123, 114, 165, 181, 238, 163, 126,
    ];
    assert_eq!(info.hash(), expected_hash);
}

#[test]
fn transaction_info_without_checkpoint_has_absence_byte() {
    let info = TransactionInfo {
        transaction_hash: [7u8; 32],
        state_checkpoint_hash: None,
        event_root_hash: [3u8; 32],
        gas_used: 0,
    };
    let bytes = info.to_bytes();
    assert_eq!(bytes.len(), 32 + 1 + 32 + 8);
    assert_eq!(bytes[32], 0);
}

#[test]
fn validator_set_hash_matches_known_digest() {
    let set = ValidatorVerifier::new(vec![ValidatorInfo {
        address: [5u8; 32],
        public_key: [6u8; 32],
        voting_power: 10,
    }])
    .unwrap();
    let expected: [u8; 32] = [
        247, 253, 96, 136, 228, 15, 131, 139, 193, 186, 166, 143, 134, 217, 149, 201, 150, 240,
        254, 48, 250, 97, 92, 73, 69, 131, 232, 251, 145, 174, 239, 241,
    ];
    assert_eq!(set.hash(), expected);
}

#[test]
fn append_bytes_appends() {
    let mut buf = vec![1u8, 2];
    append_bytes(&mut buf, &[3, 4, 5]);
    assert_eq!(buf, vec![1u8, 2, 3, 4, 5]);
}

#[test]
fn hash_eq_compares_every_byte() {
    let a = [1u8; 32];
    let mut b = [1u8; 32];
    assert!(hash_eq(&a, &b));
    b[31] = 2;
    assert!(!hash_eq(&a, &b));
}
