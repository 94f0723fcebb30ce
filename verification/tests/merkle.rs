use aptos_lc::merkle::{
    bit_at, hash_node, MerkleError, SparseMerkleProof, TransactionAccumulatorProof,
};

const LEAF: &[u8] = b"APTOS::SparseMerkleLeafNode";
const INTERNAL: &[u8] = b"APTOS::SparseMerkleInternal";
const ACCUMULATOR: &[u8] = b"APTOS::TransactionAccumulator";

fn sparse_fixture() -> ([u8; 32], [u8; 32], Vec<[u8; 32]>, [u8; 32]) {
    // Key bits, most significant first: 1, 0, 1, ...
    let mut key = [0u8; 32];
    key[0] = 0b1010_0000;
    let value_hash = [4u8; 32];
    let siblings = vec![[11u8; 32], [12u8; 32], [13u8; 32]];
    let leaf = hash_node(LEAF, &key, &value_hash);
    // Lowest sibling pairs with bit 2 (set), then bit 1 (clear), then bit 0 (set).
    let level1 = hash_node(INTERNAL, &siblings[0], &leaf);
    let level2 = hash_node(INTERNAL, &level1, &siblings[1]);
    let root = hash_node(INTERNAL, &siblings[2], &level2);
    (key, value_hash, siblings, root)
}

#[test]
fn key_bits_are_read_from_the_most_significant() {
    let mut key = [0u8; 32];
    key[0] = 0b1000_0001;
    key[31] = 0b0000_0001;
    assert!(bit_at(&key, 0));
    assert!(!bit_at(&key, 1));
    assert!(bit_at(&key, 7));
    assert!(!bit_at(&key, 8));
    assert!(bit_at(&key, 255));
    assert!(!bit_at(&key, 254));
}

#[test]
fn sparse_proof_returns_the_root() {
    let (key, value_hash, siblings, root) = sparse_fixture();
    let proof = SparseMerkleProof::new(siblings);
    assert_eq!(proof.verify_by_hash(&root, &key, &value_hash), Ok(root));
}

#[test]
fn sparse_proof_with_one_sibling_matches_known_root() {
    let mut key = [0u8; 32];
    key[0] = 0x80;
    let root: [u8; 32] = [
        24, 222, 55, 139, 104, 108, 190, 4, 59, 56, 61, 31, 239, 7, 218, 185, 50, 115, 15, 32, 4,
        139, 181, 220, 89, 170, 78, 83, 58, 75, 88, 192,
    ];
    let proof = SparseMerkleProof::new(vec![[8u8; 32]]);
    assert_eq!(proof.verify_by_hash(&root, &key, &[4u8; 32]), Ok(root));
}

#[test]
fn sparse_proof_without_siblings_is_the_leaf() {
    let key = [1u8; 32];
    let value_hash = [2u8; 32];
    let leaf = hash_node(LEAF, &key, &value_hash);
    let proof = SparseMerkleProof::new(Vec::new());
    assert_eq!(proof.verify_by_hash(&leaf, &key, &value_hash), Ok(leaf));
}

#[test]
fn sparse_proof_rejects_any_flipped_sibling_byte() {
    let (key, value_hash, siblings, root) = sparse_fixture();
    for s in 0..siblings.len() {
        for b in 0..32 {
            let mut changed = siblings.clone();
            changed[s][b] ^= 0x01;
            let proof = SparseMerkleProof::new(changed);
            assert_eq!(
                proof.verify_by_hash(&root, &key, &value_hash),
                Err(MerkleError::RootMismatch)
            );
        }
    }
}

#[test]
fn sparse_proof_rejects_other_value_and_other_key() {
    let (key, value_hash, siblings, root) = sparse_fixture();
    let proof = SparseMerkleProof::new(siblings);
    assert_eq!(proof.verify_by_hash(&root, &key, &[5u8; 32]), Err(MerkleError::RootMismatch));
    let mut other = key;
    other[0] ^= 0b0100_0000;
    assert_eq!(proof.verify_by_hash(&root, &other, &value_hash), Err(MerkleError::RootMismatch));
    let mut wrong_root = root;
    wrong_root[0] ^= 1;
    assert_eq!(
        proof.verify_by_hash(&wrong_root, &key, &value_hash),
        Err(MerkleError::RootMismatch)
    );
}

#[test]
fn sparse_proof_longer_than_the_key_is_rejected() {
    let proof = SparseMerkleProof::new(vec![[0u8; 32]; 257]);
    assert_eq!(
        proof.verify_by_hash(&[0u8; 32], &[0u8; 32], &[0u8; 32]),
        Err(MerkleError::RootMismatch)
    );
}

fn accumulator_fixture() -> ([u8; 32], u64, Vec<[u8; 32]>, [u8; 32]) {
    // Index 5 is 101 in binary: right child, left child, right child.
    let element = [21u8; 32];
    let siblings = vec![[31u8; 32], [32u8; 32], [33u8; 32]];
    let level1 = hash_node(ACCUMULATOR, &siblings[0], &element);
    let level2 = hash_node(ACCUMULATOR, &level1, &siblings[1]);
    let root = hash_node(ACCUMULATOR, &siblings[2], &level2);
    (element, 5, siblings, root)
}

#[test]
fn accumulator_proof_accepts_the_true_index() {
    let (element, index, siblings, root) = accumulator_fixture();
    let proof = TransactionAccumulatorProof::new(siblings);
    assert_eq!(proof.verify(&root, &element, index), Ok(()));
}

#[test]
fn accumulator_proof_rejects_every_other_index() {
    let (element, index, siblings, root) = accumulator_fixture();
    let proof = TransactionAccumulatorProof::new(siblings);
    for other in 0..64u64 {
        if other != index {
            assert_eq!(proof.verify(&root, &element, other), Err(MerkleError::RootMismatch));
        }
    }
    assert_eq!(proof.verify(&root, &element, index + 8), Err(MerkleError::RootMismatch));
    assert_eq!(proof.verify(&root, &element, u64::MAX), Err(MerkleError::RootMismatch));
}

#[test]
fn accumulator_proof_rejects_other_element_and_root() {
    let (element, index, siblings, root) = accumulator_fixture();
    let proof = TransactionAccumulatorProof::new(siblings);
    assert_eq!(proof.verify(&root, &[22u8; 32], index), Err(MerkleError::RootMismatch));
    assert_eq!(proof.verify(&[0u8; 32], &element, index), Err(MerkleError::RootMismatch));
}

#[test]
fn accumulator_proof_without_siblings() {
    let proof = TransactionAccumulatorProof::new(Vec::new());
    assert_eq!(proof.verify(&[9u8; 32], &[9u8; 32], 0), Ok(()));
    assert_eq!(proof.verify(&[9u8; 32], &[9u8; 32], 1), Err(MerkleError::RootMismatch));
}

#[test]
fn accumulator_proof_too_deep_is_rejected() {
    let proof = TransactionAccumulatorProof::new(vec![[0u8; 32]; 64]);
    assert_eq!(proof.verify(&[0u8; 32], &[0u8; 32], 0), Err(MerkleError::RootMismatch));
}
