use aptos_lc::assets::{SparseMerkleProofAssets, TransactionProofAssets, ValidatorVerifierAssets};
use aptos_lc::output::{EpochChangeOutput, InclusionOutput};

#[test]
fn sparse_merkle_proof_assets_keep_their_parts() {
    let assets = SparseMerkleProofAssets::new(vec![1, 2, 3], [4; 32], [5; 32]);
    assert_eq!(assets.sparse_merkle_proof(), &vec![1u8, 2, 3]);
    assert_eq!(assets.leaf_key(), &[4u8; 32]);
    assert_eq!(assets.leaf_hash(), &[5u8; 32]);
    let copy = assets.clone();
    assert_eq!(copy.sparse_merkle_proof(), assets.sparse_merkle_proof());
}

#[test]
fn transaction_proof_assets_keep_their_parts() {
    let assets = TransactionProofAssets::new(vec![1], 42, vec![2, 2], vec![3, 3, 3]);
    assert_eq!(assets.transaction(), &vec![1u8]);
    assert_eq!(assets.transaction_index(), &42);
    assert_eq!(assets.transaction_proof(), &vec![2u8, 2]);
    assert_eq!(assets.latest_li(), &vec![3u8, 3, 3]);
}

#[test]
fn validator_verifier_assets_keep_their_bytes() {
    let assets = ValidatorVerifierAssets::new(vec![9, 8]);
    assert_eq!(assets.validator_verifier(), &vec![9u8, 8]);
}

#[test]
fn default_outputs_are_zero() {
    let inclusion = InclusionOutput::default();
    assert_eq!(inclusion.validator_verifier_hash, [0u8; 32]);
    assert_eq!(inclusion.reconstructed_root_hash, [0u8; 32]);
    assert_eq!(inclusion.current_block_id, [0u8; 32]);
    assert_eq!(inclusion.key, [0u8; 32]);
    assert_eq!(inclusion.leaf_value_hash, [0u8; 32]);
    let epoch = EpochChangeOutput::default();
    assert_eq!(
        epoch,
        EpochChangeOutput {
            prev_epoch_validator_verifier_hash: [0u8; 32],
            validator_verifier_hash: [0u8; 32],
        }
    );
}

#[test]
fn inclusion_inputs_are_written_in_reading_order() {
    let frames = aptos_lc::stdin::inclusion_stdin(
        &SparseMerkleProofAssets::new(vec![1, 2], [3; 32], [4; 32]),
        &TransactionProofAssets::new(vec![5], 6, vec![7, 7], vec![8, 8, 8]),
        &ValidatorVerifierAssets::new(vec![9]),
    );
    assert_eq!(frames.len(), 8);
    assert!(matches!(&frames[0], aptos_lc::stdin::StdinFrame::Bytes(b) if b == &vec![1u8, 2]));
    assert!(matches!(&frames[1], aptos_lc::stdin::StdinFrame::Hash(h) if h == &[3u8; 32]));
    assert!(matches!(&frames[2], aptos_lc::stdin::StdinFrame::Hash(h) if h == &[4u8; 32]));
    assert!(matches!(&frames[3], aptos_lc::stdin::StdinFrame::Bytes(b) if b == &vec![5u8]));
    assert!(matches!(&frames[4], aptos_lc::stdin::StdinFrame::Number(6)));
    assert!(matches!(&frames[5], aptos_lc::stdin::StdinFrame::Bytes(b) if b == &vec![7u8, 7]));
    assert!(matches!(&frames[6], aptos_lc::stdin::StdinFrame::Bytes(b) if b == &vec![8u8, 8, 8]));
    assert!(matches!(&frames[7], aptos_lc::stdin::StdinFrame::Bytes(b) if b == &vec![9u8]));
}

#[test]
fn epoch_change_inputs_are_written_in_reading_order() {
    let frames = aptos_lc::stdin::epoch_change_stdin(&[1, 2, 3], &[4]);
    assert_eq!(frames.len(), 2);
    assert!(matches!(&frames[0], aptos_lc::stdin::StdinFrame::Bytes(b) if b == &vec![1u8, 2, 3]));
    assert!(matches!(&frames[1], aptos_lc::stdin::StdinFrame::Bytes(b) if b == &vec![4u8]));
}
