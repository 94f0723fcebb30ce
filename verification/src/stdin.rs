//! The private inputs of the two programs, in the order the host writes
//! them and the guest reads them.

use crate::assets::{SparseMerkleProofAssets, TransactionProofAssets, ValidatorVerifierAssets};
use vstd::prelude::*;
use vstd::slice::slice_to_vec;

verus! {

/// One value written to a program's input.
#[derive(Debug)]
pub enum StdinFrame {
    /// A byte string of any length.
    Bytes(Vec<u8>),
    /// A 32-byte value.
    Hash([u8; 32]),
    /// A number.
    Number(u64),
}

impl StdinFrame {
    /// Whether the frame is the byte string `bytes`.
    pub open spec fn is_bytes(&self, bytes: Seq<u8>) -> bool {
        self matches StdinFrame::Bytes(b) && b@ == bytes
    }

    /// Whether the frame is the 32-byte value `hash`.
    pub open spec fn is_hash(&self, hash: [u8; 32]) -> bool {
        self matches StdinFrame::Hash(h) && h == hash
    }

    /// Whether the frame is the number `n`.
    pub open spec fn is_number(&self, n: u64) -> bool {
        self matches StdinFrame::Number(x) && x == n
    }
}

/// The inputs of the inclusion program: the sparse Merkle proof, the key,
/// the value hash, the transaction, its index, its accumulator proof, the
/// signed ledger record and the trusted validator set.
pub fn inclusion_stdin(
    sparse_merkle_proof_assets: &SparseMerkleProofAssets,
    transaction_proof_assets: &TransactionProofAssets,
    validator_verifier_assets: &ValidatorVerifierAssets,
) -> (frames: Vec<StdinFrame>)
    ensures
        frames@.len() == 8,
        frames@[0].is_bytes(sparse_merkle_proof_assets.spec_sparse_merkle_proof()),
        frames@[1].is_hash(sparse_merkle_proof_assets.spec_leaf_key()),
        frames@[2].is_hash(sparse_merkle_proof_assets.spec_leaf_hash()),
        frames@[3].is_bytes(transaction_proof_assets.spec_transaction()),
        frames@[4].is_number(transaction_proof_assets.spec_transaction_index()),
        frames@[5].is_bytes(transaction_proof_assets.spec_transaction_proof()),
        frames@[6].is_bytes(transaction_proof_assets.spec_latest_li()),
        frames@[7].is_bytes(validator_verifier_assets.spec_validator_verifier()),
{
    let mut frames: Vec<StdinFrame> = Vec::new();
    frames.push(
        StdinFrame::Bytes(slice_to_vec(sparse_merkle_proof_assets.sparse_merkle_proof().as_slice())),
    );
    frames.push(StdinFrame::Hash(*sparse_merkle_proof_assets.leaf_key()));
    frames.push(StdinFrame::Hash(*sparse_merkle_proof_assets.leaf_hash()));
    frames.push(StdinFrame::Bytes(slice_to_vec(transaction_proof_assets.transaction().as_slice())));
    frames.push(StdinFrame::Number(*transaction_proof_assets.transaction_index()));
    frames.push(
        StdinFrame::Bytes(slice_to_vec(transaction_proof_assets.transaction_proof().as_slice())),
    );
    frames.push(StdinFrame::Bytes(slice_to_vec(transaction_proof_assets.latest_li().as_slice())));
    frames.push(
        StdinFrame::Bytes(slice_to_vec(validator_verifier_assets.validator_verifier().as_slice())),
    );
    frames
}

/// The inputs of the epoch-change program: the trusted state, then the
/// epoch change proof.
pub fn epoch_change_stdin(current_trusted_state: &[u8], epoch_change_proof: &[u8]) -> (frames: Vec<
    StdinFrame,
>)
    ensures
        frames@.len() == 2,
        frames@[0].is_bytes(current_trusted_state@),
        frames@[1].is_bytes(epoch_change_proof@),
{
    let mut frames: Vec<StdinFrame> = Vec::new();
    frames.push(StdinFrame::Bytes(slice_to_vec(current_trusted_state)));
    frames.push(StdinFrame::Bytes(slice_to_vec(epoch_change_proof)));
    frames
}

} // verus!
