//! The raw inputs of an inclusion proof request, grouped as they travel.

use vstd::prelude::*;

verus! {

/// The encoded sparse Merkle proof with the key and value hash it speaks of.
#[derive(Clone, Debug)]
pub struct SparseMerkleProofAssets {
    sparse_merkle_proof: Vec<u8>,
    leaf_key: [u8; 32],
    leaf_hash: [u8; 32],
}

impl SparseMerkleProofAssets {
    pub closed spec fn spec_sparse_merkle_proof(&self) -> Seq<u8> {
        self.sparse_merkle_proof@
    }

    pub closed spec fn spec_leaf_key(&self) -> [u8; 32] {
        self.leaf_key
    }

    pub closed spec fn spec_leaf_hash(&self) -> [u8; 32] {
        self.leaf_hash
    }

    pub fn new(sparse_merkle_proof: Vec<u8>, leaf_key: [u8; 32], leaf_hash: [u8; 32]) -> (assets:
        SparseMerkleProofAssets)
        ensures
            assets.spec_sparse_merkle_proof() == sparse_merkle_proof@,
            assets.spec_leaf_key() == leaf_key,
            assets.spec_leaf_hash() == leaf_hash,
    {
        SparseMerkleProofAssets { sparse_merkle_proof, leaf_key, leaf_hash }
    }

    pub fn sparse_merkle_proof(&self) -> (out: &Vec<u8>)
        ensures
            out@ == self.spec_sparse_merkle_proof(),
    {
        &self.sparse_merkle_proof
    }

    pub fn leaf_key(&self) -> (out: &[u8; 32])
        ensures
            *out == self.spec_leaf_key(),
    {
        &self.leaf_key
    }

    pub fn leaf_hash(&self) -> (out: &[u8; 32])
        ensures
            *out == self.spec_leaf_hash(),
    {
        &self.leaf_hash
    }
}

/// The encoded transaction record, its position, its accumulator proof and
/// the signed ledger record the proof leads to.
#[derive(Clone, Debug)]
pub struct TransactionProofAssets {
    transaction: Vec<u8>,
    transaction_index: u64,
    transaction_proof: Vec<u8>,
    latest_li: Vec<u8>,
}

impl TransactionProofAssets {
    pub closed spec fn spec_transaction(&self) -> Seq<u8> {
        self.transaction@
    }

    pub closed spec fn spec_transaction_index(&self) -> u64 {
        self.transaction_index
    }

    pub closed spec fn spec_transaction_proof(&self) -> Seq<u8> {
        self.transaction_proof@
    }

    pub closed spec fn spec_latest_li(&self) -> Seq<u8> {
        self.latest_li@
    }

    pub fn new(
        transaction: Vec<u8>,
        transaction_index: u64,
        transaction_proof: Vec<u8>,
        latest_li: Vec<u8>,
    ) -> (assets: TransactionProofAssets)
        ensures
            assets.spec_transaction() == transaction@,
            assets.spec_transaction_index() == transaction_index,
            assets.spec_transaction_proof() == transaction_proof@,
            assets.spec_latest_li() == latest_li@,
    {
        TransactionProofAssets { transaction, transaction_index, transaction_proof, latest_li }
    }

    pub fn transaction(&self) -> (out: &Vec<u8>)
        ensures
            out@ == self.spec_transaction(),
    {
        &self.transaction
    }

    pub fn transaction_index(&self) -> (out: &u64)
        ensures
            *out == self.spec_transaction_index(),
    {
        &self.transaction_index
    }

    pub fn transaction_proof(&self) -> (out: &Vec<u8>)
        ensures
            out@ == self.spec_transaction_proof(),
    {
        &self.transaction_proof
    }

    pub fn latest_li(&self) -> (out: &Vec<u8>)
        ensures
            out@ == self.spec_latest_li(),
    {
        &self.latest_li
    }
}

/// The encoded validator set that the request trusts.
#[derive(Clone, Debug)]
pub struct ValidatorVerifierAssets {
    validator_verifier: Vec<u8>,
}

impl ValidatorVerifierAssets {
    pub closed spec fn spec_validator_verifier(&self) -> Seq<u8> {
        self.validator_verifier@
    }

    pub fn new(validator_verifier: Vec<u8>) -> (assets: ValidatorVerifierAssets)
        ensures
            assets.spec_validator_verifier() == validator_verifier@,
    {
        ValidatorVerifierAssets { validator_verifier }
    }

    pub fn validator_verifier(&self) -> (out: &Vec<u8>)
        ensures
            out@ == self.spec_validator_verifier(),
    {
        &self.validator_verifier
    }
}

} // verus!
