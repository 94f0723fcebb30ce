//! The public statements that the two provable programs commit to.

use vstd::prelude::*;

verus! {

/// What an inclusion attestation states: under the validator set with this
/// hash, in the block with this id, `key` maps to a value with this hash in
/// the state tree with this root.
#[derive(Debug, Clone, PartialEq, Eq)]
pub struct InclusionOutput {
    pub validator_verifier_hash: [u8; 32],
    pub reconstructed_root_hash: [u8; 32],
    pub current_block_id: [u8; 32],
    pub key: [u8; 32],
    pub leaf_value_hash: [u8; 32],
}

/// What an epoch-change attestation states: the validator set with the first
/// hash handed over to the set with the second.
#[derive(Debug, Clone, PartialEq, Eq)]
pub struct EpochChangeOutput {
    pub prev_epoch_validator_verifier_hash: [u8; 32],
    pub validator_verifier_hash: [u8; 32],
}

/// The 32-byte value made of zeros.
pub open spec fn zero_hash() -> Seq<u8> {
    Seq::new(32, |i: int| 0u8)
}

impl Default for InclusionOutput {
    fn default() -> (out: Self)
        ensures
            out.validator_verifier_hash@ == zero_hash(),
            out.reconstructed_root_hash@ == zero_hash(),
            out.current_block_id@ == zero_hash(),
            out.key@ == zero_hash(),
            out.leaf_value_hash@ == zero_hash(),
    {
        let zero = [0u8;32];
        assert(zero@ =~= zero_hash());
        InclusionOutput {
            validator_verifier_hash: zero,
            reconstructed_root_hash: zero,
            current_block_id: zero,
            key: zero,
            leaf_value_hash: zero,
        }
    }
}

impl Default for EpochChangeOutput {
    fn default() -> (out: Self)
        ensures
            out.prev_epoch_validator_verifier_hash@ == zero_hash(),
            out.validator_verifier_hash@ == zero_hash(),
    {
        let zero = [0u8;32];
        assert(zero@ =~= zero_hash());
        EpochChangeOutput { prev_epoch_validator_verifier_hash: zero, validator_verifier_hash: zero }
    }
}

} // verus!
