//! The two provable programs: each checks its inputs in full and only then
//! yields the statement to commit. An error yields no statement.

use crate::codec::{
    hash_list_bytes, is_epoch_change_proof, is_hash_list, is_transaction_info, is_trusted_state,
    is_verifier, record_end,
};
use crate::ledger::{LedgerInfoWithSignatures, TransactionInfo};
use crate::merkle::{sparse_root, SparseMerkleProof, TransactionAccumulatorProof};
use crate::output::{EpochChangeOutput, InclusionOutput};
use crate::trusted_state::{
    installed, lemma_well_signed_chain_ratchets, lemma_unsigned_record_stops_ratchet, ratchet_run,
    well_signed_chain, set_before, EpochChangeProof, RatchetError, TrustedState,
    TrustedStateChange,
};
use crate::validator::{
    verifier_bytes, verifier_hash, ValidatorInfo, ValidatorVerifier, VerifyError,
};
use vstd::prelude::*;

verus! {

/// Why the epoch-change program yields no statement.
#[derive(Clone, Copy, Debug, PartialEq, Eq)]
pub enum EpochChangeError {
    /// The ratchet stopped at a record it did not accept.
    Ratchet(RatchetError),
    /// The proof held no record, so no epoch changed.
    NoEpochChange,
}

/// The pair of validator-set hashes that the epoch-change program commits
/// when it starts from `(epoch, validators)` and is given `entries`, or the
/// reason it commits nothing.
pub open spec fn epoch_change_statement(
    epoch: u64,
    validators: Seq<ValidatorInfo>,
    entries: Seq<LedgerInfoWithSignatures>,
) -> Result<(Seq<u8>, Seq<u8>), EpochChangeError> {
    let run = ratchet_run(epoch, validators, entries);
    match run.stopped {
        Some(e) => Err(EpochChangeError::Ratchet(e)),
        None => if entries.len() == 0 {
            Err(EpochChangeError::NoEpochChange)
        } else {
            Ok((verifier_hash(validators), verifier_hash(run.validators)))
        },
    }
}

/// Ratchets `trusted_state` across `proof` and states the hand-over from the
/// validator set it started with to the one it ended with.
pub fn epoch_change_program(trusted_state: TrustedState, proof: EpochChangeProof) -> (result:
    Result<EpochChangeOutput, EpochChangeError>)
    ensures
        match epoch_change_statement(
            trusted_state.epoch_state.epoch,
            trusted_state.epoch_state.verifier@,
            proof.ledger_info_with_sigs@,
        ) {
            Ok((prev, new)) => result matches Ok(out)
                && out.prev_epoch_validator_verifier_hash@ == prev
                && out.validator_verifier_hash@ == new,
            Err(e) => result matches Err(x) && x == e,
        },
{
    let mut state = trusted_state;
    let prev = state.epoch_state.verifier.hash();
    match state.ratchet(proof) {
        Err(e) => Err(EpochChangeError::Ratchet(e)),
        Ok(TrustedStateChange::NoChange) => Err(EpochChangeError::NoEpochChange),
        Ok(TrustedStateChange::Epoch { new_state, .. }) => {
            let new = new_state.epoch_state.verifier.hash();
            Ok(
                EpochChangeOutput {
                    prev_epoch_validator_verifier_hash: prev,
                    validator_verifier_hash: new,
                },
            )
        },
    }
}

/// A non-empty proof that is signed by a quorum at every boundary makes the
/// program commit the hash of the set it started from and the hash of the
/// set that the last record installs.
pub proof fn lemma_signed_chain_commits(
    epoch: u64,
    validators: Seq<ValidatorInfo>,
    entries: Seq<LedgerInfoWithSignatures>,
)
    requires
        entries.len() > 0,
        well_signed_chain(epoch, validators, entries),
    ensures
        epoch_change_statement(epoch, validators, entries) == Ok::<
            (Seq<u8>, Seq<u8>),
            EpochChangeError,
        >((verifier_hash(validators), verifier_hash(installed(entries.last())))),
{
    lemma_well_signed_chain_ratchets(epoch, validators, entries);
    assert(set_before(validators, entries, entries.len() as int) == installed(entries.last()));
}

/// A proof with a record that lacks a quorum of the set in force before it
/// makes the program commit nothing.
pub proof fn lemma_unsigned_record_commits_nothing(
    epoch: u64,
    validators: Seq<ValidatorInfo>,
    entries: Seq<LedgerInfoWithSignatures>,
    k: int,
)
    requires
        0 <= k < entries.len(),
        entries[k].signed_by(set_before(validators, entries, k)) is Err,
    ensures
        epoch_change_statement(epoch, validators, entries) is Err,
{
    lemma_unsigned_record_stops_ratchet(epoch, validators, entries, k);
}

/// Why the inclusion program yields no statement.
#[derive(Clone, Copy, Debug, PartialEq, Eq)]
pub enum InclusionError {
    /// The ledger record is not signed by a quorum of the trusted set.
    Signatures(VerifyError),
    /// The transaction is not at the claimed position under the record's
    /// accumulator root.
    TransactionNotIncluded,
    /// The transaction carries no state checkpoint to check the key against.
    MissingStateCheckpoint,
    /// The key and value hash do not lead to the state checkpoint.
    ValueNotIncluded,
}

/// Everything the inclusion program reads.
#[derive(Debug)]
pub struct InclusionInputs {
    pub sparse_merkle_proof: SparseMerkleProof,
    pub key: [u8; 32],
    pub leaf_value_hash: [u8; 32],
    pub transaction: TransactionInfo,
    pub transaction_index: u64,
    pub transaction_proof: TransactionAccumulatorProof,
    pub latest_li: LedgerInfoWithSignatures,
    pub validator_verifier: ValidatorVerifier,
}

impl InclusionInputs {
    /// The first check that fails, in the order the program makes them.
    pub open spec fn failure(&self) -> Option<InclusionError> {
        match self.latest_li.signed_by(self.validator_verifier@) {
            Err(e) => Some(InclusionError::Signatures(e)),
            Ok(_) => if !self.transaction_proof.accepts(
                self.latest_li.ledger_info.transaction_accumulator_hash@,
                self.transaction.spec_hash(),
                self.transaction_index,
            ) {
                Some(InclusionError::TransactionNotIncluded)
            } else {
                match self.transaction.state_checkpoint_hash {
                    None => Some(InclusionError::MissingStateCheckpoint),
                    Some(root) => if !self.sparse_merkle_proof.accepts(
                        root@,
                        self.key@,
                        self.leaf_value_hash@,
                    ) {
                        Some(InclusionError::ValueNotIncluded)
                    } else {
                        None
                    },
                }
            },
        }
    }
}

/// Checks that the ledger record is signed by the trusted validator set, that
/// the transaction stands at its position under the record's accumulator
/// root, and that the key maps to the value hash under the transaction's
/// state checkpoint; then states that fact.
pub fn inclusion_program(inputs: &InclusionInputs) -> (result: Result<
    InclusionOutput,
    InclusionError,
>)
    ensures
        match inputs.failure() {
            Some(e) => result matches Err(x) && x == e,
            None => result matches Ok(out) && {
                &&& out.validator_verifier_hash@ == verifier_hash(inputs.validator_verifier@)
                &&& out.reconstructed_root_hash@ == sparse_root(
                    inputs.key@,
                    inputs.leaf_value_hash@,
                    inputs.sparse_merkle_proof.siblings@,
                )
                &&& inputs.transaction.state_checkpoint_hash matches Some(root)
                    && out.reconstructed_root_hash@ == root@
                &&& out.current_block_id == inputs.latest_li.ledger_info.block_id
                &&& out.key == inputs.key
                &&& out.leaf_value_hash == inputs.leaf_value_hash
            },
        },
{
    match inputs.latest_li.verify_signatures(&inputs.validator_verifier) {
        Err(e) => {
            return Err(InclusionError::Signatures(e));
        },
        Ok(()) => {},
    }
    let transaction_hash = inputs.transaction.hash();
    if inputs.transaction_proof.verify(
        &inputs.latest_li.ledger_info.transaction_accumulator_hash,
        &transaction_hash,
        inputs.transaction_index,
    ).is_err() {
        return Err(InclusionError::TransactionNotIncluded);
    }
    let expected_root = match &inputs.transaction.state_checkpoint_hash {
        None => {
            return Err(InclusionError::MissingStateCheckpoint);
        },
        Some(root) => root,
    };
    let reconstructed_root_hash = match inputs.sparse_merkle_proof.verify_by_hash(
        expected_root,
        &inputs.key,
        &inputs.leaf_value_hash,
    ) {
        Err(_) => {
            return Err(InclusionError::ValueNotIncluded);
        },
        Ok(root) => root,
    };
    Ok(
        InclusionOutput {
            validator_verifier_hash: inputs.validator_verifier.hash(),
            reconstructed_root_hash,
            current_block_id: inputs.latest_li.ledger_info.block_id,
            key: inputs.key,
            leaf_value_hash: inputs.leaf_value_hash,
        },
    )
}

/// The input of a program that is not the encoding of what it should be.
#[derive(Clone, Copy, Debug, PartialEq, Eq)]
pub enum InputError {
    ValidatorVerifier,
    Transaction,
    TransactionProof,
    LedgerInfo,
    SparseMerkleProof,
    TrustedState,
    EpochChangeProof,
}

/// The first of the encoded inputs of the inclusion program that does not
/// decode, in the order they are read.
pub open spec fn inclusion_input_error(
    sparse_merkle_proof: Seq<u8>,
    transaction: Seq<u8>,
    transaction_proof: Seq<u8>,
    latest_li: Seq<u8>,
    validator_verifier: Seq<u8>,
) -> Option<InputError> {
    if !is_verifier(validator_verifier) {
        Some(InputError::ValidatorVerifier)
    } else if !is_transaction_info(transaction) {
        Some(InputError::Transaction)
    } else if !is_hash_list(transaction_proof) {
        Some(InputError::TransactionProof)
    } else if record_end(latest_li, 0) != Some(latest_li.len() as int) {
        Some(InputError::LedgerInfo)
    } else if !is_hash_list(sparse_merkle_proof) {
        Some(InputError::SparseMerkleProof)
    } else {
        None
    }
}

impl InclusionInputs {
    /// Decodes the inputs of the inclusion program. Every encoded input must
    /// be exactly the bytes of one value; the first that is not is reported.
    pub fn from_bytes(
        sparse_merkle_proof: &[u8],
        key: [u8; 32],
        leaf_value_hash: [u8; 32],
        transaction: &[u8],
        transaction_index: u64,
        transaction_proof: &[u8],
        latest_li: &[u8],
        validator_verifier: &[u8],
    ) -> (result: Result<InclusionInputs, InputError>)
        ensures
            match inclusion_input_error(
                sparse_merkle_proof@,
                transaction@,
                transaction_proof@,
                latest_li@,
                validator_verifier@,
            ) {
                Some(e) => result matches Err(x) && x == e,
                None => result matches Ok(inputs) && {
                    &&& hash_list_bytes(inputs.sparse_merkle_proof.siblings@)
                        == sparse_merkle_proof@
                    &&& inputs.key == key
                    &&& inputs.leaf_value_hash == leaf_value_hash
                    &&& inputs.transaction.canonical_bytes() == transaction@
                    &&& inputs.transaction_index == transaction_index
                    &&& hash_list_bytes(inputs.transaction_proof.siblings@) == transaction_proof@
                    &&& inputs.latest_li.wire_bytes() == latest_li@
                    &&& verifier_bytes(inputs.validator_verifier@) == validator_verifier@
                },
            },
    {
        let validator_verifier = match ValidatorVerifier::from_bytes(validator_verifier) {
            None => {
                return Err(InputError::ValidatorVerifier);
            },
            Some(v) => v,
        };
        let transaction = match TransactionInfo::from_bytes(transaction) {
            None => {
                return Err(InputError::Transaction);
            },
            Some(t) => t,
        };
        let transaction_proof = match TransactionAccumulatorProof::from_bytes(transaction_proof) {
            None => {
                return Err(InputError::TransactionProof);
            },
            Some(p) => p,
        };
        let latest_li = match LedgerInfoWithSignatures::from_bytes(latest_li) {
            None => {
                return Err(InputError::LedgerInfo);
            },
            Some(l) => l,
        };
        let sparse_merkle_proof = match SparseMerkleProof::from_bytes(sparse_merkle_proof) {
            None => {
                return Err(InputError::SparseMerkleProof);
            },
            Some(p) => p,
        };
        Ok(
            InclusionInputs {
                sparse_merkle_proof,
                key,
                leaf_value_hash,
                transaction,
                transaction_index,
                transaction_proof,
                latest_li,
                validator_verifier,
            },
        )
    }
}

/// Everything the epoch-change program reads.
#[derive(Debug)]
pub struct EpochChangeInputs {
    pub trusted_state: TrustedState,
    pub epoch_change_proof: EpochChangeProof,
}

impl EpochChangeInputs {
    /// Decodes the inputs of the epoch-change program: the trusted state
    /// first, then the proof.
    pub fn from_bytes(trusted_state: &[u8], epoch_change_proof: &[u8]) -> (result: Result<
        EpochChangeInputs,
        InputError,
    >)
        ensures
            if !is_trusted_state(trusted_state@) {
                result matches Err(e) && e == InputError::TrustedState
            } else if !is_epoch_change_proof(epoch_change_proof@) {
                result matches Err(e) && e == InputError::EpochChangeProof
            } else {
                result matches Ok(inputs) && inputs.trusted_state.epoch_state.canonical_bytes()
                    == trusted_state@ && inputs.epoch_change_proof.wire_bytes()
                    == epoch_change_proof@
            },
    {
        let trusted_state = match TrustedState::from_bytes(trusted_state) {
            None => {
                return Err(InputError::TrustedState);
            },
            Some(s) => s,
        };
        let epoch_change_proof = match EpochChangeProof::from_bytes(epoch_change_proof) {
            None => {
                return Err(InputError::EpochChangeProof);
            },
            Some(p) => p,
        };
        Ok(EpochChangeInputs { trusted_state, epoch_change_proof })
    }
}

} // verus!
