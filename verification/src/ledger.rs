//! Ledger records and their canonical bytes.

use crate::hash::{append_bytes, hash_tagged, sha3_256, sha3_digest, tagged_hash};
use crate::validator::{
    append_verifier_bytes, verdict, verifier_bytes, SignatureEntry, ValidatorVerifier,
    VerifyError,
};
use vstd::bytes::{spec_u64_to_le_bytes, u64_to_le_bytes};
use vstd::prelude::*;

verus! {

/// Domain label under which a transaction record is hashed.
pub open spec fn transaction_info_label() -> Seq<u8> {
    seq![
        65u8, 80u8, 84u8, 79u8, 83u8, 58u8, 58u8, 84u8, 114u8, 97u8, 110u8, 115u8, 97u8, 99u8,
        116u8, 105u8, 111u8, 110u8, 73u8, 110u8, 102u8, 111u8,
    ]
}

/// Domain label under which a ledger record is signed.
pub open spec fn ledger_info_label() -> Seq<u8> {
    seq![
        65u8, 80u8, 84u8, 79u8, 83u8, 58u8, 58u8, 76u8, 101u8, 100u8, 103u8, 101u8, 114u8, 73u8,
        110u8, 102u8, 111u8,
    ]
}

fn transaction_info_label_bytes() -> (out: Vec<u8>)
    ensures
        out@ == transaction_info_label(),
{
    let out: Vec<u8> = vec![
        65u8, 80u8, 84u8, 79u8, 83u8, 58u8, 58u8, 84u8, 114u8, 97u8, 110u8, 115u8, 97u8, 99u8,
        116u8, 105u8, 111u8, 110u8, 73u8, 110u8, 102u8, 111u8,
    ];
    assert(out@ =~= transaction_info_label());
    out
}

fn ledger_info_label_bytes() -> (out: Vec<u8>)
    ensures
        out@ == ledger_info_label(),
{
    let out: Vec<u8> = vec![
        65u8, 80u8, 84u8, 79u8, 83u8, 58u8, 58u8, 76u8, 101u8, 100u8, 103u8, 101u8, 114u8, 73u8,
        110u8, 102u8, 111u8,
    ];
    assert(out@ =~= ledger_info_label());
    out
}

/// The bytes of an optional hash: a presence byte, then the hash if any.
pub open spec fn optional_hash_bytes(h: Option<[u8; 32]>) -> Seq<u8> {
    match h {
        None => seq![0u8],
        Some(x) => seq![1u8] + x@,
    }
}

/// What the ledger records of one executed transaction.
#[derive(Clone, Copy, Debug)]
pub struct TransactionInfo {
    pub transaction_hash: [u8; 32],
    pub state_checkpoint_hash: Option<[u8; 32]>,
    pub event_root_hash: [u8; 32],
    pub gas_used: u64,
}

impl TransactionInfo {
    /// The canonical bytes of the record.
    pub open spec fn canonical_bytes(&self) -> Seq<u8> {
        self.transaction_hash@ + optional_hash_bytes(self.state_checkpoint_hash)
            + self.event_root_hash@ + spec_u64_to_le_bytes(self.gas_used)
    }

    /// The content hash of the record: the accumulator leaf.
    pub open spec fn spec_hash(&self) -> Seq<u8> {
        tagged_hash(transaction_info_label(), self.canonical_bytes())
    }

    /// Writes the canonical bytes of the record.
    pub fn to_bytes(&self) -> (out: Vec<u8>)
        ensures
            out@ == self.canonical_bytes(),
    {
        let mut buf: Vec<u8> = Vec::new();
        append_bytes(&mut buf, self.transaction_hash.as_slice());
        match &self.state_checkpoint_hash {
            None => {
                buf.push(0u8);
                assert(buf@ =~= self.transaction_hash@ + optional_hash_bytes(
                    self.state_checkpoint_hash,
                ));
            },
            Some(h) => {
                buf.push(1u8);
                append_bytes(&mut buf, h.as_slice());
                assert(buf@ =~= self.transaction_hash@ + optional_hash_bytes(
                    self.state_checkpoint_hash,
                ));
            },
        }
        append_bytes(&mut buf, self.event_root_hash.as_slice());
        let gas = u64_to_le_bytes(self.gas_used);
        append_bytes(&mut buf, gas.as_slice());
        buf
    }

    /// Computes the content hash of the record.
    pub fn hash(&self) -> (out: [u8; 32])
        ensures
            out@ == self.spec_hash(),
    {
        let bytes = self.to_bytes();
        let label = transaction_info_label_bytes();
        hash_tagged(label.as_slice(), bytes.as_slice())
    }
}

/// An epoch and the validator set that is authoritative in it.
#[derive(Debug)]
pub struct EpochState {
    pub epoch: u64,
    pub verifier: ValidatorVerifier,
}

impl Clone for EpochState {
    fn clone(&self) -> (out: Self)
        ensures
            out.epoch == self.epoch,
            out.verifier@ == self.verifier@,
    {
        EpochState { epoch: self.epoch, verifier: self.verifier.clone() }
    }
}

impl EpochState {
    /// The canonical bytes of the epoch state.
    pub open spec fn canonical_bytes(&self) -> Seq<u8> {
        spec_u64_to_le_bytes(self.epoch) + verifier_bytes(self.verifier@)
    }
}

/// The bytes of an optional epoch state: a presence byte, then the state.
pub open spec fn optional_epoch_state_bytes(state: Option<EpochState>) -> Seq<u8> {
    match state {
        None => seq![0u8],
        Some(s) => seq![1u8] + s.canonical_bytes(),
    }
}

/// A summary of the ledger at one round. `next_epoch_state` is present only
/// on the record that closes an epoch.
#[derive(Debug)]
pub struct LedgerInfo {
    pub epoch: u64,
    pub round: u64,
    pub block_id: [u8; 32],
    pub transaction_accumulator_hash: [u8; 32],
    pub timestamp_usecs: u64,
    pub next_epoch_state: Option<EpochState>,
}

impl LedgerInfo {
    /// The canonical bytes of the record.
    pub open spec fn canonical_bytes(&self) -> Seq<u8> {
        spec_u64_to_le_bytes(self.epoch) + spec_u64_to_le_bytes(self.round) + self.block_id@
            + self.transaction_accumulator_hash@ + spec_u64_to_le_bytes(self.timestamp_usecs)
            + optional_epoch_state_bytes(self.next_epoch_state)
    }

    /// The bytes that validators sign: the digest of the record's domain
    /// label, then the canonical bytes.
    pub open spec fn signing_message(&self) -> Seq<u8> {
        sha3_256(ledger_info_label())@ + self.canonical_bytes()
    }

    /// Writes the canonical bytes of the record.
    pub fn to_bytes(&self) -> (out: Vec<u8>)
        ensures
            out@ == self.canonical_bytes(),
    {
        let mut buf: Vec<u8> = Vec::new();
        let epoch = u64_to_le_bytes(self.epoch);
        let round = u64_to_le_bytes(self.round);
        let timestamp = u64_to_le_bytes(self.timestamp_usecs);
        append_bytes(&mut buf, epoch.as_slice());
        append_bytes(&mut buf, round.as_slice());
        append_bytes(&mut buf, self.block_id.as_slice());
        append_bytes(&mut buf, self.transaction_accumulator_hash.as_slice());
        append_bytes(&mut buf, timestamp.as_slice());
        let ghost head = buf@;
        match &self.next_epoch_state {
            None => {
                buf.push(0u8);
                assert(buf@ =~= head + optional_epoch_state_bytes(self.next_epoch_state));
            },
            Some(state) => {
                buf.push(1u8);
                let next_epoch = u64_to_le_bytes(state.epoch);
                append_bytes(&mut buf, next_epoch.as_slice());
                append_verifier_bytes(&mut buf, &state.verifier.to_vec());
                assert(buf@ =~= head + optional_epoch_state_bytes(self.next_epoch_state));
            },
        }
        buf
    }

    /// Writes the bytes that validators sign.
    pub fn signing_bytes(&self) -> (out: Vec<u8>)
        ensures
            out@ == self.signing_message(),
    {
        let label = ledger_info_label_bytes();
        let seed = sha3_digest(label.as_slice());
        let body = self.to_bytes();
        let mut buf: Vec<u8> = Vec::new();
        append_bytes(&mut buf, seed.as_slice());
        append_bytes(&mut buf, body.as_slice());
        buf
    }
}

/// A ledger record with the signatures collected over its signing bytes.
#[derive(Debug)]
pub struct LedgerInfoWithSignatures {
    pub ledger_info: LedgerInfo,
    pub signatures: Vec<SignatureEntry>,
}

impl LedgerInfoWithSignatures {
    /// What `verifier` makes of the signatures on this record.
    pub open spec fn signed_by(&self, validators: Seq<crate::validator::ValidatorInfo>) -> Result<
        (),
        VerifyError,
    > {
        verdict(validators, self.ledger_info.signing_message(), self.signatures@)
    }

    /// Checks the signatures on this record against `verifier`.
    pub fn verify_signatures(&self, verifier: &ValidatorVerifier) -> (result: Result<
        (),
        VerifyError,
    >)
        ensures
            result == self.signed_by(verifier@),
    {
        let message = self.ledger_info.signing_bytes();
        verifier.verify(message.as_slice(), &self.signatures)
    }
}

} // verus!
