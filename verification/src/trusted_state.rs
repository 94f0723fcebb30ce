//! The trusted state and the ratchet that moves it across epoch boundaries.

use crate::ledger::{EpochState, LedgerInfoWithSignatures};
use crate::validator::ValidatorInfo;
use vstd::prelude::*;

verus! {

/// Why a boundary record was not accepted.
#[derive(Clone, Copy, Debug, PartialEq, Eq)]
pub enum RatchetError {
    /// The record is not for the epoch the state is in, or no epoch follows.
    NonContiguousEpoch,
    /// The record does not close an epoch.
    MissingEpochState,
    /// The validators of the current epoch did not sign the record.
    QuorumNotMet,
}

/// One signed boundary record per epoch crossed, oldest first.
#[derive(Debug)]
pub struct EpochChangeProof {
    pub ledger_info_with_sigs: Vec<LedgerInfoWithSignatures>,
}

/// The verifier's belief about the current epoch and its validator set.
#[derive(Debug)]
pub struct TrustedState {
    pub epoch_state: EpochState,
}

/// What a ratchet did.
#[derive(Debug)]
pub enum TrustedStateChange {
    /// The proof was empty.
    NoChange,
    /// The state crossed every boundary of the proof.
    Epoch { latest_epoch_change_li: LedgerInfoWithSignatures, new_state: TrustedState },
}

/// Where a ratchet stands: the epoch, its validator set, and the reason it
/// stopped early if it did.
pub struct Progress {
    pub epoch: u64,
    pub validators: Seq<ValidatorInfo>,
    pub stopped: Option<RatchetError>,
}

/// Why the state `(epoch, validators)` cannot cross the boundary that `entry`
/// records, if it cannot.
pub open spec fn step_error(
    epoch: u64,
    validators: Seq<ValidatorInfo>,
    entry: LedgerInfoWithSignatures,
) -> Option<RatchetError> {
    if entry.ledger_info.epoch != epoch || epoch == u64::MAX {
        Some(RatchetError::NonContiguousEpoch)
    } else if entry.ledger_info.next_epoch_state is None {
        Some(RatchetError::MissingEpochState)
    } else if entry.signed_by(validators) is Err {
        Some(RatchetError::QuorumNotMet)
    } else {
        None
    }
}

/// The validator set that `entry` installs.
pub open spec fn installed(entry: LedgerInfoWithSignatures) -> Seq<ValidatorInfo> {
    entry.ledger_info.next_epoch_state->Some_0.verifier@
}

/// Crosses the boundaries of `entries` in order, starting from
/// `(epoch, validators)`, and stops at the first that cannot be crossed.
pub open spec fn ratchet_run(
    epoch: u64,
    validators: Seq<ValidatorInfo>,
    entries: Seq<LedgerInfoWithSignatures>,
) -> Progress
    decreases entries.len(),
{
    if entries.len() == 0 {
        Progress { epoch, validators, stopped: None }
    } else {
        match step_error(epoch, validators, entries[0]) {
            Some(e) => Progress { epoch, validators, stopped: Some(e) },
            None => ratchet_run((epoch + 1) as u64, installed(entries[0]), entries.drop_first()),
        }
    }
}

/// The validator set in force before entry `i` of a proof that starts from
/// `validators`.
pub open spec fn set_before(
    validators: Seq<ValidatorInfo>,
    entries: Seq<LedgerInfoWithSignatures>,
    i: int,
) -> Seq<ValidatorInfo> {
    if i == 0 {
        validators
    } else {
        installed(entries[i - 1])
    }
}

/// Every entry closes the epoch that follows its predecessor's, starting at
/// `epoch`, and is signed by a quorum of the set in force before it.
pub open spec fn well_signed_chain(
    epoch: u64,
    validators: Seq<ValidatorInfo>,
    entries: Seq<LedgerInfoWithSignatures>,
) -> bool {
    &&& epoch + entries.len() <= u64::MAX
    &&& forall|i: int|
        0 <= i < entries.len() ==> {
            &&& (#[trigger] entries[i]).ledger_info.epoch == epoch + i
            &&& entries[i].ledger_info.next_epoch_state is Some
            &&& entries[i].signed_by(set_before(validators, entries, i)) is Ok
        }
}

impl TrustedState {
    pub fn new(epoch_state: EpochState) -> (state: TrustedState)
        ensures
            state.epoch_state == epoch_state,
    {
        TrustedState { epoch_state }
    }

    /// The epoch the state is in.
    pub fn epoch(&self) -> (epoch: u64)
        ensures
            epoch == self.epoch_state.epoch,
    {
        self.epoch_state.epoch
    }

    /// Checks one boundary record against the current epoch state.
    pub fn check_step(&self, entry: &LedgerInfoWithSignatures) -> (result: Result<
        (),
        RatchetError,
    >)
        ensures
            match step_error(self.epoch_state.epoch, self.epoch_state.verifier@, *entry) {
                Some(e) => result == Err::<(), RatchetError>(e),
                None => result is Ok,
            },
    {
        if entry.ledger_info.epoch != self.epoch_state.epoch || self.epoch_state.epoch
            == u64::MAX {
            return Err(RatchetError::NonContiguousEpoch);
        }
        if entry.ledger_info.next_epoch_state.is_none() {
            return Err(RatchetError::MissingEpochState);
        }
        match entry.verify_signatures(&self.epoch_state.verifier) {
            Ok(()) => Ok(()),
            Err(_) => Err(RatchetError::QuorumNotMet),
        }
    }

    /// Moves the state across the boundaries that `proof` records, oldest
    /// first. An empty proof changes nothing. At the first record that is not
    /// accepted the ratchet stops with its error: the state stays at the last
    /// epoch reached and the rest of the proof is dropped.
    #[verifier::loop_isolation(false)]
    pub fn ratchet(&mut self, proof: EpochChangeProof) -> (result: Result<
        TrustedStateChange,
        RatchetError,
    >)
        ensures
            ({
                let run = ratchet_run(
                    old(self).epoch_state.epoch,
                    old(self).epoch_state.verifier@,
                    proof.ledger_info_with_sigs@,
                );
                &&& final(self).epoch_state.epoch == run.epoch
                &&& final(self).epoch_state.verifier@ == run.validators
                &&& final(self).epoch_state.epoch >= old(self).epoch_state.epoch
                &&& match run.stopped {
                    Some(e) => result matches Err(x) && x == e,
                    None => if proof.ledger_info_with_sigs@.len() == 0 {
                        result matches Ok(TrustedStateChange::NoChange)
                    } else {
                        &&& result matches Ok(
                            TrustedStateChange::Epoch { latest_epoch_change_li, new_state },
                        ) && latest_epoch_change_li == proof.ledger_info_with_sigs@.last()
                            && new_state.epoch_state.epoch == run.epoch
                            && new_state.epoch_state.verifier@ == run.validators
                        &&& run.epoch == old(self).epoch_state.epoch
                            + proof.ledger_info_with_sigs@.len()
                    },
                }
            }),
    {
        let mut entries = proof.ledger_info_with_sigs;
        let n = entries.len();
        let ghost all = entries@;
        let ghost start_epoch = self.epoch_state.epoch;
        let ghost start_set = self.epoch_state.verifier@;
        assert(all.subrange(0, n as int) =~= all);
        let mut i: usize = 0;
        while i < n
            invariant
                i <= n,
                n == all.len(),
                entries@ == all,
                self.epoch_state.epoch == start_epoch + i,
                ratchet_run(
                    self.epoch_state.epoch,
                    self.epoch_state.verifier@,
                    all.subrange(i as int, n as int),
                ) == ratchet_run(start_epoch, start_set, all),
            decreases n - i,
        {
            let ghost rest = all.subrange(i as int, n as int);
            assert(rest.drop_first() =~= all.subrange(i + 1, n as int));
            assert(rest[0] == all[i as int]);
            match self.check_step(&entries[i]) {
                Err(e) => {
                    assert(rest.len() > 0);
                    assert(step_error(self.epoch_state.epoch, self.epoch_state.verifier@, rest[0])
                        == Some(e));
                    assert(ratchet_run(
                        self.epoch_state.epoch,
                        self.epoch_state.verifier@,
                        rest,
                    ).stopped == Some(e));
                    return Err(e);
                },
                Ok(()) => {},
            }
            match &entries[i].ledger_info.next_epoch_state {
                Some(next) => {
                    let verifier = next.verifier.clone();
                    self.epoch_state = EpochState { epoch: self.epoch_state.epoch + 1, verifier };
                },
                None => {},
            }
            i += 1;
        }
        assert(all.subrange(n as int, n as int).len() == 0);
        match entries.pop() {
            None => Ok(TrustedStateChange::NoChange),
            Some(latest) => {
                let new_state = TrustedState { epoch_state: self.epoch_state.clone() };
                Ok(TrustedStateChange::Epoch { latest_epoch_change_li: latest, new_state })
            },
        }
    }
}

/// A ratchet never moves the epoch backward, and a ratchet that crosses
/// every boundary ends exactly as many epochs later as the proof has records.
pub proof fn lemma_ratchet_moves_forward(
    epoch: u64,
    validators: Seq<ValidatorInfo>,
    entries: Seq<LedgerInfoWithSignatures>,
)
    ensures
        ratchet_run(epoch, validators, entries).epoch >= epoch,
        ratchet_run(epoch, validators, entries).stopped is None ==> ratchet_run(
            epoch,
            validators,
            entries,
        ).epoch == epoch + entries.len(),
    decreases entries.len(),
{
    if entries.len() > 0 && step_error(epoch, validators, entries[0]) is None {
        lemma_ratchet_moves_forward((epoch + 1) as u64, installed(entries[0]), entries.drop_first());
    }
}

/// A proof whose every record is for the right epoch and signed by a quorum
/// of the set in force before it is crossed whole: the ratchet ends in the
/// epoch after the last record, with the set that the last record installs.
pub proof fn lemma_well_signed_chain_ratchets(
    epoch: u64,
    validators: Seq<ValidatorInfo>,
    entries: Seq<LedgerInfoWithSignatures>,
)
    requires
        well_signed_chain(epoch, validators, entries),
    ensures
        ratchet_run(epoch, validators, entries).stopped is None,
        ratchet_run(epoch, validators, entries).epoch == epoch + entries.len(),
        ratchet_run(epoch, validators, entries).validators == set_before(
            validators,
            entries,
            entries.len() as int,
        ),
    decreases entries.len(),
{
    if entries.len() > 0 {
        let rest = entries.drop_first();
        let next = installed(entries[0]);
        assert(set_before(validators, entries, 0) == validators);
        assert(step_error(epoch, validators, entries[0]) is None);
        assert forall|i: int| 0 <= i < rest.len() implies {
            &&& (#[trigger] rest[i]).ledger_info.epoch == (epoch + 1) as u64 + i
            &&& rest[i].ledger_info.next_epoch_state is Some
            &&& rest[i].signed_by(set_before(next, rest, i)) is Ok
        } by {
            assert(rest[i] == entries[i + 1]);
            assert(set_before(next, rest, i) == set_before(validators, entries, i + 1));
        }
        lemma_well_signed_chain_ratchets((epoch + 1) as u64, next, rest);
        assert(set_before(next, rest, rest.len() as int) == set_before(
            validators,
            entries,
            entries.len() as int,
        ));
    }
}

/// A proof with a record that the set in force before it did not sign with a
/// quorum is never crossed whole: the ratchet stops with an error, at that
/// record or before it.
pub proof fn lemma_unsigned_record_stops_ratchet(
    epoch: u64,
    validators: Seq<ValidatorInfo>,
    entries: Seq<LedgerInfoWithSignatures>,
    k: int,
)
    requires
        0 <= k < entries.len(),
        entries[k].signed_by(set_before(validators, entries, k)) is Err,
    ensures
        ratchet_run(epoch, validators, entries).stopped is Some,
        ratchet_run(epoch, validators, entries).epoch <= epoch + k,
    decreases k,
{
    if k == 0 {
        assert(step_error(epoch, validators, entries[0]) is Some);
    } else if step_error(epoch, validators, entries[0]) is None {
        let rest = entries.drop_first();
        let next = installed(entries[0]);
        assert(rest[k - 1] == entries[k]);
        assert(set_before(next, rest, k - 1) == set_before(validators, entries, k)) by {
            if k > 1 {
                assert(rest[k - 2] == entries[k - 1]);
            }
        }
        lemma_unsigned_record_stops_ratchet((epoch + 1) as u64, next, rest, k - 1);
    }
}

} // verus!
