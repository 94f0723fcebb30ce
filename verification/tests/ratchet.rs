use aptos_lc::ledger::{EpochState, LedgerInfo, LedgerInfoWithSignatures};
use aptos_lc::output::EpochChangeOutput;
use aptos_lc::programs::{epoch_change_program, EpochChangeError};
use aptos_lc::trusted_state::{
    EpochChangeProof, RatchetError, TrustedState, TrustedStateChange,
};
use aptos_lc::validator::{SignatureEntry, ValidatorInfo, ValidatorVerifier, VerifyError};
use ed25519_dalek::{Signer, SigningKey};

fn signing_key(set: u8, i: usize) -> SigningKey {
    let mut seed = [0u8; 32];
    seed[0] = i as u8;
    seed[1] = set;
    seed[31] = 0x5a;
    SigningKey::from_bytes(&seed)
}

fn address(set: u8, i: usize) -> [u8; 32] {
    let mut a = [0u8; 32];
    a[0] = i as u8;
    a[1] = set;
    a
}

fn validator_set(set: u8, n: usize) -> ValidatorVerifier {
    ValidatorVerifier::new(
        (0..n)
            .map(|i| ValidatorInfo {
                address: address(set, i),
                public_key: signing_key(set, i).verifying_key().to_bytes(),
                voting_power: 1,
            })
            .collect(),
    )
    .unwrap()
}

fn boundary(epoch: u64, next: Option<EpochState>) -> LedgerInfo {
    LedgerInfo {
        epoch,
        round: 10 * epoch,
        block_id: [epoch as u8; 32],
        transaction_accumulator_hash: [0xaa; 32],
        timestamp_usecs: 1_000_000 * epoch,
        next_epoch_state: next,
    }
}

fn signed(ledger_info: LedgerInfo, set: u8, signers: usize) -> LedgerInfoWithSignatures {
    let message = ledger_info.signing_bytes();
    let signatures = (0..signers)
        .map(|i| SignatureEntry {
            signer: address(set, i),
            signature: signing_key(set, i).sign(&message).to_bytes().to_vec(),
        })
        .collect();
    LedgerInfoWithSignatures { ledger_info, signatures }
}

// A record that closes `epoch`, signed by `signers` of the four validators of
// set `epoch`, and installs set `epoch + 1`.
fn crossing(epoch: u64, signers: usize) -> LedgerInfoWithSignatures {
    let next = EpochState { epoch: epoch + 1, verifier: validator_set(epoch as u8 + 1, 4) };
    signed(boundary(epoch, Some(next)), epoch as u8, signers)
}

fn state_at(epoch: u64) -> TrustedState {
    TrustedState::new(EpochState { epoch, verifier: validator_set(epoch as u8, 4) })
}

#[test]
fn signing_bytes_start_with_the_label_digest_and_cover_the_record() {
    let a = boundary(3, None).signing_bytes();
    let mut other = boundary(3, None);
    other.round += 1;
    assert_ne!(a, other.signing_bytes());
    assert_eq!(a.len(), 32 + 8 + 8 + 32 + 32 + 8 + 1);
    assert_eq!(&a[32..40], &[3u8, 0, 0, 0, 0, 0, 0, 0][..]);
    let with_next = crossing(3, 0).ledger_info.to_bytes();
    assert_eq!(with_next.len(), 8 + 8 + 32 + 32 + 8 + 1 + 8 + 8 + 4 * 72);
    assert_eq!(with_next[88], 1);
}

#[test]
fn record_signatures_are_checked_against_the_set() {
    let record = crossing(2, 3);
    assert_eq!(record.verify_signatures(&validator_set(2, 4)), Ok(()));
    assert_eq!(record.verify_signatures(&validator_set(3, 4)), Err(VerifyError::UnknownSigner));
    assert_eq!(crossing(2, 2).verify_signatures(&validator_set(2, 4)), Err(VerifyError::QuorumNotMet));
}

#[test]
fn empty_proof_changes_nothing() {
    let mut state = state_at(5);
    let result = state.ratchet(EpochChangeProof { ledger_info_with_sigs: Vec::new() });
    assert!(matches!(result, Ok(TrustedStateChange::NoChange)));
    assert_eq!(state.epoch(), 5);
    assert_eq!(state.epoch_state.verifier.hash(), validator_set(5, 4).hash());
}

#[test]
fn ratchet_crosses_every_boundary() {
    let mut state = state_at(1);
    let proof = EpochChangeProof { ledger_info_with_sigs: vec![crossing(1, 3), crossing(2, 4), crossing(3, 3)] };
    match state.ratchet(proof) {
        Ok(TrustedStateChange::Epoch { latest_epoch_change_li, new_state }) => {
            assert_eq!(latest_epoch_change_li.ledger_info.epoch, 3);
            assert_eq!(new_state.epoch(), 4);
            assert_eq!(new_state.epoch_state.verifier.hash(), validator_set(4, 4).hash());
        }
        other => panic!("unexpected result: {:?}", other),
    }
    assert_eq!(state.epoch(), 4);
    assert_eq!(state.epoch_state.verifier.hash(), validator_set(4, 4).hash());
}

#[test]
fn ratchet_stops_at_a_record_without_quorum() {
    let mut state = state_at(1);
    let proof = EpochChangeProof { ledger_info_with_sigs: vec![crossing(1, 3), crossing(2, 2), crossing(3, 4)] };
    assert!(matches!(state.ratchet(proof), Err(RatchetError::QuorumNotMet)));
    // The first boundary was crossed, the rest of the proof was dropped.
    assert_eq!(state.epoch(), 2);
    assert_eq!(state.epoch_state.verifier.hash(), validator_set(2, 4).hash());
}

#[test]
fn ratchet_rejects_a_gap() {
    let mut state = state_at(1);
    let proof = EpochChangeProof { ledger_info_with_sigs: vec![crossing(1, 4), crossing(3, 4)] };
    assert!(matches!(state.ratchet(proof), Err(RatchetError::NonContiguousEpoch)));
    assert_eq!(state.epoch(), 2);
}

#[test]
fn ratchet_rejects_a_record_of_an_earlier_epoch() {
    let mut state = state_at(2);
    let proof = EpochChangeProof { ledger_info_with_sigs: vec![crossing(1, 4)] };
    assert!(matches!(state.ratchet(proof), Err(RatchetError::NonContiguousEpoch)));
    assert_eq!(state.epoch(), 2);
}

#[test]
fn ratchet_rejects_a_record_that_closes_no_epoch() {
    let mut state = state_at(1);
    let record = signed(boundary(1, None), 1, 4);
    let proof = EpochChangeProof { ledger_info_with_sigs: vec![record] };
    assert!(matches!(state.ratchet(proof), Err(RatchetError::MissingEpochState)));
    assert_eq!(state.epoch(), 1);
}

#[test]
fn ratchet_rejects_signatures_of_the_wrong_set() {
    let mut state = state_at(1);
    let next = EpochState { epoch: 2, verifier: validator_set(2, 4) };
    let record = signed(boundary(1, Some(next)), 2, 4);
    let proof = EpochChangeProof { ledger_info_with_sigs: vec![record] };
    assert!(matches!(state.ratchet(proof), Err(RatchetError::QuorumNotMet)));
}

#[test]
fn ratchet_cannot_leave_the_last_epoch() {
    let mut state = TrustedState::new(EpochState { epoch: u64::MAX, verifier: validator_set(1, 4) });
    let next = EpochState { epoch: 0, verifier: validator_set(2, 4) };
    let record = signed(boundary(u64::MAX, Some(next)), 1, 4);
    let proof = EpochChangeProof { ledger_info_with_sigs: vec![record] };
    assert!(matches!(state.ratchet(proof), Err(RatchetError::NonContiguousEpoch)));
    assert_eq!(state.epoch(), u64::MAX);
}

#[test]
fn check_step_reports_each_reason() {
    let state = state_at(1);
    assert_eq!(state.check_step(&crossing(1, 3)), Ok(()));
    assert_eq!(state.check_step(&crossing(2, 4)), Err(RatchetError::NonContiguousEpoch));
    assert_eq!(state.check_step(&signed(boundary(1, None), 1, 4)), Err(RatchetError::MissingEpochState));
    assert_eq!(state.check_step(&crossing(1, 2)), Err(RatchetError::QuorumNotMet));
}

#[test]
fn epoch_change_program_commits_both_hashes() {
    let proof = EpochChangeProof { ledger_info_with_sigs: vec![crossing(1, 3), crossing(2, 3)] };
    let output = epoch_change_program(state_at(1), proof).unwrap();
    assert_eq!(
        output,
        EpochChangeOutput {
            prev_epoch_validator_verifier_hash: validator_set(1, 4).hash(),
            validator_verifier_hash: validator_set(3, 4).hash(),
        }
    );
}

#[test]
fn epoch_change_program_commits_nothing_without_quorum() {
    let proof = EpochChangeProof { ledger_info_with_sigs: vec![crossing(1, 3), crossing(2, 1)] };
    assert_eq!(
        epoch_change_program(state_at(1), proof),
        Err(EpochChangeError::Ratchet(RatchetError::QuorumNotMet))
    );
}

#[test]
fn epoch_change_program_needs_an_epoch_change() {
    let proof = EpochChangeProof { ledger_info_with_sigs: Vec::new() };
    assert_eq!(epoch_change_program(state_at(1), proof), Err(EpochChangeError::NoEpochChange));
}

#[test]
fn epoch_state_clone_keeps_epoch_and_set() {
    let state = EpochState { epoch: 9, verifier: validator_set(9, 4) };
    let copy = state.clone();
    assert_eq!(copy.epoch, 9);
    assert_eq!(copy.verifier.hash(), state.verifier.hash());
}
