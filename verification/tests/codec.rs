use aptos_lc::codec::{decode_hash_list, encode_hash_list, read_hash, read_u64};
use aptos_lc::ledger::{EpochState, LedgerInfo, LedgerInfoWithSignatures, TransactionInfo};
use aptos_lc::merkle::{SparseMerkleProof, TransactionAccumulatorProof};
use aptos_lc::programs::{
    epoch_change_program, inclusion_program, EpochChangeInputs, InclusionError, InclusionInputs,
    InputError,
};
use aptos_lc::trusted_state::{EpochChangeProof, TrustedState};
use aptos_lc::validator::{SignatureEntry, ValidatorInfo, ValidatorVerifier, VerifyError};
use ed25519_dalek::{Signer, SigningKey};

fn signing_key(set: u8, i: usize) -> SigningKey {
    let mut seed = [0u8; 32];
    seed[0] = i as u8;
    seed[1] = set;
    seed[31] = 0x11;
    SigningKey::from_bytes(&seed)
}

fn address(set: u8, i: usize) -> [u8; 32] {
    let mut a = [0u8; 32];
    a[0] = i as u8;
    a[1] = set;
    a
}

fn validator_set(set: u8, n: usize) -> ValidatorVerifier {
    ValidatorVerifier::new(
        (0..n)
            .map(|i| ValidatorInfo {
                address: address(set, i),
                public_key: signing_key(set, i).verifying_key().to_bytes(),
                voting_power: 1 + i as u64,
            })
            .collect(),
    )
    .unwrap()
}

fn crossing(epoch: u64, signers: usize) -> LedgerInfoWithSignatures {
    let ledger_info = LedgerInfo {
        epoch,
        round: 3,
        block_id: [0x21; 32],
        transaction_accumulator_hash: [0x22; 32],
        timestamp_usecs: 77,
        next_epoch_state: Some(EpochState {
            epoch: epoch + 1,
            verifier: validator_set(epoch as u8 + 1, 3),
        }),
    };
    let message = ledger_info.signing_bytes();
    let signatures = (0..signers)
        .map(|i| SignatureEntry {
            signer: address(epoch as u8, i),
            signature: signing_key(epoch as u8, i).sign(&message).to_bytes().to_vec(),
        })
        .collect();
    LedgerInfoWithSignatures { ledger_info, signatures }
}

#[test]
fn fixed_width_fields_are_read_in_place() {
    let mut bytes = vec![0xffu8; 4];
    bytes.extend_from_slice(&0x0102_0304_0506_0708u64.to_le_bytes());
    bytes.extend_from_slice(&[9u8; 32]);
    assert_eq!(read_u64(&bytes, 4), Some(0x0102_0304_0506_0708));
    assert_eq!(read_u64(&bytes, 37), None);
    assert_eq!(read_u64(&bytes, usize::MAX), None);
    assert_eq!(read_hash(&bytes, 12), Some([9u8; 32]));
    assert_eq!(read_hash(&bytes, 13), None);
}

#[test]
fn hash_list_round_trip() {
    let hashes = vec![[1u8; 32], [2u8; 32], [3u8; 32]];
    let bytes = encode_hash_list(&hashes);
    assert_eq!(bytes.len(), 8 + 3 * 32);
    assert_eq!(&bytes[..8], &[3u8, 0, 0, 0, 0, 0, 0, 0][..]);
    assert_eq!(bytes[8 + 32], 2);
    assert_eq!(decode_hash_list(&bytes), Some(hashes));
    assert_eq!(decode_hash_list(&encode_hash_list(&Vec::new())), Some(Vec::new()));
}

#[test]
fn hash_list_must_match_its_count() {
    let mut bytes = encode_hash_list(&vec![[1u8; 32], [2u8; 32]]);
    bytes.push(0);
    assert_eq!(decode_hash_list(&bytes), None);
    bytes.truncate(8 + 63);
    assert_eq!(decode_hash_list(&bytes), None);
    bytes.truncate(8 + 32);
    assert_eq!(decode_hash_list(&bytes), None);
    assert_eq!(decode_hash_list(&[1, 2, 3]), None);
    assert_eq!(decode_hash_list(&[0xff; 8]), None);
}

#[test]
fn merkle_proofs_round_trip() {
    let sparse = SparseMerkleProof::new(vec![[4u8; 32], [5u8; 32]]);
    assert_eq!(SparseMerkleProof::from_bytes(&sparse.to_bytes()).unwrap().siblings, sparse.siblings);
    let accumulator = TransactionAccumulatorProof::new(vec![[6u8; 32]]);
    assert_eq!(
        TransactionAccumulatorProof::from_bytes(&accumulator.to_bytes()).unwrap().siblings,
        accumulator.siblings
    );
    assert!(SparseMerkleProof::from_bytes(&[0u8; 7]).is_none());
    assert!(TransactionAccumulatorProof::from_bytes(&[1u8; 8]).is_none());
}

#[test]
fn transaction_info_round_trip() {
    for checkpoint in [None, Some([8u8; 32])] {
        let info = TransactionInfo {
            transaction_hash: [7u8; 32],
            state_checkpoint_hash: checkpoint,
            event_root_hash: [9u8; 32],
            gas_used: 0x0a0b,
        };
        let back = TransactionInfo::from_bytes(&info.to_bytes()).unwrap();
        assert_eq!(back.transaction_hash, info.transaction_hash);
        assert_eq!(back.state_checkpoint_hash, info.state_checkpoint_hash);
        assert_eq!(back.event_root_hash, info.event_root_hash);
        assert_eq!(back.gas_used, info.gas_used);
    }
}

#[test]
fn transaction_info_rejects_other_layouts() {
    let info = TransactionInfo {
        transaction_hash: [7u8; 32],
        state_checkpoint_hash: Some([8u8; 32]),
        event_root_hash: [9u8; 32],
        gas_used: 1,
    };
    let mut bytes = info.to_bytes();
    bytes[32] = 2;
    assert!(TransactionInfo::from_bytes(&bytes).is_none());
    bytes[32] = 0;
    assert!(TransactionInfo::from_bytes(&bytes).is_none());
    bytes[32] = 1;
    bytes.pop();
    assert!(TransactionInfo::from_bytes(&bytes).is_none());
    assert!(TransactionInfo::from_bytes(&[]).is_none());
}

#[test]
fn validator_set_round_trip() {
    let set = validator_set(1, 5);
    let bytes = set.to_bytes();
    assert_eq!(bytes.len(), 8 + 5 * 72);
    let back = ValidatorVerifier::from_bytes(&bytes).unwrap();
    assert_eq!(back.to_vec().len(), 5);
    assert_eq!(back.get(4).unwrap().voting_power, 5);
    assert_eq!(back.hash(), set.hash());
}

#[test]
fn validator_set_bytes_must_be_exact_and_distinct() {
    let mut bytes = validator_set(1, 2).to_bytes();
    bytes.push(0);
    assert!(ValidatorVerifier::from_bytes(&bytes).is_none());
    bytes.pop();
    bytes.pop();
    assert!(ValidatorVerifier::from_bytes(&bytes).is_none());
    // Two members with one identity.
    let mut twins = validator_set(1, 2).to_bytes();
    let first: Vec<u8> = twins[8..40].to_vec();
    twins[8 + 72..8 + 72 + 32].copy_from_slice(&first);
    assert!(ValidatorVerifier::from_bytes(&twins).is_none());
}

#[test]
fn signed_record_round_trip() {
    let record = crossing(1, 2);
    let bytes = record.to_bytes();
    let back = LedgerInfoWithSignatures::from_bytes(&bytes).unwrap();
    assert_eq!(back.to_bytes(), bytes);
    assert_eq!(back.ledger_info.epoch, 1);
    assert_eq!(back.signatures.len(), 2);
    assert_eq!(back.signatures[1].signature, record.signatures[1].signature);
    assert_eq!(back.ledger_info.signing_bytes(), record.ledger_info.signing_bytes());
    let mut longer = bytes.clone();
    longer.push(0);
    assert!(LedgerInfoWithSignatures::from_bytes(&longer).is_none());
    let mut bad_tag = bytes.clone();
    bad_tag[88] = 7;
    assert!(LedgerInfoWithSignatures::from_bytes(&bad_tag).is_none());
}

#[test]
fn epoch_change_inputs_round_trip_and_run() {
    let state = TrustedState::new(EpochState { epoch: 1, verifier: validator_set(1, 3) });
    let proof = EpochChangeProof { ledger_info_with_sigs: vec![crossing(1, 3), crossing(2, 3)] };
    let inputs = EpochChangeInputs::from_bytes(&state.to_bytes(), &proof.to_bytes()).unwrap();
    assert_eq!(inputs.epoch_change_proof.to_bytes(), proof.to_bytes());
    let output = epoch_change_program(inputs.trusted_state, inputs.epoch_change_proof).unwrap();
    assert_eq!(output.prev_epoch_validator_verifier_hash, validator_set(1, 3).hash());
    assert_eq!(output.validator_verifier_hash, validator_set(3, 3).hash());
}

#[test]
fn epoch_change_inputs_report_the_input_that_does_not_decode() {
    let state = TrustedState::new(EpochState { epoch: 1, verifier: validator_set(1, 3) });
    let proof = EpochChangeProof { ledger_info_with_sigs: vec![crossing(1, 3)] };
    let mut short_state = state.to_bytes();
    short_state.pop();
    assert_eq!(
        EpochChangeInputs::from_bytes(&short_state, &proof.to_bytes()).err(),
        Some(InputError::TrustedState)
    );
    let mut long_proof = proof.to_bytes();
    long_proof.push(1);
    assert_eq!(
        EpochChangeInputs::from_bytes(&state.to_bytes(), &long_proof).err(),
        Some(InputError::EpochChangeProof)
    );
    let mut miscounted = proof.to_bytes();
    miscounted[0] = 2;
    assert_eq!(
        EpochChangeInputs::from_bytes(&state.to_bytes(), &miscounted).err(),
        Some(InputError::EpochChangeProof)
    );
}

#[test]
fn inclusion_inputs_report_the_input_that_does_not_decode() {
    let set = validator_set(1, 3).to_bytes();
    let transaction = TransactionInfo {
        transaction_hash: [1; 32],
        state_checkpoint_hash: None,
        event_root_hash: [2; 32],
        gas_used: 0,
    }
    .to_bytes();
    let list = encode_hash_list(&vec![[3u8; 32]]);
    let record = crossing(1, 1).to_bytes();
    let run = |sparse: &[u8], tx: &[u8], tx_proof: &[u8], li: &[u8], vv: &[u8]| {
        InclusionInputs::from_bytes(sparse, [0; 32], [0; 32], tx, 0, tx_proof, li, vv)
    };
    assert!(run(&list, &transaction, &list, &record, &set).is_ok());
    assert_eq!(run(&list, &transaction, &list, &record, &[]).err(), Some(InputError::ValidatorVerifier));
    assert_eq!(run(&list, &[1], &list, &record, &set).err(), Some(InputError::Transaction));
    assert_eq!(run(&list, &transaction, &[1], &record, &set).err(), Some(InputError::TransactionProof));
    assert_eq!(run(&list, &transaction, &list, &[1], &set).err(), Some(InputError::LedgerInfo));
    assert_eq!(run(&[1], &transaction, &list, &record, &set).err(), Some(InputError::SparseMerkleProof));
    // Every input broken: the validator set is read first.
    assert_eq!(run(&[1], &[1], &[1], &[1], &[1]).err(), Some(InputError::ValidatorVerifier));
}

#[test]
fn decoded_inclusion_inputs_are_checked_like_any_other() {
    let set = validator_set(1, 3).to_bytes();
    let transaction = TransactionInfo {
        transaction_hash: [1; 32],
        state_checkpoint_hash: None,
        event_root_hash: [2; 32],
        gas_used: 0,
    }
    .to_bytes();
    let list = encode_hash_list(&Vec::new());
    let record = crossing(1, 1).to_bytes();
    let inputs =
        InclusionInputs::from_bytes(&list, [0; 32], [0; 32], &transaction, 0, &list, &record, &set)
            .unwrap();
    // One of three signers, with power 1 of 6: no quorum.
    assert_eq!(
        inclusion_program(&inputs),
        Err(InclusionError::Signatures(VerifyError::QuorumNotMet))
    );
}
