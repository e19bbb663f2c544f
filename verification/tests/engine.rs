use sha2::Digest;
use tee_engine::attestation::OnchainCommitment;
use tee_engine::commitment::compute_state_root;
use tee_engine::events::{
    create_rpc_request, get_latest_ledger, normalize_event_number, process_events,
    EncryptedInputSubmittedEvent, EventTopics,
};
use tee_engine::orchestrator::{
    compute_batch_commitment, derive_tee_pubkey, is_duplicate_submission_error, BatchDecision,
    EngineState, SubmissionOutcome,
};
use tee_engine::shared::LedgerEvent;
use tee_engine::strutil::{
    clean_secret_key, parse_u64_digits, str_eq, validate_secret_key, KeyMaterialError,
};

fn expected_root(batch_id: u64, input_count: u64) -> Vec<u8> {
    let mut prefix = Vec::new();
    prefix.extend_from_slice(&batch_id.to_le_bytes());
    prefix.extend_from_slice(&input_count.to_le_bytes());
    let digest = sha2::Sha256::digest(&prefix);
    let mut root = prefix;
    root.extend_from_slice(&digest[0..8]);
    root.extend_from_slice(&[0u8; 8]);
    root
}

#[test]
fn test_parse_u64_digits_values() {
    assert_eq!(parse_u64_digits("0"), Some(0));
    assert_eq!(parse_u64_digits("123"), Some(123));
    assert_eq!(parse_u64_digits("18446744073709551615"), Some(u64::MAX));
    assert_eq!(parse_u64_digits("18446744073709551616"), None);
    assert_eq!(parse_u64_digits(""), None);
    assert_eq!(parse_u64_digits("12a"), None);
    assert_eq!(parse_u64_digits("-1"), None);
}

#[test]
fn test_str_eq_and_normalize() {
    assert!(str_eq("NEW_BATCH_CREATED", "NEW_BATCH_CREATED"));
    assert!(!str_eq("NEW_BATCH_CREATED", "ENCRYPTED_INPUT_SUBMITTED"));
    assert_eq!(normalize_event_number(Some(7), Some("9")), 7);
    assert_eq!(normalize_event_number(None, Some("9")), 9);
    assert_eq!(normalize_event_number(None, Some("oops")), 0);
    assert_eq!(normalize_event_number(None, None), 0);
}

#[test]
fn test_process_events_classifies_by_topic() {
    let body = r#"{"jsonrpc":"2.0","id":8675309,"result":{"events":[
        {"topicJson":[{"string":"ENCRYPTED_INPUT_SUBMITTED"}],
         "valueJson":{"vec":[{"u64":7},{"string":"GABC"}]}},
        {"topicJson":[{"string":"ENCRYPTED_INPUT_SUBMITTED"}],
         "valueJson":{"vec":[{"u64":"12"},{"string":"GDEF"}]}},
        {"topicJson":[{"string":"NEW_BATCH_CREATED"}],
         "valueJson":{"vec":[{"u64":8}]}},
        {"topicJson":[{"string":"SOMETHING_ELSE"}],
         "valueJson":{"vec":[{"u64":5},{"string":"GXYZ"}]}},
        {"topicJson":[{"string":"ENCRYPTED_INPUT_SUBMITTED"}],
         "valueJson":{"vec":[]}}
    ]}}"#;

    let (inputs, batches) = process_events(body, &EventTopics::ENCRYPTED_INPUT_SUBMITTED).unwrap();
    assert_eq!(batches.len(), 0);
    assert_eq!(inputs.len(), 2);
    assert_eq!(inputs[0].batch_id, 7);
    assert_eq!(inputs[0].submitter, "GABC");
    assert_eq!(inputs[1].batch_id, 12);
    assert_eq!(inputs[1].submitter, "GDEF");

    let (inputs2, batches2) = process_events(body, &EventTopics::NEW_BATCH_CREATED).unwrap();
    assert_eq!(inputs2.len(), 0);
    assert_eq!(batches2.len(), 1);
    assert_eq!(batches2[0].batch_id, 8);
}

#[test]
fn test_process_events_faults() {
    // Not JSON at all: a transport-level fault, not "no events".
    assert!(process_events("not json", &EventTopics::NEW_BATCH_CREATED).is_none());
    // Valid JSON without events: an empty classification.
    let (inputs, batches) = process_events("{}", &EventTopics::NEW_BATCH_CREATED).unwrap();
    assert_eq!(inputs.len(), 0);
    assert_eq!(batches.len(), 0);
}

#[test]
fn test_create_rpc_request_shape() {
    let request = create_rpc_request("CDXYZ", 420646);
    assert_eq!(request.jsonrpc, "2.0");
    assert_eq!(request.id, 8675309);
    assert_eq!(request.method, "getEvents");
    assert_eq!(request.params.start_ledger, 420646);
    assert_eq!(request.params.xdr_format, "json");
    assert_eq!(request.params.filters.len(), 1);
    assert_eq!(request.params.filters[0].filter_type, "contract");
    assert_eq!(request.params.filters[0].contract_ids, vec!["CDXYZ".to_string()]);
    assert!(request.params.filters[0].topics.is_empty());
    assert_eq!(get_latest_ledger(), 1000);
}

#[test]
fn test_commitment_layout() {
    let root = compute_state_root(3, 2);
    assert_eq!(root, expected_root(3, 2));
    assert_eq!(root.len(), 32);
    assert_eq!(&root[0..8], &3u64.to_le_bytes());
    assert_eq!(&root[8..16], &2u64.to_le_bytes());
    assert_eq!(&root[24..32], &[0u8; 8]);
}

#[test]
fn test_commitment_order_insensitive() {
    let a = EncryptedInputSubmittedEvent { batch_id: 4, submitter: "A".to_string() };
    let b = EncryptedInputSubmittedEvent { batch_id: 4, submitter: "B".to_string() };
    let ab = vec![
        EncryptedInputSubmittedEvent { batch_id: a.batch_id, submitter: a.submitter.clone() },
        EncryptedInputSubmittedEvent { batch_id: b.batch_id, submitter: b.submitter.clone() },
    ];
    let ba = vec![b, a];
    assert_eq!(compute_batch_commitment(4, &ab), compute_batch_commitment(4, &ba));
    assert_eq!(compute_batch_commitment(4, &ab), expected_root(4, 2));
}

#[test]
fn test_duplicate_error_classification() {
    assert!(is_duplicate_submission_error("host error: BatchAlreadyAttested (5)"));
    assert!(is_duplicate_submission_error("the batch was already attested"));
    assert!(is_duplicate_submission_error("SimulationFailed: tx rejected"));
    assert!(!is_duplicate_submission_error("connection timed out"));
    assert!(!is_duplicate_submission_error(""));
}

#[test]
fn test_secret_key_validation() {
    // Quotes are stripped first, blanks last — the raw value from the
    // environment is already trimmed before cleaning.
    let cleaned = clean_secret_key("\"SB3KDM5UHGPHVILFD3LPDPBMGRWQ5T6VLRKHTL5K5DTMQLZCTWDCIWMJ\"");
    assert_eq!(cleaned.len(), 56);
    assert!(validate_secret_key(&cleaned).is_ok());

    assert_eq!(
        validate_secret_key("GB3KDM5UHGPHVILFD3LPDPBMGRWQ5T6VLRKHTL5K5DTMQLZCTWDCIWMJ"),
        Err(KeyMaterialError::MissingKeyPrefix)
    );
    assert_eq!(validate_secret_key(""), Err(KeyMaterialError::MissingKeyPrefix));
    assert_eq!(validate_secret_key("SHORT"), Err(KeyMaterialError::WrongKeyLength));

    // Single quotes are stripped as well, in the documented order.
    assert_eq!(clean_secret_key("'\"S\"'"), "\"S\"");
    assert_eq!(clean_secret_key("\"'S'\""), "S");
}

#[test]
fn test_derive_tee_pubkey_paths() {
    // A 64-character hex string decodes to its 32 bytes.
    let hex_key = "000102030405060708090a0b0c0d0e0f101112131415161718191a1b1c1d1e1f";
    let derived = derive_tee_pubkey(hex_key);
    assert_eq!(derived, hex::decode(hex_key).unwrap());
    assert_eq!(derived[0], 0);
    assert_eq!(derived[31], 0x1f);

    // Anything else is hashed to 32 bytes.
    let identity = "GBM3EUBXO6SBBS2JF7RJBXF4EPGWH3TJVTUKWY242RT3EJQAQ6RHXQWE";
    let derived2 = derive_tee_pubkey(identity);
    let expected: Vec<u8> = sha2::Sha256::digest(identity.as_bytes()).to_vec();
    assert_eq!(derived2, expected);

    // 64 characters that are not hex take the hash path too.
    let not_hex = "zzzz02030405060708090a0b0c0d0e0f101112131415161718191a1b1c1d1e1f";
    assert_eq!(not_hex.len(), 64);
    let derived3 = derive_tee_pubkey(not_hex);
    assert_eq!(derived3, sha2::Sha256::digest(not_hex.as_bytes()).to_vec());
}

#[test]
fn test_engine_state_accumulation() {
    let mut engine = EngineState::new();
    engine.record_input(EncryptedInputSubmittedEvent { batch_id: 3, submitter: "A".to_string() });
    engine.record_input(EncryptedInputSubmittedEvent { batch_id: 3, submitter: "B".to_string() });
    engine.record_input(EncryptedInputSubmittedEvent { batch_id: 5, submitter: "C".to_string() });

    let for3 = engine.inputs_for(3);
    assert_eq!(for3.len(), 2);
    assert_eq!(for3[0].submitter, "A");
    assert_eq!(for3[1].submitter, "B");
    assert_eq!(engine.inputs_for(5).len(), 1);
    // Input routing: neither neighbour holds the inputs of batch 3.
    assert_eq!(engine.inputs_for(2).len(), 0);
    assert_eq!(engine.inputs_for(4).len(), 0);

    // Batch 4 created closes batch 3 with two inputs.
    match engine.decide_batch(4) {
        BatchDecision::Attest { target_batch_id, input_count } => {
            assert_eq!(target_batch_id, 3);
            assert_eq!(input_count, 2);
        },
        other => panic!("expected an attestation decision, got {:?}", other),
    }
    // Batch 1 created closes batch 0, which saw nothing.
    assert_eq!(engine.decide_batch(1), BatchDecision::NoInputs { target_batch_id: 0 });
    // A creation event for batch 0 targets batch 0 itself (saturating).
    assert_eq!(engine.decide_batch(0), BatchDecision::NoInputs { target_batch_id: 0 });

    // A transient failure leaves the batch unresolved; acceptance resolves it.
    engine.note_submission_outcome(3, SubmissionOutcome::TransientFailure);
    assert!(!engine.has_processed(3));
    engine.note_submission_outcome(3, SubmissionOutcome::Accepted);
    assert!(engine.has_processed(3));
    assert_eq!(engine.decide_batch(4), BatchDecision::AlreadyProcessed);
    // The duplicate rejection resolves a batch just like acceptance.
    engine.note_submission_outcome(5, SubmissionOutcome::DuplicateAttestation);
    assert!(engine.has_processed(5));
}

fn run_cycle(
    contract: &mut OnchainCommitment,
    engine: &mut EngineState,
    tee_pubkey: &Vec<u8>,
    observed_inputs: &[(u64, String)],
    observed_batches: &[u64],
) -> usize {
    for (batch_id, submitter) in observed_inputs {
        engine.record_input(EncryptedInputSubmittedEvent {
            batch_id: *batch_id,
            submitter: submitter.clone(),
        });
    }
    let mut submissions = 0;
    for created in observed_batches {
        match engine.decide_batch(*created) {
            BatchDecision::AlreadyProcessed => {},
            BatchDecision::NoInputs { target_batch_id } => {
                engine.mark_processed(target_batch_id);
            },
            BatchDecision::Attest { target_batch_id, input_count: _ } => {
                let inputs = engine.inputs_for(target_batch_id);
                let commitment = compute_batch_commitment(target_batch_id, &inputs);
                submissions += 1;
                let outcome = match contract.submit_attestation(
                    tee_pubkey,
                    target_batch_id,
                    commitment,
                ) {
                    Ok(()) => SubmissionOutcome::Accepted,
                    Err(e) => {
                        if is_duplicate_submission_error(&format!("{:?}", e)) {
                            SubmissionOutcome::DuplicateAttestation
                        } else {
                            SubmissionOutcome::TransientFailure
                        }
                    },
                };
                engine.note_submission_outcome(target_batch_id, outcome);
            },
        }
    }
    submissions
}

#[test]
fn test_end_to_end_batch_attestation() {
    let mut contract = OnchainCommitment::new();
    let mut engine = EngineState::new();
    let tee_pubkey = vec![1u8; 32];
    assert!(contract.register_tee(tee_pubkey.clone()));

    // Batch 0 receives two inputs from submitters A and B.
    let submitter_a = "GBM3EUBXO6SBBS2JF7RJBXF4EPGWH3TJVTUKWY242RT3EJQAQ6RHXQWE".to_string();
    let submitter_b = "GCNY5OXYSY4FKHOPT2SPOQZAOEIGXB5LBYW3HVU3OWEQOEHFTKQK2MQM".to_string();
    let id_a = contract
        .submit_encrypted_input(submitter_a.clone(), "0x111111".to_string(), 10)
        .unwrap();
    let id_b = contract
        .submit_encrypted_input(submitter_b.clone(), "0x222222".to_string(), 11)
        .unwrap();
    assert_eq!(id_a, 0);
    assert_eq!(id_b, 0);

    // Closing batch 0 yields batch id 1.
    let new_id = contract.create_new_batch();
    assert_eq!(new_id, 1);

    // The engine observes the emitted events of this window.
    let mut observed_inputs = Vec::new();
    let mut observed_batches = Vec::new();
    for event in &contract.events {
        match event {
            LedgerEvent::EncryptedInputSubmitted { batch_id, submitter } => {
                observed_inputs.push((*batch_id, submitter.clone()));
            },
            LedgerEvent::NewBatchCreated { batch_id } => {
                observed_batches.push(*batch_id);
            },
            _ => {},
        }
    }
    assert_eq!(observed_inputs.len(), 2);
    assert_eq!(observed_batches, vec![1]);

    let submissions = run_cycle(
        &mut contract,
        &mut engine,
        &tee_pubkey,
        &observed_inputs,
        &observed_batches,
    );
    assert_eq!(submissions, 1);

    // Batch 0 is attested with the commitment over its two inputs.
    assert!(contract.batch_attested(0));
    assert_eq!(contract.current_state_root(), Some(expected_root(0, 2)));

    // A second poll cycle over the same events leaves everything unchanged:
    // no new submission is attempted.
    let root_before = contract.current_state_root();
    let submissions2 = run_cycle(&mut contract, &mut engine, &tee_pubkey, &[], &observed_batches);
    assert_eq!(submissions2, 0);
    assert_eq!(contract.current_state_root(), root_before);
    assert!(contract.batch_attested(0));
}

#[test]
fn test_empty_batch_resolved_without_attestation() {
    let mut contract = OnchainCommitment::new();
    let mut engine = EngineState::new();
    let tee_pubkey = vec![1u8; 32];
    assert!(contract.register_tee(tee_pubkey.clone()));

    // Batch 1 is closed (batch 2 created) with zero inputs recorded.
    assert_eq!(contract.create_new_batch(), 1);
    assert_eq!(contract.create_new_batch(), 2);

    let submissions = run_cycle(&mut contract, &mut engine, &tee_pubkey, &[], &[2]);
    assert_eq!(submissions, 0);
    assert!(!contract.batch_attested(1));
    assert!(engine.has_processed(1));
    assert_eq!(contract.current_state_root(), None);

    // The empty batch is never retried.
    let submissions2 = run_cycle(&mut contract, &mut engine, &tee_pubkey, &[], &[2]);
    assert_eq!(submissions2, 0);
    assert!(!contract.batch_attested(1));
}

#[test]
fn test_attestation_events_emitted() {
    let mut contract = OnchainCommitment::new();
    let tee_pubkey = vec![1u8; 32];
    contract.register_tee(tee_pubkey.clone());
    let root = vec![9u8; 32];
    contract.submit_attestation(&tee_pubkey, 0, root.clone()).unwrap();

    assert_eq!(contract.events.len(), 2);
    match &contract.events[0] {
        LedgerEvent::TeeRegistered { tee_pubkey: key } => assert_eq!(key, &tee_pubkey),
        other => panic!("unexpected first event {:?}", other),
    }
    match &contract.events[1] {
        LedgerEvent::BatchAttested { batch_id, tee_pubkey: key, state_root } => {
            assert_eq!(*batch_id, 0);
            assert_eq!(key, &tee_pubkey);
            assert_eq!(state_root, &root);
        },
        other => panic!("unexpected second event {:?}", other),
    }
}
