use tee_engine::attestation::{Error, OnchainCommitment};

#[test]
fn test_current_batch_id() {
    let mut client = OnchainCommitment::new();

    // Initially should be 0
    let batch_id = client.current_batch_id();
    assert_eq!(batch_id, 0);

    // Create a new batch
    let new_batch_id = client.create_new_batch();
    assert_eq!(new_batch_id, 1);

    // Verify current batch ID is updated
    let current_batch_id = client.current_batch_id();
    assert_eq!(current_batch_id, 1);
}

#[test]
fn test_register_tee() {
    let mut client = OnchainCommitment::new();

    // Create a test TEE public key (32 bytes)
    let tee_pubkey = vec![1u8; 32];

    // Register TEE
    let result = client.register_tee(tee_pubkey.clone());
    assert_eq!(result, true);

    // Verify TEE is registered
    let is_registered = client.is_tee_registered(&tee_pubkey);
    assert_eq!(is_registered, true);

    // Try to register again (should return false)
    let result2 = client.register_tee(tee_pubkey.clone());
    assert_eq!(result2, false);
}

#[test]
fn test_submit_encrypted_input() {
    let mut client = OnchainCommitment::new();

    // Create a test submitter address
    let submitter = "GBM3EUBXO6SBBS2JF7RJBXF4EPGWH3TJVTUKWY242RT3EJQAQ6RHXQWE".to_string();
    let encrypted_data = "0x1234567890abcdef".to_string();

    // Submit encrypted input (should go to batch 0)
    let batch_id = client
        .submit_encrypted_input(submitter.clone(), encrypted_data.clone(), 0)
        .unwrap();
    assert_eq!(batch_id, 0);

    // Get batch inputs
    let inputs = client.batch_inputs(batch_id);
    assert_eq!(inputs.len(), 1);

    // Verify the input commitment
    let input = &inputs[0];
    assert_eq!(input.encrypted_data, encrypted_data);
    assert_eq!(input.submitter, submitter);
}

#[test]
fn test_batch_inputs() {
    let mut client = OnchainCommitment::new();

    // Submit multiple inputs to batch 0
    let submitter1 = "GBM3EUBXO6SBBS2JF7RJBXF4EPGWH3TJVTUKWY242RT3EJQAQ6RHXQWE".to_string();
    let submitter2 = "GCNY5OXYSY4FKHOPT2SPOQZAOEIGXB5LBYW3HVU3OWEQOEHFTKQK2MQM".to_string();
    let encrypted_data1 = "0x1111111111".to_string();
    let encrypted_data2 = "0x2222222222".to_string();

    client
        .submit_encrypted_input(submitter1.clone(), encrypted_data1.clone(), 0)
        .unwrap();
    client
        .submit_encrypted_input(submitter2.clone(), encrypted_data2.clone(), 0)
        .unwrap();

    // Get all inputs for batch 0
    let inputs = client.batch_inputs(0);
    assert_eq!(inputs.len(), 2);

    // Verify inputs
    let input1 = &inputs[0];
    assert_eq!(input1.encrypted_data, encrypted_data1);
    assert_eq!(input1.submitter, submitter1);

    let input2 = &inputs[1];
    assert_eq!(input2.encrypted_data, encrypted_data2);
    assert_eq!(input2.submitter, submitter2);

    // Test empty batch
    let empty_inputs = client.batch_inputs(999);
    assert_eq!(empty_inputs.len(), 0);
}

#[test]
fn test_create_new_batch() {
    let mut client = OnchainCommitment::new();

    // Initially batch ID is 0
    assert_eq!(client.current_batch_id(), 0);

    // Create new batch
    let batch_id_1 = client.create_new_batch();
    assert_eq!(batch_id_1, 1);
    assert_eq!(client.current_batch_id(), 1);

    // Create another batch
    let batch_id_2 = client.create_new_batch();
    assert_eq!(batch_id_2, 2);
    assert_eq!(client.current_batch_id(), 2);

    // Submit input to new batch
    let submitter = "GBM3EUBXO6SBBS2JF7RJBXF4EPGWH3TJVTUKWY242RT3EJQAQ6RHXQWE".to_string();
    let encrypted_data = "0xabcdef".to_string();
    let returned_batch_id = client
        .submit_encrypted_input(submitter, encrypted_data, 0)
        .unwrap();
    assert_eq!(returned_batch_id, 2); // Should go to current batch (2)
}

#[test]
fn test_state_root() {
    let mut client = OnchainCommitment::new();

    // Initially no state root
    let state_root = client.current_state_root();
    assert_eq!(state_root, None);

    // Update state root
    let new_state_root = vec![42u8; 32];
    client.update_state_root(new_state_root.clone());

    // Verify state root is updated
    let current_root = client.current_state_root();
    assert_eq!(current_root, Some(new_state_root));
}

#[test]
fn test_batch_attested() {
    let mut client = OnchainCommitment::new();

    // Initially batch is not attested
    assert_eq!(client.batch_attested(0), false);

    // Register a TEE
    let tee_pubkey = vec![1u8; 32];
    client.register_tee(tee_pubkey.clone());

    // Submit some inputs to batch 0
    let submitter = "GBM3EUBXO6SBBS2JF7RJBXF4EPGWH3TJVTUKWY242RT3EJQAQ6RHXQWE".to_string();
    let encrypted_data = "0x123456".to_string();
    client.submit_encrypted_input(submitter, encrypted_data, 0).unwrap();

    // Attest the batch
    let state_root = vec![99u8; 32];
    client
        .submit_attestation(&tee_pubkey, 0, state_root.clone())
        .unwrap();

    // Verify batch is attested
    assert_eq!(client.batch_attested(0), true);

    // Verify state root was updated
    let current_root = client.current_state_root();
    assert_eq!(current_root, Some(state_root));
}

#[test]
fn test_submit_attestation_with_unregistered_tee() {
    let mut client = OnchainCommitment::new();

    // Try to attest with unregistered TEE
    let unregistered_tee = vec![99u8; 32];
    let state_root = vec![42u8; 32];
    let result = client.submit_attestation(&unregistered_tee, 0, state_root);
    assert_eq!(result, Err(Error::TeeNotRegistered));
}

#[test]
fn test_submit_attestation_twice() {
    let mut client = OnchainCommitment::new();

    // Register TEE
    let tee_pubkey = vec![1u8; 32];
    client.register_tee(tee_pubkey.clone());

    // Attest batch 0
    let state_root1 = vec![42u8; 32];
    client
        .submit_attestation(&tee_pubkey, 0, state_root1)
        .unwrap();

    // Try to attest the same batch again (must be rejected)
    let state_root2 = vec![99u8; 32];
    let result = client.submit_attestation(&tee_pubkey, 0, state_root2);
    assert_eq!(result, Err(Error::BatchAlreadyAttested));
}

#[test]
fn test_submit_empty_encrypted_input() {
    let mut client = OnchainCommitment::new();

    let submitter = "GBM3EUBXO6SBBS2JF7RJBXF4EPGWH3TJVTUKWY242RT3EJQAQ6RHXQWE".to_string();
    let empty_data = "".to_string();
    let result = client.submit_encrypted_input(submitter, empty_data, 0);
    assert_eq!(result, Err(Error::InvalidEncryptedData));
}

#[test]
fn test_full_workflow() {
    let mut client = OnchainCommitment::new();

    // 1. Register TEE
    let tee_pubkey = vec![1u8; 32];
    assert_eq!(client.register_tee(tee_pubkey.clone()), true);
    assert_eq!(client.is_tee_registered(&tee_pubkey), true);

    // 2. Submit multiple encrypted inputs to batch 0
    let submitter1 = "GBM3EUBXO6SBBS2JF7RJBXF4EPGWH3TJVTUKWY242RT3EJQAQ6RHXQWE".to_string();
    let submitter2 = "GCNY5OXYSY4FKHOPT2SPOQZAOEIGXB5LBYW3HVU3OWEQOEHFTKQK2MQM".to_string();
    let data1 = "0x111111".to_string();
    let data2 = "0x222222".to_string();

    let batch_id1 = client.submit_encrypted_input(submitter1, data1, 0).unwrap();
    let batch_id2 = client.submit_encrypted_input(submitter2, data2, 0).unwrap();
    assert_eq!(batch_id1, 0);
    assert_eq!(batch_id2, 0);

    // 3. Verify batch inputs
    let inputs = client.batch_inputs(0);
    assert_eq!(inputs.len(), 2);

    // 4. Attest the batch
    let state_root = vec![123u8; 32];
    client
        .submit_attestation(&tee_pubkey, 0, state_root.clone())
        .unwrap();

    // 5. Verify batch is attested
    assert_eq!(client.batch_attested(0), true);
    assert_eq!(client.current_state_root(), Some(state_root));

    // 6. Create new batch and submit to it
    let new_batch_id = client.create_new_batch();
    assert_eq!(new_batch_id, 1);
    assert_eq!(client.current_batch_id(), 1);

    let submitter3 = "GDQERENWDSGE6TH6PIN5EJ5ABMFQQJDBHH5XKCDD5DUCKG6GLCTQIGLL".to_string();
    let data3 = "0x333333".to_string();
    let batch_id3 = client.submit_encrypted_input(submitter3, data3.clone(), 0).unwrap();
    assert_eq!(batch_id3, 1);

    // 7. Verify new batch inputs
    let new_batch_inputs = client.batch_inputs(1);
    assert_eq!(new_batch_inputs.len(), 1);
    assert_eq!(new_batch_inputs[0].encrypted_data, data3);
}
