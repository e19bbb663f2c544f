use vstd::prelude::*;

verus! {

/// Lifecycle of one attestation attempt as seen by off-chain observers.
#[allow(non_camel_case_types)]
#[derive(Debug, PartialEq, Eq, Structural)]
pub enum AttestationStatus {
    PROPOSED,
    SUCCESS,
    FAILED,
}

/// An entry of a contract's emitted event log. The ledger publishes one such
/// record for every state-changing call; the off-chain engine rediscovers them
/// through the event query interface.
#[derive(Debug)]
pub enum LedgerEvent {
    TeeRegistered { tee_pubkey: Vec<u8> },
    TeeDisabled { tee_pubkey: Vec<u8> },
    TeeEnabled { tee_pubkey: Vec<u8> },
    EncryptedInputSubmitted { batch_id: u64, submitter: String },
    NewBatchCreated { batch_id: u64 },
    StateRootUpdated { state_root: Vec<u8> },
    BatchAttested { batch_id: u64, tee_pubkey: Vec<u8>, state_root: Vec<u8> },
    TokenMinted { admin: String, to: String, amount: i128 },
    TokenTransferred { from: String, to: String, amount: i128 },
}

pub open spec fn is_tee_registered_event(e: LedgerEvent, key: Seq<u8>) -> bool {
    match e {
        LedgerEvent::TeeRegistered { tee_pubkey } => tee_pubkey@ == key,
        _ => false,
    }
}

pub open spec fn is_tee_disabled_event(e: LedgerEvent, key: Seq<u8>) -> bool {
    match e {
        LedgerEvent::TeeDisabled { tee_pubkey } => tee_pubkey@ == key,
        _ => false,
    }
}

pub open spec fn is_tee_enabled_event(e: LedgerEvent, key: Seq<u8>) -> bool {
    match e {
        LedgerEvent::TeeEnabled { tee_pubkey } => tee_pubkey@ == key,
        _ => false,
    }
}

pub open spec fn is_input_submitted_event(e: LedgerEvent, id: u64, sub: Seq<char>) -> bool {
    match e {
        LedgerEvent::EncryptedInputSubmitted { batch_id, submitter } => batch_id == id
            && submitter@ == sub,
        _ => false,
    }
}

pub open spec fn is_state_root_updated_event(e: LedgerEvent, root: Seq<u8>) -> bool {
    match e {
        LedgerEvent::StateRootUpdated { state_root } => state_root@ == root,
        _ => false,
    }
}

pub open spec fn is_batch_attested_event(e: LedgerEvent, id: u64, key: Seq<u8>, root: Seq<u8>) -> bool {
    match e {
        LedgerEvent::BatchAttested { batch_id, tee_pubkey, state_root } => batch_id == id
            && tee_pubkey@ == key && state_root@ == root,
        _ => false,
    }
}

} // verus!
