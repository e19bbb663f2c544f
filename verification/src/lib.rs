//! Batch attestation orchestration over an append-only ledger.
//!
//! The crate models the on-ledger batch/attestation state machines with plain
//! data and verifies the orchestration logic that discovers batch events,
//! accumulates inputs, computes batch commitments and decides when an
//! attestation must be submitted.

pub mod assoc;
pub mod attestation;
pub mod bytesutil;
pub mod commitment;
pub mod events;
pub mod hashing;
pub mod hexutil;
pub mod jsonio;
pub mod keymgmt;
pub mod orchestrator;
pub mod shared;
pub mod staking;
pub mod strutil;

pub use commitment::compute_state_root;
pub use events::EventTopics;
pub use shared::AttestationStatus;
pub use shared::LedgerEvent;
