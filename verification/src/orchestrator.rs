//! The engine's per-cycle decisions: accumulate observed inputs by batch id,
//! target the batch a creation event closes, decide whether to attest it, and
//! absorb submission outcomes idempotently through the processed set.

use vstd::prelude::*;

use crate::attestation::{model_submit_attestation, tee_enabled, CommitmentModel, Error};

use crate::assoc::{
    assoc_map, distinct_keys, lemma_assoc_map_absent, lemma_assoc_map_index, lemma_assoc_map_push,
    lemma_assoc_map_update, lemma_distinct_keys_push, lemma_distinct_keys_update,
};
use crate::commitment::{compute_state_root, state_root_spec};
use crate::events::EncryptedInputSubmittedEvent;
use crate::hashing::{sha256, sha256_of};
use crate::hexutil::{hex_decode, hex_decoded, valid_hex};
use crate::strutil::{contains_seq, contains_substr};
use vstd::string::StringSliceAdditionalSpecFns;

verus! {

/// Mathematical state of the engine: the batches it has resolved, and the
/// inputs it has observed for each batch.
#[verifier::ext_equal]
pub ghost struct EngineModel {
    pub processed: Set<u64>,
    pub inputs: Map<u64, Seq<EncryptedInputSubmittedEvent>>,
}

/// The engine's in-memory state, owned by the poll loop and handed into each
/// cycle: never authoritative — the ledger's own atomic already-attested
/// check is the true mutual-exclusion boundary.
pub struct EngineState {
    pub processed: Vec<u64>,
    pub inputs: Vec<(u64, Vec<EncryptedInputSubmittedEvent>)>,
}

/// What a poll cycle does about one closed batch.
#[derive(Copy, Clone, Debug, PartialEq, Eq, Structural)]
pub enum BatchDecision {
    AlreadyProcessed,
    NoInputs { target_batch_id: u64 },
    Attest { target_batch_id: u64, input_count: u64 },
}

/// How one attestation submission ended.
#[derive(Copy, Clone, Debug, PartialEq, Eq, Structural)]
pub enum SubmissionOutcome {
    Accepted,
    DuplicateAttestation,
    TransientFailure,
}

/// The batch a creation event closes: its predecessor, saturating at zero.
pub open spec fn target_batch(created_batch_id: u64) -> u64 {
    if created_batch_id == 0 {
        0
    } else {
        (created_batch_id - 1) as u64
    }
}

/// The inputs observed for a batch, empty when none.
pub open spec fn observed_or_empty(m: EngineModel, batch_id: u64) -> Seq<
    EncryptedInputSubmittedEvent,
> {
    if m.inputs.contains_key(batch_id) {
        m.inputs[batch_id]
    } else {
        Seq::empty()
    }
}

/// The decision for the batch closed by a creation event: short-circuit once
/// resolved; resolve a batch without observed inputs as intentionally final;
/// otherwise attest it over the observed input count.
pub open spec fn decide_spec(m: EngineModel, created_batch_id: u64) -> BatchDecision {
    let t = target_batch(created_batch_id);
    if m.processed.contains(t) {
        BatchDecision::AlreadyProcessed
    } else if !m.inputs.contains_key(t) {
        BatchDecision::NoInputs { target_batch_id: t }
    } else {
        BatchDecision::Attest { target_batch_id: t, input_count: m.inputs[t].len() as u64 }
    }
}

impl EngineState {
    /// The accumulated inputs as key/value pairs over values.
    pub open spec fn inputs_entries(&self) -> Seq<(u64, Seq<EncryptedInputSubmittedEvent>)> {
        self.inputs@.map_values(|e: (u64, Vec<EncryptedInputSubmittedEvent>)| (e.0, e.1@))
    }

    /// Well-formedness: one accumulator entry per batch id.
    pub open spec fn wf(&self) -> bool {
        distinct_keys(self.inputs_entries())
    }
}

impl View for EngineState {
    type V = EngineModel;

    open spec fn view(&self) -> EngineModel {
        EngineModel {
            processed: self.processed@.to_set(),
            inputs: assoc_map(self.inputs_entries()),
        }
    }
}

impl EngineState {
    /// A fresh engine state: nothing resolved, nothing observed.
    pub fn new() -> (r: Self)
        ensures
            r.wf(),
            r@.processed =~= Set::<u64>::empty(),
            r@.inputs =~= Map::<u64, Seq<EncryptedInputSubmittedEvent>>::empty(),
    {
        let r = EngineState { processed: Vec::new(), inputs: Vec::new() };
        assert(r.inputs_entries() =~= Seq::<(u64, Seq<EncryptedInputSubmittedEvent>)>::empty());
        r
    }

    /// Whether a batch has already been resolved by this engine.
    pub fn has_processed(&self, batch_id: u64) -> (r: bool)
        ensures
            r == self@.processed.contains(batch_id),
    {
        let n = self.processed.len();
        let mut i: usize = 0;
        #[verifier::loop_isolation(false)]
        while i < n
            invariant
                0 <= i <= n,
                forall|j: int| 0 <= j < i ==> self.processed@[j] != batch_id,
            decreases n - i,
        {
            if self.processed[i] == batch_id {
                assert(self.processed@.contains(batch_id));
                return true;
            }
            i += 1;
        }
        assert(!self.processed@.contains(batch_id));
        false
    }

    /// Record a batch as resolved; further cycles short-circuit on it.
    pub fn mark_processed(&mut self, batch_id: u64)
        requires
            old(self).wf(),
        ensures
            final(self).wf(),
            final(self)@.processed =~= old(self)@.processed.insert(batch_id),
            final(self)@.inputs == old(self)@.inputs,
    {
        self.processed.push(batch_id);
        proof {
            assert(self.processed@ == old(self).processed@.push(batch_id));
            old(self).processed@.lemma_push_to_set_commute(batch_id);
        }
    }

    /// Fold one observed input into the accumulator under the batch id the
    /// ledger asserted for it; purely additive.
    pub fn record_input(&mut self, event: EncryptedInputSubmittedEvent)
        requires
            old(self).wf(),
        ensures
            final(self).wf(),
            final(self)@.inputs =~= old(self)@.inputs.insert(
                event.batch_id,
                observed_or_empty(old(self)@, event.batch_id).push(event),
            ),
            final(self)@.processed == old(self)@.processed,
    {
        let ghost esnap = event;
        let key = event.batch_id;
        let n = self.inputs.len();
        let mut i: usize = 0;
        #[verifier::loop_isolation(false)]
        while i < n
            invariant
                *self == *old(self),
                0 <= i <= n,
                forall|j: int| 0 <= j < i ==> (#[trigger] self.inputs@[j]).0 != key,
            decreases n - i,
        {
            if self.inputs[i].0 == key {
                proof {
                    lemma_assoc_map_index(self.inputs_entries(), i as int);
                }
                let ghost old_list = self.inputs@[i as int].1@;
                let mut entry = self.inputs.remove(i);
                entry.1.push(event);
                self.inputs.insert(i, entry);
                proof {
                    assert(self.inputs@ =~= old(self).inputs@.update(
                        i as int,
                        self.inputs@[i as int],
                    ));
                    assert(self.inputs@[i as int].1@ == old_list.push(esnap));
                    assert(self.inputs_entries() =~= old(self).inputs_entries().update(
                        i as int,
                        (key, old_list.push(esnap)),
                    ));
                    lemma_assoc_map_update(
                        old(self).inputs_entries(),
                        i as int,
                        old_list.push(esnap),
                    );
                    lemma_distinct_keys_update(
                        old(self).inputs_entries(),
                        i as int,
                        old_list.push(esnap),
                    );
                }
                return ;
            }
            i += 1;
        }
        proof {
            assert(forall|j: int|
                0 <= j < self.inputs_entries().len() ==> (#[trigger] self.inputs_entries()[j]).0
                    != key);
            lemma_assoc_map_absent(self.inputs_entries(), key);
        }
        let mut list: Vec<EncryptedInputSubmittedEvent> = Vec::new();
        list.push(event);
        self.inputs.push((key, list));
        proof {
            assert(self.inputs_entries() =~= old(self).inputs_entries().push((
                key,
                Seq::<EncryptedInputSubmittedEvent>::empty().push(esnap),
            )));
            lemma_assoc_map_push(
                old(self).inputs_entries(),
                key,
                Seq::<EncryptedInputSubmittedEvent>::empty().push(esnap),
            );
            lemma_distinct_keys_push(
                old(self).inputs_entries(),
                key,
                Seq::<EncryptedInputSubmittedEvent>::empty().push(esnap),
            );
            assert(observed_or_empty(old(self)@, key).push(esnap) =~= Seq::<
                EncryptedInputSubmittedEvent,
            >::empty().push(esnap));
        }
    }

    /// The inputs observed so far for a batch, empty when none.
    pub fn inputs_for(&self, batch_id: u64) -> (r: Vec<EncryptedInputSubmittedEvent>)
        requires
            self.wf(),
        ensures
            r@ == observed_or_empty(self@, batch_id),
    {
        let n = self.inputs.len();
        let mut i: usize = 0;
        #[verifier::loop_isolation(false)]
        while i < n
            invariant
                0 <= i <= n,
                forall|j: int| 0 <= j < i ==> (#[trigger] self.inputs@[j]).0 != batch_id,
            decreases n - i,
        {
            if self.inputs[i].0 == batch_id {
                proof {
                    lemma_assoc_map_index(self.inputs_entries(), i as int);
                }
                let stored = &self.inputs[i].1;
                let m = stored.len();
                let mut r: Vec<EncryptedInputSubmittedEvent> = Vec::new();
                let mut k: usize = 0;
                #[verifier::loop_isolation(false)]
                while k < m
                    invariant
                        0 <= k <= m,
                        r@.len() == k,
                        forall|j: int| 0 <= j < k ==> r@[j] == stored@[j],
                    decreases m - k,
                {
                    r.push(clone_event(&stored[k]));
                    k += 1;
                }
                assert(r@ =~= stored@);
                return r;
            }
            i += 1;
        }
        proof {
            assert(forall|j: int|
                0 <= j < self.inputs_entries().len() ==> (#[trigger] self.inputs_entries()[j]).0
                    != batch_id);
            lemma_assoc_map_absent(self.inputs_entries(), batch_id);
        }
        Vec::new()
    }

    /// Decide what this cycle does about the batch closed by a creation
    /// event for `created_batch_id`.
    pub fn decide_batch(&self, created_batch_id: u64) -> (d: BatchDecision)
        requires
            self.wf(),
        ensures
            d == decide_spec(self@, created_batch_id),
    {
        let target = if created_batch_id == 0 {
            0
        } else {
            created_batch_id - 1
        };
        if self.has_processed(target) {
            return BatchDecision::AlreadyProcessed;
        }
        let n = self.inputs.len();
        let mut i: usize = 0;
        #[verifier::loop_isolation(false)]
        while i < n
            invariant
                0 <= i <= n,
                forall|j: int| 0 <= j < i ==> (#[trigger] self.inputs@[j]).0 != target,
            decreases n - i,
        {
            if self.inputs[i].0 == target {
                proof {
                    lemma_assoc_map_index(self.inputs_entries(), i as int);
                }
                let count = self.inputs[i].1.len();
                return BatchDecision::Attest {
                    target_batch_id: target,
                    input_count: count as u64,
                };
            }
            i += 1;
        }
        proof {
            assert(forall|j: int|
                0 <= j < self.inputs_entries().len() ==> (#[trigger] self.inputs_entries()[j]).0
                    != target);
            lemma_assoc_map_absent(self.inputs_entries(), target);
        }
        BatchDecision::NoInputs { target_batch_id: target }
    }

    /// Absorb the outcome of one attestation submission: acceptance and the
    /// ledger's duplicate rejection both resolve the batch; a transient
    /// failure leaves it unresolved so the next cycle retries it.
    pub fn note_submission_outcome(&mut self, batch_id: u64, outcome: SubmissionOutcome)
        requires
            old(self).wf(),
        ensures
            final(self).wf(),
            outcome matches SubmissionOutcome::TransientFailure ==> final(self)@ == old(self)@,
            !(outcome matches SubmissionOutcome::TransientFailure) ==> final(self)@.processed
                =~= old(self)@.processed.insert(batch_id) && final(self)@.inputs == old(
                self,
            )@.inputs,
    {
        match outcome {
            SubmissionOutcome::TransientFailure => {},
            _ => {
                self.mark_processed(batch_id);
            },
        }
    }
}

/// A fresh copy of an observed input event.
fn clone_event(e: &EncryptedInputSubmittedEvent) -> (r: EncryptedInputSubmittedEvent)
    ensures
        r == *e,
{
    EncryptedInputSubmittedEvent { batch_id: e.batch_id, submitter: e.submitter.clone() }
}

/// The ledger rejection texts that mean a batch was already attested (or the
/// simulation refused the duplicate), absorbed as success.
pub open spec fn duplicate_rejection(msg: Seq<char>) -> bool {
    ||| contains_seq(msg, "BatchAlreadyAttested"@)
    ||| contains_seq(msg, "already attested"@)
    ||| contains_seq(msg, "SimulationFailed"@)
}

/// Whether a preparation failure is the ledger's duplicate-attestation
/// rejection, to be treated as success without broadcasting a transaction.
pub fn is_duplicate_submission_error(msg: &str) -> (r: bool)
    ensures
        r == duplicate_rejection(msg@),
{
    if contains_substr(msg, "BatchAlreadyAttested") {
        return true;
    }
    if contains_substr(msg, "already attested") {
        return true;
    }
    contains_substr(msg, "SimulationFailed")
}

/// The 32-byte TEE identity used in attestation calls: a 64-character hex
/// key is decoded; any other identity string is hashed to 32 bytes.
pub fn derive_tee_pubkey(tee_pubkey: &str) -> (r: Vec<u8>)
    ensures
        r@.len() == 32,
        tee_pubkey.spec_bytes().len() == 64 && valid_hex(tee_pubkey.spec_bytes()) ==> r@
            == hex_decoded(tee_pubkey.spec_bytes()),
        !(tee_pubkey.spec_bytes().len() == 64 && valid_hex(tee_pubkey.spec_bytes())) ==> r@
            == sha256_of(tee_pubkey.spec_bytes()),
{
    let raw = tee_pubkey.as_bytes();
    if raw.len() == 64 {
        match hex_decode(tee_pubkey) {
            Some(bytes) => {
                assert(hex_decoded(tee_pubkey.spec_bytes()).len() == 32);
                bytes
            },
            None => sha256(raw),
        }
    } else {
        sha256(raw)
    }
}

/// The commitment the engine publishes for a batch: a function of the batch
/// id and the number of observed inputs alone.
pub open spec fn commitment_of_inputs(
    batch_id: u64,
    inputs: Seq<EncryptedInputSubmittedEvent>,
) -> Seq<u8> {
    state_root_spec(batch_id, inputs.len() as u64)
}

/// Compute the 32-byte commitment for a batch from its observed inputs.
pub fn compute_batch_commitment(
    batch_id: u64,
    inputs: &Vec<EncryptedInputSubmittedEvent>,
) -> (r: Vec<u8>)
    ensures
        r@ == commitment_of_inputs(batch_id, inputs@),
        r@.len() == 32,
{
    compute_state_root(batch_id, inputs.len() as u64)
}

/// The commitment is insensitive to the order of the inputs: any two
/// sequences holding the same inputs (as a multiset) commit equally.
pub proof fn lemma_commitment_order_insensitive(
    batch_id: u64,
    a: Seq<EncryptedInputSubmittedEvent>,
    b: Seq<EncryptedInputSubmittedEvent>,
)
    requires
        a.to_multiset() == b.to_multiset(),
    ensures
        commitment_of_inputs(batch_id, a) == commitment_of_inputs(batch_id, b),
{
    broadcast use vstd::seq_lib::group_to_multiset_ensures;

    assert(a.len() == a.to_multiset().len());
    assert(b.len() == b.to_multiset().len());
}

/// Resolved batches stay resolved: whatever a batch-creation event targets,
/// once the target is in the processed set the decision is to do nothing,
/// and resolving a batch makes every later cycle's decision for it a no-op.
pub proof fn lemma_processed_short_circuits(m: EngineModel, created_batch_id: u64)
    ensures
        m.processed.contains(target_batch(created_batch_id)) ==> decide_spec(m, created_batch_id)
            == BatchDecision::AlreadyProcessed,
        ({
            let resolved = EngineModel {
                processed: m.processed.insert(target_batch(created_batch_id)),
                inputs: m.inputs,
            };
            decide_spec(resolved, created_batch_id) == BatchDecision::AlreadyProcessed
        }),
{
}

/// One full cycle for a closed batch with observed inputs, over any engine
/// and ledger states: the decision is to attest the closed batch; with a
/// registered, enabled key and a not-yet-attested batch the attestation
/// succeeds and records the commitment over the observed inputs as the state
/// root; resolving the batch makes every later cycle's decision for it a
/// no-op, and any repeated attestation of it is rejected without further
/// change of ledger state.
pub proof fn lemma_attestation_cycle(
    ledger: CommitmentModel,
    engine: EngineModel,
    key: Seq<u8>,
    created_batch_id: u64,
    retry_key: Seq<u8>,
    retry_root: Seq<u8>,
)
    requires
        !engine.processed.contains(target_batch(created_batch_id)),
        engine.inputs.contains_key(target_batch(created_batch_id)),
        tee_enabled(ledger, key),
        !ledger.attested.contains(target_batch(created_batch_id)),
    ensures
        ({
            let t = target_batch(created_batch_id);
            let root = commitment_of_inputs(t, engine.inputs[t]);
            let (ledger1, res) = model_submit_attestation(ledger, key, t, root);
            let engine1 = EngineModel { processed: engine.processed.insert(t), inputs: engine.inputs };
            &&& decide_spec(engine, created_batch_id) == (BatchDecision::Attest {
                target_batch_id: t,
                input_count: engine.inputs[t].len() as u64,
            })
            &&& res == Ok::<(), Error>(())
            &&& ledger1.attested.contains(t)
            &&& ledger1.state_root == Some(root)
            &&& decide_spec(engine1, created_batch_id) == BatchDecision::AlreadyProcessed
            &&& model_submit_attestation(ledger1, retry_key, t, retry_root).0 == ledger1
            &&& model_submit_attestation(ledger1, retry_key, t, retry_root).1 is Err
        }),
{
}

/// A closed batch without observed inputs is resolved without any
/// attestation call, and once resolved it is never retried.
pub proof fn lemma_empty_batch_resolved(engine: EngineModel, created_batch_id: u64)
    requires
        !engine.processed.contains(target_batch(created_batch_id)),
        !engine.inputs.contains_key(target_batch(created_batch_id)),
    ensures
        decide_spec(engine, created_batch_id) == (BatchDecision::NoInputs {
            target_batch_id: target_batch(created_batch_id),
        }),
        ({
            let resolved = EngineModel {
                processed: engine.processed.insert(target_batch(created_batch_id)),
                inputs: engine.inputs,
            };
            decide_spec(resolved, created_batch_id) == BatchDecision::AlreadyProcessed
        }),
{
}

} // verus!
