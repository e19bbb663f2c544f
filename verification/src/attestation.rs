//! The on-ledger batch/attestation state machine.
//!
//! Batches are numbered by a monotonically increasing counter; encrypted
//! inputs are appended to the current batch; a registered TEE key may attest
//! each batch at most once, recording a 32-byte state root. The ledger's
//! storage is modelled by plain vectors with distinct keys, abstracted to
//! `Map`/`Set` values by the [`CommitmentModel`] view.

use vstd::prelude::*;

use crate::assoc::{
    assoc_map, distinct_keys, lemma_assoc_map_absent, lemma_assoc_map_index, lemma_assoc_map_push,
    lemma_assoc_map_update, lemma_distinct_keys_push, lemma_distinct_keys_update,
};
use crate::bytesutil::{bytes_eq, copy_bytes};
use crate::shared::{is_batch_attested_event, is_input_submitted_event,
    is_state_root_updated_event, is_tee_registered_event, LedgerEvent};

verus! {

/// One encrypted submission recorded under a batch.
pub struct InputCommitment {
    pub encrypted_data: String,
    pub submitter: String,
    pub timestamp: u64,
}

/// Mathematical image of an [`InputCommitment`].
pub ghost struct InputRecord {
    pub encrypted_data: Seq<char>,
    pub submitter: Seq<char>,
    pub timestamp: u64,
}

impl View for InputCommitment {
    type V = InputRecord;

    open spec fn view(&self) -> InputRecord {
        InputRecord {
            encrypted_data: self.encrypted_data@,
            submitter: self.submitter@,
            timestamp: self.timestamp,
        }
    }
}

/// Rejection reasons of the batch/attestation contract.
#[derive(Copy, Clone, Debug, PartialEq, Eq, Structural)]
pub enum Error {
    InvalidEncryptedData,
    BatchNotFound,
    TeeAlreadyRegistered,
    TeeNotRegistered,
    BatchAlreadyAttested,
    Unauthorized,
}

/// Mathematical state of the contract: the batch counter, the per-batch input
/// lists, the registered TEE keys with their enabled flag, the set of attested
/// batches and the current global state root.
#[verifier::ext_equal]
pub ghost struct CommitmentModel {
    pub current_batch_id: u64,
    pub inputs: Map<u64, Seq<InputRecord>>,
    pub tees: Map<Seq<u8>, bool>,
    pub attested: Set<u64>,
    pub state_root: Option<Seq<u8>>,
}

/// The input list recorded for a batch, empty when none was recorded.
pub open spec fn inputs_or_empty(m: CommitmentModel, batch_id: u64) -> Seq<InputRecord> {
    if m.inputs.contains_key(batch_id) {
        m.inputs[batch_id]
    } else {
        Seq::empty()
    }
}

/// Whether `key` is a registered, enabled TEE in `m`.
pub open spec fn tee_enabled(m: CommitmentModel, key: Seq<u8>) -> bool {
    m.tees.contains_key(key) && m.tees[key]
}

/// Transition of [`OnchainCommitment::register_tee`].
pub open spec fn model_register_tee(m: CommitmentModel, key: Seq<u8>) -> (CommitmentModel, bool) {
    if tee_enabled(m, key) {
        (m, false)
    } else {
        (
            CommitmentModel {
                current_batch_id: m.current_batch_id,
                inputs: m.inputs,
                tees: m.tees.insert(key, true),
                attested: m.attested,
                state_root: m.state_root,
            },
            true,
        )
    }
}

/// Transition of [`OnchainCommitment::submit_encrypted_input`].
pub open spec fn model_submit_input(
    m: CommitmentModel,
    submitter: Seq<char>,
    encrypted_data: Seq<char>,
    timestamp: u64,
) -> (CommitmentModel, Result<u64, Error>) {
    if encrypted_data.len() == 0 {
        (m, Err(Error::InvalidEncryptedData))
    } else {
        let cur = m.current_batch_id;
        let rec = InputRecord { encrypted_data, submitter, timestamp };
        (
            CommitmentModel {
                current_batch_id: m.current_batch_id,
                inputs: m.inputs.insert(cur, inputs_or_empty(m, cur).push(rec)),
                tees: m.tees,
                attested: m.attested,
                state_root: m.state_root,
            },
            Ok(cur),
        )
    }
}

/// Transition of [`OnchainCommitment::create_new_batch`].
pub open spec fn model_create_new_batch(m: CommitmentModel) -> (CommitmentModel, u64) {
    let new_id = (m.current_batch_id + 1) as u64;
    (
        CommitmentModel {
            current_batch_id: new_id,
            inputs: m.inputs,
            tees: m.tees,
            attested: m.attested,
            state_root: m.state_root,
        },
        new_id,
    )
}

/// Transition of [`OnchainCommitment::update_state_root`].
pub open spec fn model_update_state_root(m: CommitmentModel, root: Seq<u8>) -> CommitmentModel {
    CommitmentModel {
        current_batch_id: m.current_batch_id,
        inputs: m.inputs,
        tees: m.tees,
        attested: m.attested,
        state_root: Some(root),
    }
}

/// Transition of [`OnchainCommitment::submit_attestation`]: gated on an
/// enabled TEE key, refuses a second attestation of the same batch, and
/// otherwise atomically marks the batch attested and records the root.
pub open spec fn model_submit_attestation(
    m: CommitmentModel,
    key: Seq<u8>,
    batch_id: u64,
    root: Seq<u8>,
) -> (CommitmentModel, Result<(), Error>) {
    if !tee_enabled(m, key) {
        (m, Err(Error::TeeNotRegistered))
    } else if m.attested.contains(batch_id) {
        (m, Err(Error::BatchAlreadyAttested))
    } else {
        (
            CommitmentModel {
                current_batch_id: m.current_batch_id,
                inputs: m.inputs,
                tees: m.tees,
                attested: m.attested.insert(batch_id),
                state_root: Some(root),
            },
            Ok(()),
        )
    }
}

/// The batch/attestation contract with its storage held as plain data.
pub struct OnchainCommitment {
    pub current_batch_id: u64,
    pub inputs: Vec<(u64, Vec<InputCommitment>)>,
    pub tees: Vec<(Vec<u8>, bool)>,
    pub attested: Vec<u64>,
    pub state_root: Option<Vec<u8>>,
    pub events: Vec<LedgerEvent>,
}

/// View of a stored input list.
pub open spec fn input_seq_view(s: Seq<InputCommitment>) -> Seq<InputRecord> {
    s.map_values(|c: InputCommitment| c@)
}

impl OnchainCommitment {
    /// The per-batch input storage as key/value pairs over views.
    pub open spec fn inputs_entries(&self) -> Seq<(u64, Seq<InputRecord>)> {
        self.inputs@.map_values(|e: (u64, Vec<InputCommitment>)| (e.0, input_seq_view(e.1@)))
    }

    /// The TEE registry storage as key/value pairs over views.
    pub open spec fn tees_entries(&self) -> Seq<(Seq<u8>, bool)> {
        self.tees@.map_values(|e: (Vec<u8>, bool)| (e.0@, e.1))
    }

    /// Well-formedness: distinct storage keys, 32-byte keys and roots, and no
    /// input recorded under a batch id beyond the current one.
    pub open spec fn wf(&self) -> bool {
        &&& distinct_keys(self.inputs_entries())
        &&& distinct_keys(self.tees_entries())
        &&& forall|i: int| 0 <= i < self.tees@.len() ==> (#[trigger] self.tees@[i].0@).len() == 32
        &&& match self.state_root {
            Some(r) => r@.len() == 32,
            None => true,
        }
        &&& forall|i: int|
            0 <= i < self.inputs@.len() ==> (#[trigger] self.inputs@[i]).0 <= self.current_batch_id
    }
}

impl View for OnchainCommitment {
    type V = CommitmentModel;

    open spec fn view(&self) -> CommitmentModel {
        CommitmentModel {
            current_batch_id: self.current_batch_id,
            inputs: assoc_map(self.inputs_entries()),
            tees: assoc_map(self.tees_entries()),
            attested: self.attested@.to_set(),
            state_root: match self.state_root {
                Some(r) => Some(r@),
                None => None,
            },
        }
    }
}

impl OnchainCommitment {
    /// A contract in its initial state: batch 0 open, nothing recorded.
    pub fn new() -> (r: Self)
        ensures
            r.wf(),
            r@.current_batch_id == 0,
            r@.inputs =~= Map::<u64, Seq<InputRecord>>::empty(),
            r@.tees =~= Map::<Seq<u8>, bool>::empty(),
            r@.attested =~= Set::<u64>::empty(),
            r@.state_root is None,
            r.events@ =~= Seq::<LedgerEvent>::empty(),
    {
        let r = OnchainCommitment {
            current_batch_id: 0,
            inputs: Vec::new(),
            tees: Vec::new(),
            attested: Vec::new(),
            state_root: None,
            events: Vec::new(),
        };
        assert(r.inputs_entries() =~= Seq::<(u64, Seq<InputRecord>)>::empty());
        assert(r.tees_entries() =~= Seq::<(Seq<u8>, bool)>::empty());
        r
    }

    /// The id of the batch currently accepting inputs.
    pub fn current_batch_id(&self) -> (r: u64)
        ensures
            r == self@.current_batch_id,
    {
        self.current_batch_id
    }

    /// The current global state root, if any attestation recorded one.
    pub fn current_state_root(&self) -> (r: Option<Vec<u8>>)
        ensures
            r is Some <==> self@.state_root is Some,
            r matches Some(v) ==> self@.state_root matches Some(s) && v@ == s,
    {
        match &self.state_root {
            Some(v) => Some(copy_bytes(v)),
            None => None,
        }
    }

    /// Whether `batch_id` has been attested.
    pub fn batch_attested(&self, batch_id: u64) -> (r: bool)
        ensures
            r == self@.attested.contains(batch_id),
    {
        let n = self.attested.len();
        let mut i: usize = 0;
        while i < n
            invariant
                n == self.attested@.len(),
                0 <= i <= n,
                forall|j: int| 0 <= j < i ==> self.attested@[j] != batch_id,
            decreases n - i,
        {
            if self.attested[i] == batch_id {
                assert(self.attested@.contains(batch_id));
                return true;
            }
            i += 1;
        }
        assert(!self.attested@.contains(batch_id));
        false
    }

    /// Whether `tee_pubkey` is registered with its enabled flag set.
    pub fn is_tee_registered(&self, tee_pubkey: &Vec<u8>) -> (r: bool)
        requires
            self.wf(),
        ensures
            r == tee_enabled(self@, tee_pubkey@),
    {
        let n = self.tees.len();
        let mut i: usize = 0;
        while i < n
            invariant
                self.wf(),
                n == self.tees@.len(),
                0 <= i <= n,
                forall|j: int| 0 <= j < i ==> (#[trigger] self.tees@[j]).0@ != tee_pubkey@,
            decreases n - i,
        {
            if bytes_eq(&self.tees[i].0, tee_pubkey) {
                proof {
                    lemma_assoc_map_index(self.tees_entries(), i as int);
                }
                return self.tees[i].1;
            }
            i += 1;
        }
        proof {
            assert(forall|j: int|
                0 <= j < self.tees_entries().len() ==> (#[trigger] self.tees_entries()[j]).0
                    != tee_pubkey@);
            lemma_assoc_map_absent(self.tees_entries(), tee_pubkey@);
        }
        false
    }

    /// All input commitments recorded for `batch_id`, empty when none.
    pub fn batch_inputs(&self, batch_id: u64) -> (r: Vec<InputCommitment>)
        requires
            self.wf(),
        ensures
            input_seq_view(r@) =~= inputs_or_empty(self@, batch_id),
    {
        let n = self.inputs.len();
        let mut i: usize = 0;
        while i < n
            invariant
                self.wf(),
                n == self.inputs@.len(),
                0 <= i <= n,
                forall|j: int| 0 <= j < i ==> (#[trigger] self.inputs@[j]).0 != batch_id,
            decreases n - i,
        {
            if self.inputs[i].0 == batch_id {
                proof {
                    lemma_assoc_map_index(self.inputs_entries(), i as int);
                }
                let stored = &self.inputs[i].1;
                let m = stored.len();
                let mut r: Vec<InputCommitment> = Vec::new();
                let mut k: usize = 0;
                while k < m
                    invariant
                        m == stored@.len(),
                        0 <= k <= m,
                        r@.len() == k,
                        forall|j: int| 0 <= j < k ==> r@[j] == stored@[j],
                    decreases m - k,
                {
                    r.push(clone_input(&stored[k]));
                    k += 1;
                }
                assert(r@ =~= stored@);
                return r;
            }
            i += 1;
        }
        proof {
            assert(forall|j: int|
                0 <= j < self.inputs_entries().len() ==> (#[trigger] self.inputs_entries()[j]).0
                    != batch_id);
            lemma_assoc_map_absent(self.inputs_entries(), batch_id);
        }
        Vec::new()
    }

    /// Register a TEE public key, enabling it; reports `false` when the key
    /// is already registered and enabled.
    pub fn register_tee(&mut self, tee_pubkey: Vec<u8>) -> (r: bool)
        requires
            old(self).wf(),
            tee_pubkey@.len() == 32,
        ensures
            final(self).wf(),
            r == model_register_tee(old(self)@, tee_pubkey@).1,
            final(self)@ =~= model_register_tee(old(self)@, tee_pubkey@).0,
            r ==> final(self).events@.len() == old(self).events@.len() + 1
                && final(self).events@.drop_last() =~= old(self).events@
                && is_tee_registered_event(final(self).events@.last(), tee_pubkey@),
            !r ==> final(self).events@ == old(self).events@,
    {
        let n = self.tees.len();
        let mut i: usize = 0;
        #[verifier::loop_isolation(false)]
        while i < n
            invariant
                *self == *old(self),
                0 <= i <= n,
                forall|j: int| 0 <= j < i ==> (#[trigger] self.tees@[j]).0@ != tee_pubkey@,
            decreases n - i,
        {
            if bytes_eq(&self.tees[i].0, &tee_pubkey) {
                proof {
                    lemma_assoc_map_index(self.tees_entries(), i as int);
                }
                if self.tees[i].1 {
                    return false;
                }
                let mut entry = self.tees.remove(i);
                entry.1 = true;
                self.tees.insert(i, entry);
                proof {
                    assert(self.tees@ =~= old(self).tees@.update(
                        i as int,
                        (old(self).tees@[i as int].0, true),
                    ));
                    assert(self.tees_entries() =~= old(self).tees_entries().update(
                        i as int,
                        (tee_pubkey@, true),
                    ));
                    lemma_assoc_map_update(old(self).tees_entries(), i as int, true);
                    lemma_distinct_keys_update(
                        old(self).tees_entries(),
                        i as int,
                        true,
                    );
                }
                self.events.push(LedgerEvent::TeeRegistered { tee_pubkey });
                return true;
            }
            i += 1;
        }
        proof {
            assert(forall|j: int|
                0 <= j < self.tees_entries().len() ==> (#[trigger] self.tees_entries()[j]).0
                    != tee_pubkey@);
            lemma_assoc_map_absent(self.tees_entries(), tee_pubkey@);
        }
        let key_copy = copy_bytes(&tee_pubkey);
        self.tees.push((key_copy, true));
        proof {
            assert(self.tees_entries() =~= old(self).tees_entries().push((tee_pubkey@, true)));
            lemma_assoc_map_push(old(self).tees_entries(), tee_pubkey@, true);
            lemma_distinct_keys_push(old(self).tees_entries(), tee_pubkey@, true);
        }
        self.events.push(LedgerEvent::TeeRegistered { tee_pubkey });
        true
    }

    /// Append an encrypted input to the current batch; rejects an empty
    /// payload. Reports the batch id the input was recorded under.
    pub fn submit_encrypted_input(
        &mut self,
        submitter: String,
        encrypted_data: String,
        timestamp: u64,
    ) -> (r: Result<u64, Error>)
        requires
            old(self).wf(),
        ensures
            final(self).wf(),
            r == model_submit_input(old(self)@, submitter@, encrypted_data@, timestamp).1,
            final(self)@ =~= model_submit_input(old(self)@, submitter@, encrypted_data@,
                timestamp).0,
            r is Ok ==> final(self).events@.len() == old(self).events@.len() + 1
                && final(self).events@.drop_last() =~= old(self).events@
                && is_input_submitted_event(final(self).events@.last(),
                old(self)@.current_batch_id, submitter@),
            r is Err ==> final(self).events@ == old(self).events@,
    {
        if encrypted_data.as_str().is_empty() {
            return Err(Error::InvalidEncryptedData);
        }
        let cur = self.current_batch_id;
        let commitment = InputCommitment {
            encrypted_data,
            submitter: submitter.clone(),
            timestamp,
        };
        let ghost csnap = commitment;
        let ghost rec = commitment@;
        let n = self.inputs.len();
        let mut i: usize = 0;
        #[verifier::loop_isolation(false)]
        while i < n
            invariant
                *self == *old(self),
                0 <= i <= n,
                forall|j: int| 0 <= j < i ==> (#[trigger] self.inputs@[j]).0 != cur,
            decreases n - i,
        {
            if self.inputs[i].0 == cur {
                proof {
                    lemma_assoc_map_index(self.inputs_entries(), i as int);
                }
                let ghost old_list = self.inputs@[i as int].1@;
                let mut entry = self.inputs.remove(i);
                entry.1.push(commitment);
                self.inputs.insert(i, entry);
                proof {
                    assert(self.inputs@ =~= old(self).inputs@.update(
                        i as int,
                        self.inputs@[i as int],
                    ));
                    assert(self.inputs@[i as int].1@ == old_list.push(csnap));
                    assert(self.inputs_entries() =~= old(self).inputs_entries().update(
                        i as int,
                        (cur, input_seq_view(old_list.push(csnap))),
                    ));
                    assert(input_seq_view(old_list.push(csnap)) =~= input_seq_view(
                        old_list,
                    ).push(rec));
                    lemma_assoc_map_update(
                        old(self).inputs_entries(),
                        i as int,
                        input_seq_view(old_list).push(rec),
                    );
                    lemma_distinct_keys_update(
                        old(self).inputs_entries(),
                        i as int,
                        input_seq_view(old_list).push(rec),
                    );
                }
                self.events.push(LedgerEvent::EncryptedInputSubmitted { batch_id: cur, submitter });
                return Ok(cur);
            }
            i += 1;
        }
        proof {
            assert(forall|j: int|
                0 <= j < self.inputs_entries().len() ==> (#[trigger] self.inputs_entries()[j]).0
                    != cur);
            lemma_assoc_map_absent(self.inputs_entries(), cur);
        }
        let mut list: Vec<InputCommitment> = Vec::new();
        list.push(commitment);
        self.inputs.push((cur, list));
        proof {
            assert(self.inputs_entries() =~= old(self).inputs_entries().push((
                cur,
                input_seq_view(Seq::empty().push(csnap)),
            )));
            assert(input_seq_view(Seq::empty().push(csnap)) =~= Seq::<
                InputRecord,
            >::empty().push(rec));
            lemma_assoc_map_push(
                old(self).inputs_entries(),
                cur,
                Seq::<InputRecord>::empty().push(rec),
            );
            lemma_distinct_keys_push(
                old(self).inputs_entries(),
                cur,
                Seq::<InputRecord>::empty().push(rec),
            );
            assert(inputs_or_empty(old(self)@, cur).push(rec) =~= Seq::<
                InputRecord,
            >::empty().push(rec));
        }
        self.events.push(LedgerEvent::EncryptedInputSubmitted { batch_id: cur, submitter });
        Ok(cur)
    }

    /// Close the current batch by opening a new one; the new id is one more
    /// than the old.
    pub fn create_new_batch(&mut self) -> (r: u64)
        requires
            old(self).wf(),
            old(self)@.current_batch_id < u64::MAX,
        ensures
            final(self).wf(),
            r == model_create_new_batch(old(self)@).1,
            final(self)@ =~= model_create_new_batch(old(self)@).0,
            final(self).events@ == old(self).events@.push(LedgerEvent::NewBatchCreated {
                batch_id: r,
            }),
    {
        let new_id = self.current_batch_id + 1;
        self.current_batch_id = new_id;
        self.events.push(LedgerEvent::NewBatchCreated { batch_id: new_id });
        new_id
    }

    /// Overwrite the current global state root.
    pub fn update_state_root(&mut self, state_root: Vec<u8>)
        requires
            old(self).wf(),
            state_root@.len() == 32,
        ensures
            final(self).wf(),
            final(self)@ =~= model_update_state_root(old(self)@, state_root@),
            final(self).events@.len() == old(self).events@.len() + 1,
            final(self).events@.drop_last() =~= old(self).events@,
            is_state_root_updated_event(final(self).events@.last(), state_root@),
    {
        let event_root = copy_bytes(&state_root);
        self.state_root = Some(state_root);
        self.events.push(LedgerEvent::StateRootUpdated { state_root: event_root });
    }

    /// Attest a batch: only a registered, enabled TEE key may attest, each
    /// batch at most once; on success the batch is marked attested and the
    /// root becomes the global state root, atomically.
    pub fn submit_attestation(
        &mut self,
        tee_pubkey: &Vec<u8>,
        batch_id: u64,
        state_root: Vec<u8>,
    ) -> (r: Result<(), Error>)
        requires
            old(self).wf(),
            tee_pubkey@.len() == 32,
            state_root@.len() == 32,
        ensures
            final(self).wf(),
            r == model_submit_attestation(old(self)@, tee_pubkey@, batch_id, state_root@).1,
            final(self)@ =~= model_submit_attestation(old(self)@, tee_pubkey@, batch_id,
                state_root@).0,
            r is Ok ==> final(self).events@.len() == old(self).events@.len() + 1
                && final(self).events@.drop_last() =~= old(self).events@
                && is_batch_attested_event(final(self).events@.last(), batch_id, tee_pubkey@,
                state_root@),
            r is Err ==> final(self).events@ == old(self).events@,
    {
        if !self.is_tee_registered(tee_pubkey) {
            return Err(Error::TeeNotRegistered);
        }
        if self.batch_attested(batch_id) {
            return Err(Error::BatchAlreadyAttested);
        }
        self.attested.push(batch_id);
        let event_key = copy_bytes(tee_pubkey);
        let event_root = copy_bytes(&state_root);
        self.state_root = Some(state_root);
        self.events.push(LedgerEvent::BatchAttested {
            batch_id,
            tee_pubkey: event_key,
            state_root: event_root,
        });
        proof {
            assert(self.attested@ == old(self).attested@.push(batch_id));
            old(self).attested@.lemma_push_to_set_commute(batch_id);
        }
        Ok(())
    }
}

/// Attestation is idempotent: once an attestation of `batch_id` succeeds,
/// every later attestation of the same batch is rejected without any further
/// change of state, and with the same key the rejection names the
/// already-attested batch.
pub proof fn lemma_attestation_idempotent(
    m: CommitmentModel,
    key1: Seq<u8>,
    key2: Seq<u8>,
    batch_id: u64,
    root1: Seq<u8>,
    root2: Seq<u8>,
)
    ensures
        ({
            let (m1, r1) = model_submit_attestation(m, key1, batch_id, root1);
            let (m2, r2) = model_submit_attestation(m1, key2, batch_id, root2);
            r1 is Ok ==> r2 is Err && m2 == m1 && (key2 == key1 ==> r2 == Err::<(), Error>(
                Error::BatchAlreadyAttested,
            ))
        }),
{
}

/// Batch ids grow strictly: successive batch creations return ever larger
/// ids, and the first one after the initial state returns 1.
pub proof fn lemma_create_new_batch_monotonic(m: CommitmentModel)
    requires
        m.current_batch_id + 2 <= u64::MAX,
    ensures
        ({
            let (m1, id1) = model_create_new_batch(m);
            let (m2, id2) = model_create_new_batch(m1);
            m.current_batch_id < id1 < id2 && id1 == m.current_batch_id + 1 && (
            m.current_batch_id == 0 ==> id1 == 1)
        }),
{
}

/// Input routing: an accepted input lands under the batch id that was current
/// at submission time, and the inputs of every other batch are untouched.
pub proof fn lemma_input_routing(
    m: CommitmentModel,
    submitter: Seq<char>,
    encrypted_data: Seq<char>,
    timestamp: u64,
    other: u64,
)
    requires
        encrypted_data.len() > 0,
    ensures
        ({
            let (m1, r) = model_submit_input(m, submitter, encrypted_data, timestamp);
            let cur = m.current_batch_id;
            r == Ok::<u64, Error>(cur) && inputs_or_empty(m1, cur) == inputs_or_empty(
                m,
                cur,
            ).push(InputRecord { encrypted_data, submitter, timestamp }) && (other != cur
                ==> inputs_or_empty(m1, other) == inputs_or_empty(m, other))
        }),
{
}

/// Attestation gating: the call fails exactly when the key is not an enabled
/// registered TEE or the batch is already attested; otherwise it succeeds,
/// marks the batch attested and records the root — and by
/// [`lemma_attestation_idempotent`] it can succeed at most once per batch.
pub proof fn lemma_attestation_gating(
    m: CommitmentModel,
    key: Seq<u8>,
    batch_id: u64,
    root: Seq<u8>,
)
    ensures
        ({
            let (m1, r) = model_submit_attestation(m, key, batch_id, root);
            &&& (!tee_enabled(m, key) ==> r == Err::<(), Error>(Error::TeeNotRegistered) && m1
                == m)
            &&& (tee_enabled(m, key) && m.attested.contains(batch_id) ==> r == Err::<
                (),
                Error,
            >(Error::BatchAlreadyAttested) && m1 == m)
            &&& (tee_enabled(m, key) && !m.attested.contains(batch_id) ==> r == Ok::<
                (),
                Error,
            >(()) && m1.attested == m.attested.insert(batch_id) && m1.state_root == Some(root))
        }),
{
}

/// A fresh input commitment equal to the given one.
fn clone_input(c: &InputCommitment) -> (r: InputCommitment)
    ensures
        r == *c,
{
    InputCommitment {
        encrypted_data: c.encrypted_data.clone(),
        submitter: c.submitter.clone(),
        timestamp: c.timestamp,
    }
}

} // verus!
