//! The TEE registry contract: registration, enabling and disabling of TEE
//! public keys. A key, once registered, is never deleted; only its status
//! toggles. Only a registered and enabled key is a valid attester.

use vstd::prelude::*;

use crate::assoc::{
    assoc_map, distinct_keys, lemma_assoc_map_absent, lemma_assoc_map_domain,
    lemma_assoc_map_index, lemma_assoc_map_push, lemma_assoc_map_update, lemma_distinct_keys_push,
    lemma_distinct_keys_update,
};
use crate::bytesutil::{bytes_eq, copy_bytes};
use crate::shared::{is_tee_disabled_event, is_tee_enabled_event, is_tee_registered_event,
    LedgerEvent};

verus! {

/// Whether a registered TEE may currently attest.
#[derive(Copy, Clone, Debug, PartialEq, Eq, Structural)]
pub enum TeeStatus {
    Enabled,
    Disabled,
}

/// A registry entry: the key, its status, and when it was registered.
pub struct TeeInfo {
    pub pubkey: Vec<u8>,
    pub status: TeeStatus,
    pub registered_at: u64,
}

/// Rejection reasons of the registry contract.
#[derive(Copy, Clone, Debug, PartialEq, Eq, Structural)]
pub enum Error {
    TeeAlreadyRegistered,
    TeeNotRegistered,
    TeeDisabled,
}

/// Mathematical image of a registry entry, keyed separately by the pubkey.
pub ghost struct TeeRecord {
    pub status: TeeStatus,
    pub registered_at: u64,
}

/// The registry with its storage held as plain data.
pub struct TeeManagement {
    pub tees: Vec<TeeInfo>,
    pub events: Vec<LedgerEvent>,
}

/// Transition of [`TeeManagement::register_tee`].
pub open spec fn model_register_tee(
    m: Map<Seq<u8>, TeeRecord>,
    key: Seq<u8>,
    now: u64,
) -> (Map<Seq<u8>, TeeRecord>, bool) {
    if m.contains_key(key) {
        (m, false)
    } else {
        (m.insert(key, TeeRecord { status: TeeStatus::Enabled, registered_at: now }), true)
    }
}

/// Transition of [`TeeManagement::disable_tee`] /
/// [`TeeManagement::enable_tee`]: set the status of a present key.
pub open spec fn model_set_status(
    m: Map<Seq<u8>, TeeRecord>,
    key: Seq<u8>,
    status: TeeStatus,
) -> (Map<Seq<u8>, TeeRecord>, bool) {
    if m.contains_key(key) {
        (
            m.insert(key, TeeRecord { status, registered_at: m[key].registered_at }),
            true,
        )
    } else {
        (m, false)
    }
}

/// Whether `key` is registered and enabled.
pub open spec fn valid_tee(m: Map<Seq<u8>, TeeRecord>, key: Seq<u8>) -> bool {
    m.contains_key(key) && m[key].status == TeeStatus::Enabled
}

impl TeeManagement {
    /// The registry storage as key/value pairs over views.
    pub open spec fn entries(&self) -> Seq<(Seq<u8>, TeeRecord)> {
        self.tees@.map_values(
            |t: TeeInfo| (t.pubkey@, TeeRecord { status: t.status, registered_at: t.registered_at }),
        )
    }

    /// Well-formedness: distinct 32-byte keys.
    pub open spec fn wf(&self) -> bool {
        &&& distinct_keys(self.entries())
        &&& forall|i: int| 0 <= i < self.tees@.len() ==> (#[trigger] self.tees@[i].pubkey@).len()
            == 32
    }
}

impl View for TeeManagement {
    type V = Map<Seq<u8>, TeeRecord>;

    open spec fn view(&self) -> Map<Seq<u8>, TeeRecord> {
        assoc_map(self.entries())
    }
}

impl TeeManagement {
    /// An empty registry.
    pub fn new() -> (r: Self)
        ensures
            r.wf(),
            r@ =~= Map::<Seq<u8>, TeeRecord>::empty(),
            r.events@ =~= Seq::<LedgerEvent>::empty(),
    {
        let r = TeeManagement { tees: Vec::new(), events: Vec::new() };
        assert(r.entries() =~= Seq::<(Seq<u8>, TeeRecord)>::empty());
        r
    }

    /// The index of the entry holding `key`, if registered.
    fn find_index(&self, tee_pubkey: &Vec<u8>) -> (r: Option<usize>)
        requires
            self.wf(),
        ensures
            r matches Some(i) ==> i < self.tees@.len() && self.tees@[i as int].pubkey@
                == tee_pubkey@,
            r is None ==> !self@.contains_key(tee_pubkey@),
            r is Some <==> self@.contains_key(tee_pubkey@),
    {
        let n = self.tees.len();
        let mut i: usize = 0;
        #[verifier::loop_isolation(false)]
        while i < n
            invariant
                0 <= i <= n,
                forall|j: int| 0 <= j < i ==> (#[trigger] self.tees@[j].pubkey@) != tee_pubkey@,
            decreases n - i,
        {
            if bytes_eq(&self.tees[i].pubkey, tee_pubkey) {
                proof {
                    lemma_assoc_map_index(self.entries(), i as int);
                }
                return Some(i);
            }
            i += 1;
        }
        proof {
            assert(forall|j: int|
                0 <= j < self.entries().len() ==> (#[trigger] self.entries()[j]).0 != tee_pubkey@);
            lemma_assoc_map_absent(self.entries(), tee_pubkey@);
        }
        None
    }

    /// Register a TEE key as enabled; reports `false` when already present.
    pub fn register_tee(&mut self, tee_pubkey: Vec<u8>, now: u64) -> (r: bool)
        requires
            old(self).wf(),
            tee_pubkey@.len() == 32,
        ensures
            final(self).wf(),
            r == model_register_tee(old(self)@, tee_pubkey@, now).1,
            final(self)@ =~= model_register_tee(old(self)@, tee_pubkey@, now).0,
            r ==> final(self).events@.len() == old(self).events@.len() + 1
                && final(self).events@.drop_last() =~= old(self).events@
                && is_tee_registered_event(final(self).events@.last(), tee_pubkey@),
            !r ==> final(self).events@ == old(self).events@,
    {
        if self.find_index(&tee_pubkey).is_some() {
            return false;
        }
        let key_copy = copy_bytes(&tee_pubkey);
        self.tees.push(TeeInfo { pubkey: key_copy, status: TeeStatus::Enabled, registered_at: now });
        proof {
            lemma_assoc_map_domain(old(self).entries(), tee_pubkey@);
            assert(self.entries() =~= old(self).entries().push(
                (tee_pubkey@, TeeRecord { status: TeeStatus::Enabled, registered_at: now }),
            ));
            lemma_assoc_map_push(
                old(self).entries(),
                tee_pubkey@,
                TeeRecord { status: TeeStatus::Enabled, registered_at: now },
            );
            lemma_distinct_keys_push(
                old(self).entries(),
                tee_pubkey@,
                TeeRecord { status: TeeStatus::Enabled, registered_at: now },
            );
        }
        self.events.push(LedgerEvent::TeeRegistered { tee_pubkey });
        true
    }

    /// Set the status of a registered key; reports `false` when absent.
    fn set_status(&mut self, tee_pubkey: &Vec<u8>, status: TeeStatus) -> (r: bool)
        requires
            old(self).wf(),
        ensures
            final(self).wf(),
            r == model_set_status(old(self)@, tee_pubkey@, status).1,
            final(self)@ =~= model_set_status(old(self)@, tee_pubkey@, status).0,
            final(self).events@ == old(self).events@,
    {
        match self.find_index(tee_pubkey) {
            Some(i) => {
                proof {
                    lemma_assoc_map_index(self.entries(), i as int);
                }
                let mut entry = self.tees.remove(i);
                entry.status = status;
                self.tees.insert(i, entry);
                proof {
                    assert(self.tees@ =~= old(self).tees@.update(
                        i as int,
                        self.tees@[i as int],
                    ));
                    let rec = TeeRecord {
                        status,
                        registered_at: old(self).tees@[i as int].registered_at,
                    };
                    assert(self.entries() =~= old(self).entries().update(
                        i as int,
                        (tee_pubkey@, rec),
                    ));
                    lemma_assoc_map_update(old(self).entries(), i as int, rec);
                    lemma_distinct_keys_update(old(self).entries(), i as int, rec);
                }
                true
            },
            None => false,
        }
    }

    /// Mark a registered TEE as disabled, keeping it in the registry.
    pub fn disable_tee(&mut self, tee_pubkey: &Vec<u8>) -> (r: bool)
        requires
            old(self).wf(),
        ensures
            final(self).wf(),
            r == model_set_status(old(self)@, tee_pubkey@, TeeStatus::Disabled).1,
            final(self)@ =~= model_set_status(old(self)@, tee_pubkey@, TeeStatus::Disabled).0,
            r ==> final(self).events@.len() == old(self).events@.len() + 1
                && final(self).events@.drop_last() =~= old(self).events@
                && is_tee_disabled_event(final(self).events@.last(), tee_pubkey@),
            !r ==> final(self).events@ == old(self).events@,
    {
        if self.set_status(tee_pubkey, TeeStatus::Disabled) {
            let event_key = copy_bytes(tee_pubkey);
            self.events.push(LedgerEvent::TeeDisabled { tee_pubkey: event_key });
            true
        } else {
            false
        }
    }

    /// Re-enable a previously disabled TEE.
    pub fn enable_tee(&mut self, tee_pubkey: &Vec<u8>) -> (r: bool)
        requires
            old(self).wf(),
        ensures
            final(self).wf(),
            r == model_set_status(old(self)@, tee_pubkey@, TeeStatus::Enabled).1,
            final(self)@ =~= model_set_status(old(self)@, tee_pubkey@, TeeStatus::Enabled).0,
            r ==> final(self).events@.len() == old(self).events@.len() + 1
                && final(self).events@.drop_last() =~= old(self).events@
                && is_tee_enabled_event(final(self).events@.last(), tee_pubkey@),
            !r ==> final(self).events@ == old(self).events@,
    {
        if self.set_status(tee_pubkey, TeeStatus::Enabled) {
            let event_key = copy_bytes(tee_pubkey);
            self.events.push(LedgerEvent::TeeEnabled { tee_pubkey: event_key });
            true
        } else {
            false
        }
    }

    /// Whether `tee_pubkey` is registered and enabled.
    pub fn is_valid_tee(&self, tee_pubkey: &Vec<u8>) -> (r: bool)
        requires
            self.wf(),
        ensures
            r == valid_tee(self@, tee_pubkey@),
    {
        match self.find_index(tee_pubkey) {
            Some(i) => {
                proof {
                    lemma_assoc_map_index(self.entries(), i as int);
                }
                match self.tees[i].status {
                    TeeStatus::Enabled => true,
                    TeeStatus::Disabled => false,
                }
            },
            None => false,
        }
    }

    /// Whether `tee_pubkey` is registered, whatever its status.
    pub fn is_tee_registered(&self, tee_pubkey: &Vec<u8>) -> (r: bool)
        requires
            self.wf(),
        ensures
            r == self@.contains_key(tee_pubkey@),
    {
        self.find_index(tee_pubkey).is_some()
    }

    /// The registry entry of `tee_pubkey`, if registered.
    pub fn get_tee_info(&self, tee_pubkey: &Vec<u8>) -> (r: Option<TeeInfo>)
        requires
            self.wf(),
        ensures
            r is Some <==> self@.contains_key(tee_pubkey@),
            r matches Some(info) ==> info.pubkey@ == tee_pubkey@
                && info.status == self@[tee_pubkey@].status
                && info.registered_at == self@[tee_pubkey@].registered_at,
    {
        match self.find_index(tee_pubkey) {
            Some(i) => {
                proof {
                    lemma_assoc_map_index(self.entries(), i as int);
                }
                Some(clone_tee_info(&self.tees[i]))
            },
            None => None,
        }
    }

    /// All registry entries, in registration order.
    pub fn get_all_tees(&self) -> (r: Vec<TeeInfo>)
        requires
            self.wf(),
        ensures
            r@.len() == self.tees@.len(),
            forall|i: int| 0 <= i < r@.len() ==> (#[trigger] r@[i]).pubkey@
                == self.tees@[i].pubkey@ && r@[i].status == self.tees@[i].status
                && r@[i].registered_at == self.tees@[i].registered_at,
    {
        let n = self.tees.len();
        let mut r: Vec<TeeInfo> = Vec::new();
        let mut i: usize = 0;
        #[verifier::loop_isolation(false)]
        while i < n
            invariant
                0 <= i <= n,
                r@.len() == i,
                forall|j: int| 0 <= j < i ==> (#[trigger] r@[j]).pubkey@ == self.tees@[j].pubkey@
                    && r@[j].status == self.tees@[j].status && r@[j].registered_at
                    == self.tees@[j].registered_at,
            decreases n - i,
        {
            r.push(clone_tee_info(&self.tees[i]));
            i += 1;
        }
        r
    }
}

/// A fresh registry entry with the same key bytes, status and timestamp.
fn clone_tee_info(t: &TeeInfo) -> (r: TeeInfo)
    ensures
        r.pubkey@ == t.pubkey@,
        r.status == t.status,
        r.registered_at == t.registered_at,
{
    TeeInfo { pubkey: copy_bytes(&t.pubkey), status: t.status, registered_at: t.registered_at }
}

/// Status transitions: a fresh registration is enabled; disabling keeps the
/// key registered but makes it invalid; enabling makes it valid again; the
/// registration timestamp never changes.
pub proof fn lemma_tee_status_transitions(m: Map<Seq<u8>, TeeRecord>, key: Seq<u8>, now: u64)
    requires
        !m.contains_key(key),
    ensures
        ({
            let (m1, r1) = model_register_tee(m, key, now);
            let (m2, r2) = model_set_status(m1, key, TeeStatus::Disabled);
            let (m3, r3) = model_set_status(m2, key, TeeStatus::Enabled);
            &&& r1 && r2 && r3
            &&& valid_tee(m1, key)
            &&& m2.contains_key(key) && !valid_tee(m2, key)
            &&& valid_tee(m3, key)
            &&& m1[key].registered_at == now && m2[key].registered_at == now
                && m3[key].registered_at == now
        }),
{
}

} // verus!
