use vstd::prelude::*;

use crate::errors::Error;
use crate::keys::{key_bytes, lemma_key_bytes_injective, KeyView, StorageKey};
use crate::store::{Entry, KvStore, Stored, StoredView};
use crate::types::{copy_bytes, Address, Attestation, AttestationView};

verus! {

/// Ledgers in a day.
pub const DAY_IN_LEDGERS: u32 = 17280;

/// Horizon of the short-lived class (admin, counter): thirty days.
pub const INSTANCE_LIFETIME: u32 = DAY_IN_LEDGERS * 30;

/// Horizon of the long-lived class (attestor flags, attestations, used
/// hashes): ninety days.
pub const PERSISTENT_LIFETIME: u32 = DAY_IN_LEDGERS * 90;

/// Whether a key belongs to the short-lived class.
pub open spec fn is_instance_key(k: KeyView) -> bool {
    k is Admin || k is Counter
}

/// The horizon of a record after a write at ledger `ledger`: the record is
/// kept at least `lifetime` ledgers further, and never less than before.
pub open spec fn extended(prev: Option<Entry>, ledger: u32, lifetime: u32) -> u64 {
    let target = (ledger as u64 + lifetime as u64) as u64;
    match prev {
        Some(e) => if e.live_until < target { target } else { e.live_until },
        None => target,
    }
}

/// The logical content of the registry's persisted state.
pub struct StorageView {
    /// The admin identity, once set.
    pub admin: Option<Seq<u8>>,
    /// The next identifier to hand out.
    pub counter: u64,
    /// The attestor flag of each identity that ever had one written
    /// (`false` is a removed attestor).
    pub attestors: Map<Seq<u8>, bool>,
    /// The stored attestations, by identifier.
    pub attestations: Map<u64, AttestationView>,
    /// The payload hashes already consumed.
    pub used_hashes: Set<Seq<u8>>,
    /// The expiry horizon of each stored record, by logical key.
    pub live_until: Map<KeyView, u64>,
}

/// The registry's persisted state: a short-lived tier for the admin and the
/// counter, and a long-lived tier for everything else. Each record sits under
/// the storage key of its logical key.
pub struct Storage {
    instance: KvStore,
    persistent: KvStore,
}

impl Storage {
    pub closed spec fn wf(&self) -> bool {
        self.instance.wf() && self.persistent.wf()
    }

    /// The entry stored under a logical key, in the tier that its class uses.
    pub closed spec fn lookup(&self, k: KeyView) -> Option<Entry> {
        if is_instance_key(k) {
            self.instance@.get(key_bytes(k))
        } else {
            self.persistent@.get(key_bytes(k))
        }
    }
}

pub open spec fn flag_of(e: Option<Entry>) -> Option<bool> {
    match e {
        Some(Entry { value: StoredView::Flag(b), .. }) => Some(b),
        _ => None,
    }
}

pub open spec fn admin_of(e: Option<Entry>) -> Option<Seq<u8>> {
    match e {
        Some(Entry { value: StoredView::Address(a), .. }) => Some(a),
        _ => None,
    }
}

pub open spec fn counter_of(e: Option<Entry>) -> u64 {
    match e {
        Some(Entry { value: StoredView::Counter(n), .. }) => n,
        _ => 0,
    }
}

pub open spec fn record_of(e: Option<Entry>) -> Option<AttestationView> {
    match e {
        Some(Entry { value: StoredView::Record(r), .. }) => Some(r),
        _ => None,
    }
}

impl View for Storage {
    type V = StorageView;

    open spec fn view(&self) -> StorageView {
        StorageView {
            admin: admin_of(self.lookup(KeyView::Admin)),
            counter: counter_of(self.lookup(KeyView::Counter)),
            attestors: Map::new(
                |a: Seq<u8>| flag_of(self.lookup(KeyView::Attestor(a))) is Some,
                |a: Seq<u8>| flag_of(self.lookup(KeyView::Attestor(a)))->Some_0,
            ),
            attestations: Map::new(
                |id: u64| record_of(self.lookup(KeyView::Attestation(id))) is Some,
                |id: u64| record_of(self.lookup(KeyView::Attestation(id)))->Some_0,
            ),
            used_hashes: Set::new(
                |h: Seq<u8>| flag_of(self.lookup(KeyView::UsedHash(h))) == Some(true),
            ),
            live_until: Map::new(
                |k: KeyView| self.lookup(k) is Some,
                |k: KeyView| self.lookup(k)->Some_0.live_until,
            ),
        }
    }
}

/// Whether an identity is an authorized attestor in a state: its flag is set
/// and true. An identity without a flag is no attestor.
pub open spec fn attestor_in(s: StorageView, a: Seq<u8>) -> bool {
    s.attestors.contains_key(a) && s.attestors[a]
}

/// The state after writing `value` under logical key `k` at ledger `ledger`.
pub open spec fn after_write(s: StorageView, k: KeyView, value: StoredView, ledger: u32) -> StorageView {
    let lifetime = if is_instance_key(k) { INSTANCE_LIFETIME } else { PERSISTENT_LIFETIME };
    let prev = if s.live_until.contains_key(k) {
        Some(Entry { value, live_until: s.live_until[k] })
    } else {
        None
    };
    let s2 = StorageView { live_until: s.live_until.insert(k, extended(prev, ledger, lifetime)), ..s };
    let e = Some(Entry { value, live_until: 0 });
    match k {
        KeyView::Admin => StorageView { admin: admin_of(e), ..s2 },
        KeyView::Counter => StorageView { counter: counter_of(e), ..s2 },
        KeyView::Attestor(a) => StorageView {
            attestors: match flag_of(e) {
                Some(b) => s.attestors.insert(a, b),
                None => s.attestors.remove(a),
            },
            ..s2
        },
        KeyView::Attestation(id) => StorageView {
            attestations: match record_of(e) {
                Some(r) => s.attestations.insert(id, r),
                None => s.attestations.remove(id),
            },
            ..s2
        },
        KeyView::UsedHash(h) => StorageView {
            used_hashes: if flag_of(e) == Some(true) {
                s.used_hashes.insert(h)
            } else {
                s.used_hashes.remove(h)
            },
            ..s2
        },
    }
}

impl Storage {
    /// An empty registry state.
    pub fn new() -> (r: Storage)
        ensures
            r.wf(),
            r@.admin is None,
            r@.counter == 0,
            r@.attestors == Map::<Seq<u8>, bool>::empty(),
            r@.attestations == Map::<u64, AttestationView>::empty(),
            r@.used_hashes == Set::<Seq<u8>>::empty(),
            r@.live_until == Map::<KeyView, u64>::empty(),
    {
        let r = Storage { instance: KvStore::new(), persistent: KvStore::new() };
        assert(r@.attestors =~= Map::<Seq<u8>, bool>::empty());
        assert(r@.attestations =~= Map::<u64, AttestationView>::empty());
        assert(r@.used_hashes =~= Set::<Seq<u8>>::empty());
        assert(r@.live_until =~= Map::<KeyView, u64>::empty());
        r
    }

    proof fn lemma_write(old_s: Storage, new_s: Storage, k: KeyView, e: Entry)
        requires
            is_instance_key(k) ==> new_s.instance@ == old_s.instance@.insert(key_bytes(k), e)
                && new_s.persistent@ == old_s.persistent@,
            !is_instance_key(k) ==> new_s.persistent@ == old_s.persistent@.insert(key_bytes(k), e)
                && new_s.instance@ == old_s.instance@,
        ensures
            forall|k2: KeyView| #[trigger] new_s.lookup(k2) == if k2 == k { Some(e) } else { old_s.lookup(k2) },
    {
        assert forall|k2: KeyView| #[trigger] new_s.lookup(k2) == if k2 == k { Some(e) } else { old_s.lookup(k2) } by {
            lemma_key_bytes_injective(k, k2);
        }
    }

    proof fn lemma_view_after_write(old_s: Storage, new_s: Storage, k: KeyView, value: StoredView, ledger: u32)
        requires
            forall|k2: KeyView| #[trigger] new_s.lookup(k2) == if k2 == k {
                Some(Entry {
                    value,
                    live_until: extended(
                        old_s.lookup(k),
                        ledger,
                        if is_instance_key(k) { INSTANCE_LIFETIME } else { PERSISTENT_LIFETIME },
                    ),
                })
            } else {
                old_s.lookup(k2)
            },
        ensures
            new_s@ == after_write(old_s@, k, value, ledger),
    {
        let lifetime = if is_instance_key(k) { INSTANCE_LIFETIME } else { PERSISTENT_LIFETIME };
        let prev = if old_s@.live_until.contains_key(k) {
            Some(Entry { value, live_until: old_s@.live_until[k] })
        } else {
            None
        };
        assert(extended(prev, ledger, lifetime) == extended(old_s.lookup(k), ledger, lifetime));
        let expected = after_write(old_s@, k, value, ledger);
        assert(new_s@.attestors =~= expected.attestors);
        assert(new_s@.attestations =~= expected.attestations);
        assert(new_s@.used_hashes =~= expected.used_hashes);
        assert(new_s@.live_until =~= expected.live_until);
    }

    fn write(&mut self, k: &StorageKey, value: Stored, ledger: u32)
        requires
            old(self).wf(),
        ensures
            final(self).wf(),
            final(self)@ == after_write(old(self)@, k@, value@, ledger),
    {
        let key = k.to_storage_key();
        let ghost value_view = value@;
        let ghost old_s = *old(self);
        let is_instance = match k {
            StorageKey::Admin => true,
            StorageKey::Counter => true,
            _ => false,
        };
        let lifetime: u32 = if is_instance { INSTANCE_LIFETIME } else { PERSISTENT_LIFETIME };
        let tier = if is_instance { &self.instance } else { &self.persistent };
        let prev = tier.live_until(key.as_slice());
        let target: u64 = ledger as u64 + lifetime as u64;
        let live_until: u64 = match prev {
            Some(t) => if t < target { target } else { t },
            None => target,
        };
        let ghost e = Entry { value: value_view, live_until };
        if is_instance {
            self.instance.set(key, value, live_until);
        } else {
            self.persistent.set(key, value, live_until);
        }
        proof {
            Self::lemma_write(old_s, *self, k@, e);
            Self::lemma_view_after_write(old_s, *self, k@, value_view, ledger);
        }
    }

    /// The expiry horizon of the record under a logical key, if one is stored.
    pub fn live_until(&self, k: &StorageKey) -> (r: Option<u64>)
        requires
            self.wf(),
        ensures
            match r {
                Some(t) => self@.live_until.contains_key(k@) && self@.live_until[k@] == t,
                None => !self@.live_until.contains_key(k@),
            },
    {
        let key = k.to_storage_key();
        let is_instance = match k {
            StorageKey::Admin => true,
            StorageKey::Counter => true,
            _ => false,
        };
        if is_instance {
            self.instance.live_until(key.as_slice())
        } else {
            self.persistent.live_until(key.as_slice())
        }
    }

    /// Whether the admin is set.
    pub fn has_admin(&self) -> (r: bool)
        requires
            self.wf(),
        ensures
            r == self@.admin is Some,
    {
        let key = StorageKey::Admin.to_storage_key();
        match self.instance.get(key.as_slice()) {
            Some(Stored::Address(_)) => true,
            _ => false,
        }
    }

    /// Sets the admin and refreshes its horizon.
    pub fn set_admin(&mut self, admin: &Address, ledger: u32)
        requires
            old(self).wf(),
        ensures
            final(self).wf(),
            final(self)@ == after_write(old(self)@, KeyView::Admin, StoredView::Address(admin@), ledger),
    {
        self.write(&StorageKey::Admin, Stored::Address(admin.duplicate()), ledger);
    }

    /// The admin, or `NotInitialized` where none is set.
    pub fn get_admin(&self) -> (r: Result<Address, Error>)
        requires
            self.wf(),
        ensures
            match self@.admin {
                Some(a) => r matches Ok(x) && x@ == a,
                None => r == Err::<Address, Error>(Error::NotInitialized),
            },
    {
        let key = StorageKey::Admin.to_storage_key();
        match self.instance.get(key.as_slice()) {
            Some(Stored::Address(a)) => Ok(a.duplicate()),
            _ => Err(Error::NotInitialized),
        }
    }

    /// Writes the attestor flag of an identity and refreshes its horizon.
    pub fn set_attestor(&mut self, attestor: &Address, is_registered: bool, ledger: u32)
        requires
            old(self).wf(),
        ensures
            final(self).wf(),
            final(self)@ == after_write(
                old(self)@,
                KeyView::Attestor(attestor@),
                StoredView::Flag(is_registered),
                ledger,
            ),
    {
        self.write(&StorageKey::Attestor(attestor.duplicate()), Stored::Flag(is_registered), ledger);
    }

    /// Whether an identity is an authorized attestor (false where no flag was
    /// ever written).
    pub fn is_attestor(&self, attestor: &Address) -> (r: bool)
        requires
            self.wf(),
        ensures
            r == attestor_in(self@, attestor@),
    {
        let key = StorageKey::Attestor(attestor.duplicate()).to_storage_key();
        match self.persistent.get(key.as_slice()) {
            Some(Stored::Flag(b)) => *b,
            _ => false,
        }
    }

    /// Hands out the next identifier: returns the counter and advances it by
    /// one, refreshing its horizon.
    pub fn get_and_increment_counter(&mut self, ledger: u32) -> (r: u64)
        requires
            old(self).wf(),
            old(self)@.counter < u64::MAX,
        ensures
            final(self).wf(),
            r == old(self)@.counter,
            final(self)@ == after_write(old(self)@, KeyView::Counter, StoredView::Counter((r + 1) as u64), ledger),
    {
        let key = StorageKey::Counter.to_storage_key();
        let counter: u64 = match self.instance.get(key.as_slice()) {
            Some(Stored::Counter(n)) => *n,
            _ => 0,
        };
        self.write(&StorageKey::Counter, Stored::Counter(counter + 1), ledger);
        counter
    }

    /// The next identifier that [`Storage::get_and_increment_counter`] hands out.
    pub fn peek_counter(&self) -> (r: u64)
        requires
            self.wf(),
        ensures
            r == self@.counter,
    {
        let key = StorageKey::Counter.to_storage_key();
        match self.instance.get(key.as_slice()) {
            Some(Stored::Counter(n)) => *n,
            _ => 0,
        }
    }

    /// Stores an attestation under an identifier and refreshes its horizon.
    pub fn set_attestation(&mut self, id: u64, attestation: &Attestation, ledger: u32)
        requires
            old(self).wf(),
        ensures
            final(self).wf(),
            final(self)@ == after_write(
                old(self)@,
                KeyView::Attestation(id),
                StoredView::Record(attestation@),
                ledger,
            ),
    {
        self.write(&StorageKey::Attestation(id), Stored::Record(attestation.duplicate()), ledger);
    }

    /// The attestation stored under an identifier, or `AttestationNotFound`.
    pub fn get_attestation(&self, id: u64) -> (r: Result<Attestation, Error>)
        requires
            self.wf(),
        ensures
            match r {
                Ok(x) => self@.attestations.contains_key(id) && x@ == self@.attestations[id],
                Err(e) => !self@.attestations.contains_key(id) && e == Error::AttestationNotFound,
            },
    {
        let key = StorageKey::Attestation(id).to_storage_key();
        match self.persistent.get(key.as_slice()) {
            Some(Stored::Record(a)) => Ok(a.duplicate()),
            _ => Err(Error::AttestationNotFound),
        }
    }

    /// Marks a payload hash as consumed and refreshes its horizon.
    pub fn mark_hash_used(&mut self, hash: &Vec<u8>, ledger: u32)
        requires
            old(self).wf(),
        ensures
            final(self).wf(),
            final(self)@ == after_write(old(self)@, KeyView::UsedHash(hash@), StoredView::Flag(true), ledger),
    {
        self.write(&StorageKey::UsedHash(copy_bytes(hash)), Stored::Flag(true), ledger);
    }

    /// Whether a payload hash was already consumed.
    pub fn is_hash_used(&self, hash: &Vec<u8>) -> (r: bool)
        requires
            self.wf(),
        ensures
            r == self@.used_hashes.contains(hash@),
    {
        let key = StorageKey::UsedHash(copy_bytes(hash)).to_storage_key();
        match self.persistent.get(key.as_slice()) {
            Some(Stored::Flag(b)) => *b,
            _ => false,
        }
    }
}

} // verus!
