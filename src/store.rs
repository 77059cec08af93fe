use vstd::prelude::*;

use crate::types::{bytes_equal, Address, Attestation, AttestationView};

verus! {

/// A value held by the store.
pub enum Stored {
    Address(Address),
    Flag(bool),
    Counter(u64),
    Record(Attestation),
}

/// The mathematical value of a [`Stored`].
pub enum StoredView {
    Address(Seq<u8>),
    Flag(bool),
    Counter(u64),
    Record(AttestationView),
}

impl View for Stored {
    type V = StoredView;

    open spec fn view(&self) -> StoredView {
        match self {
            Stored::Address(a) => StoredView::Address(a@),
            Stored::Flag(b) => StoredView::Flag(*b),
            Stored::Counter(n) => StoredView::Counter(*n),
            Stored::Record(r) => StoredView::Record(r@),
        }
    }
}

/// What the store holds under one key: the value, and the ledger up to which
/// the record must be kept.
pub struct Entry {
    pub value: StoredView,
    pub live_until: u64,
}

struct Slot {
    key: Vec<u8>,
    value: Stored,
    live_until: u64,
}

impl Slot {
    spec fn entry(&self) -> Entry {
        Entry { value: self.value@, live_until: self.live_until }
    }
}

/// A key-value store with an expiry horizon on each record. Keys are byte
/// strings; each key holds at most one entry.
pub struct KvStore {
    slots: Vec<Slot>,
    model: Ghost<Map<Seq<u8>, Entry>>,
}

impl View for KvStore {
    type V = Map<Seq<u8>, Entry>;

    closed spec fn view(&self) -> Map<Seq<u8>, Entry> {
        self.model@
    }
}

impl KvStore {
    /// The slots agree with the model, and no key occurs twice.
    pub closed spec fn wf(&self) -> bool {
        &&& forall|i: int|
            0 <= i < self.slots@.len() ==> #[trigger] self.model@.contains_key(self.slots@[i].key@)
                && self.model@[self.slots@[i].key@] == self.slots@[i].entry()
        &&& forall|k: Seq<u8>|
            #[trigger] self.model@.contains_key(k) ==> exists|i: int|
                0 <= i < self.slots@.len() && #[trigger] self.slots@[i].key@ == k
        &&& forall|i: int, j: int|
            0 <= i < self.slots@.len() && 0 <= j < self.slots@.len() && i != j
                ==> #[trigger] self.slots@[i].key@ != #[trigger] self.slots@[j].key@
    }

    pub fn new() -> (r: KvStore)
        ensures
            r.wf(),
            r@ == Map::<Seq<u8>, Entry>::empty(),
    {
        KvStore { slots: Vec::new(), model: Ghost(Map::empty()) }
    }

    fn find(&self, key: &[u8]) -> (r: Option<usize>)
        requires
            self.wf(),
        ensures
            match r {
                Some(i) => i < self.slots@.len() && self.slots@[i as int].key@ == key@,
                None => !self@.contains_key(key@),
            },
    {
        let mut i: usize = 0;
        while i < self.slots.len()
            invariant
                self.wf(),
                i <= self.slots@.len(),
                forall|j: int| 0 <= j < i ==> self.slots@[j].key@ != key@,
            decreases self.slots@.len() - i,
        {
            if bytes_equal(self.slots[i].key.as_slice(), key) {
                return Some(i);
            }
            i += 1;
        }
        None
    }

    /// Whether the store holds an entry under `key`.
    pub fn has(&self, key: &[u8]) -> (r: bool)
        requires
            self.wf(),
        ensures
            r == self@.contains_key(key@),
    {
        match self.find(key) {
            Some(i) => {
                proof {
                    assert(self.model@.contains_key(self.slots@[i as int].key@));
                }
                true
            },
            None => false,
        }
    }

    /// The value stored under `key`, if any.
    pub fn get(&self, key: &[u8]) -> (r: Option<&Stored>)
        requires
            self.wf(),
        ensures
            match r {
                Some(v) => self@.contains_key(key@) && self@[key@].value == v@,
                None => !self@.contains_key(key@),
            },
    {
        match self.find(key) {
            Some(i) => {
                proof {
                    assert(self.model@.contains_key(self.slots@[i as int].key@));
                }
                Some(&self.slots[i].value)
            },
            None => None,
        }
    }

    /// The ledger up to which the entry under `key` is kept, if there is one.
    pub fn live_until(&self, key: &[u8]) -> (r: Option<u64>)
        requires
            self.wf(),
        ensures
            match r {
                Some(t) => self@.contains_key(key@) && self@[key@].live_until == t,
                None => !self@.contains_key(key@),
            },
    {
        match self.find(key) {
            Some(i) => {
                proof {
                    assert(self.model@.contains_key(self.slots@[i as int].key@));
                }
                Some(self.slots[i].live_until)
            },
            None => None,
        }
    }

    /// Stores `value` under `key`, kept up to ledger `live_until`, replacing
    /// any earlier entry under that key.
    pub fn set(&mut self, key: Vec<u8>, value: Stored, live_until: u64)
        requires
            old(self).wf(),
        ensures
            final(self).wf(),
            final(self)@ == old(self)@.insert(key@, Entry { value: value@, live_until }),
    {
        let ghost k = key@;
        let ghost e = Entry { value: value@, live_until };
        match self.find(key.as_slice()) {
            Some(i) => {
                let slot = Slot { key, value, live_until };
                self.slots.set(i, slot);
                self.model = Ghost(self.model@.insert(k, e));
                assert forall|kk: Seq<u8>| #[trigger] self.model@.contains_key(kk) implies exists|j: int|
                    0 <= j < self.slots@.len() && #[trigger] self.slots@[j].key@ == kk by {
                    if kk != k {
                        let j = choose|j: int| 0 <= j < old(self).slots@.len() && #[trigger] old(self).slots@[j].key@ == kk;
                        assert(self.slots@[j].key@ == kk);
                    } else {
                        assert(self.slots@[i as int].key@ == kk);
                    }
                }
            },
            None => {
                let slot = Slot { key, value, live_until };
                self.slots.push(slot);
                self.model = Ghost(self.model@.insert(k, e));
                let ghost n = self.slots@.len() - 1;
                assert(self.slots@[n].key@ == k);
                assert forall|kk: Seq<u8>| #[trigger] self.model@.contains_key(kk) implies exists|j: int|
                    0 <= j < self.slots@.len() && #[trigger] self.slots@[j].key@ == kk by {
                    if kk != k {
                        let j = choose|j: int| 0 <= j < old(self).slots@.len() && #[trigger] old(self).slots@[j].key@ == kk;
                        assert(self.slots@[j].key@ == kk);
                    } else {
                        assert(self.slots@[n].key@ == kk);
                    }
                }
            },
        }
    }
}

} // verus!
