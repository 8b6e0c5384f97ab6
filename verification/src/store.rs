//! In-memory model of the persistent device store: an ordered key→record
//! map with unique keys. The shell mirrors it to durable storage; every
//! registry mutation writes through here first.

use vstd::prelude::*;
use crate::records::{StoreDevice, StoreDeviceV};

verus! {

/// One stored pair: the key and the device record persisted under it.
pub struct StoreEntry {
    pub key: String,
    pub record: StoreDevice,
}

/// Spec-level mirror of [`StoreEntry`].
pub struct StoreEntryV {
    pub key: Seq<char>,
    pub record: StoreDeviceV,
}

impl View for StoreEntry {
    type V = StoreEntryV;

    open spec fn view(&self) -> StoreEntryV {
        StoreEntryV { key: self.key@, record: self.record@ }
    }
}

/// True when some entry carries the given key.
pub open spec fn store_has_key(s: Seq<StoreEntryV>, key: Seq<char>) -> bool {
    exists|i: int| 0 <= i < s.len() && s[i].key == key
}

/// True when no two entries share a key.
pub open spec fn store_keys_unique(s: Seq<StoreEntryV>) -> bool {
    forall|i: int, j: int| 0 <= i < j < s.len() ==> s[i].key != s[j].key
}

/// The ordered collection of persisted entries.
pub struct DeviceStore {
    pub entries: Vec<StoreEntry>,
}

impl View for DeviceStore {
    type V = Seq<StoreEntryV>;

    open spec fn view(&self) -> Seq<StoreEntryV> {
        self.entries@.map_values(|e: StoreEntry| e@)
    }
}

impl DeviceStore {
    /// An empty store.
    pub fn empty() -> (r: DeviceStore)
        ensures
            r@ =~= Seq::<StoreEntryV>::empty(),
    {
        DeviceStore { entries: Vec::new() }
    }

    /// The index of the first entry under `key`, if any.
    pub fn find(&self, key: &String) -> (r: Option<usize>)
        ensures
            match r {
                Some(i) => i < self@.len() && self@[i as int].key == key@
                    && (forall|j: int| 0 <= j < i ==> self@[j].key != key@),
                None => !store_has_key(self@, key@),
            },
    {
        let n = self.entries.len();
        let mut i: usize = 0;
        while i < n
            invariant
                n == self.entries.len(),
                i <= n,
                forall|j: int| 0 <= j < i ==> self@[j].key != key@,
            decreases n - i,
        {
            if self.entries[i].key == *key {
                return Some(i);
            }
            i = i + 1;
        }
        None
    }

    /// Whether `key` is present.
    pub fn has(&self, key: &String) -> (r: bool)
        ensures
            r == store_has_key(self@, key@),
    {
        self.find(key).is_some()
    }

    /// The record stored under `key`, copied out, if any.
    pub fn get(&self, key: &String) -> (r: Option<StoreDevice>)
        ensures
            match r {
                Some(rec) => exists|i: int|
                    0 <= i < self@.len() && self@[i].key == key@ && self@[i].record == rec@,
                None => !store_has_key(self@, key@),
            },
    {
        match self.find(key) {
            Some(i) => Some(self.entries[i].record.duplicate()),
            None => None,
        }
    }

    /// Stores `record` under `key`: overwrites the entry under `key` in
    /// place, or appends a fresh entry at the end.
    pub fn set(&mut self, key: String, record: StoreDevice)
        requires
            store_keys_unique(old(self)@),
        ensures
            store_has_key(old(self)@, key@) ==> {
                &&& final(self)@.len() == old(self)@.len()
                &&& forall|j: int|
                    0 <= j < old(self)@.len() && old(self)@[j].key != key@ ==> final(self)@[j]
                        == old(self)@[j]
                &&& forall|j: int|
                    0 <= j < old(self)@.len() && old(self)@[j].key == key@ ==> final(self)@[j]
                        == (StoreEntryV { key: key@, record: record@ })
            },
            !store_has_key(old(self)@, key@) ==> final(self)@ =~= old(self)@.push(
                (StoreEntryV { key: key@, record: record@ }),
            ),
    {
        match self.find(&key) {
            Some(i) => {
                let mut e = self.entries.remove(i);
                e.key = key;
                e.record = record;
                self.entries.insert(i, e);
                proof {
                    assert(self@ =~= old(self)@.update(
                        i as int,
                        (StoreEntryV { key: self.entries@[i as int].key@, record: record@ }),
                    ));
                }
            },
            None => {
                self.entries.push(StoreEntry { key, record });
                proof {
                    assert(self@ =~= old(self)@.push(self.entries@.last()@));
                }
            },
        }
    }

    /// Deletes the first entry under `key`; reports whether one was there.
    pub fn delete(&mut self, key: &String) -> (r: bool)
        ensures
            r == store_has_key(old(self)@, key@),
            !r ==> *final(self) == *old(self),
            r ==> exists|i: int|
                0 <= i < old(self)@.len() && old(self)@[i].key == key@
                    && (forall|j: int| 0 <= j < i ==> old(self)@[j].key != key@)
                    && final(self)@ =~= old(self)@.remove(i),
    {
        match self.find(key) {
            Some(i) => {
                self.entries.remove(i);
                proof {
                    assert(self@ =~= old(self)@.remove(i as int));
                }
                true
            },
            None => false,
        }
    }

    /// How many entries are stored.
    pub fn len(&self) -> (r: usize)
        ensures
            r == self@.len(),
    {
        self.entries.len()
    }
}

} // verus!
