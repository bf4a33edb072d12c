//! A keyed table of records: at most one record per key.
use vstd::prelude::*;
use crate::key::Key;

verus! {

/// A finite map from keys to records, kept as two parallel vectors.
///
/// Its view is the map from each key's bytes to the record stored under it.
pub struct Table<V> {
    keys: Vec<Key>,
    vals: Vec<V>,
    map: Ghost<Map<Seq<u8>, V>>,
    slot: Ghost<Map<Seq<u8>, int>>,
}

impl<V> View for Table<V> {
    type V = Map<Seq<u8>, V>;

    closed spec fn view(&self) -> Map<Seq<u8>, V> {
        self.map@
    }
}

impl<V> Table<V> {
    /// The representation invariant: the vectors run in parallel, every
    /// position holds a key of the map with its record, and every key of the
    /// map stands at exactly one position.
    pub closed spec fn wf(&self) -> bool {
        &&& self.keys@.len() == self.vals@.len()
        &&& self.map@.dom().finite()
        &&& self.slot@.dom() == self.map@.dom()
        &&& forall|i: int|
            0 <= i < self.keys@.len() ==> {
                let k = (#[trigger] self.keys@[i])@;
                &&& self.map@.dom().contains(k)
                &&& self.map@[k] == self.vals@[i]
                &&& self.slot@[k] == i
            }
        &&& forall|k: Seq<u8>| #[trigger]
            self.map@.dom().contains(k) ==> {
                &&& 0 <= self.slot@[k] < self.keys@.len()
                &&& self.keys@[self.slot@[k]]@ == k
            }
    }

    /// The empty table.
    pub fn new() -> (t: Table<V>)
        ensures
            t.wf(),
            t@ == Map::<Seq<u8>, V>::empty(),
    {
        Table { keys: Vec::new(), vals: Vec::new(), map: Ghost(Map::empty()), slot: Ghost(Map::empty()) }
    }

    fn find(&self, key: &Key) -> (r: Option<usize>)
        requires
            self.wf(),
        ensures
            match r {
                Some(i) => i < self.keys@.len() && self.keys@[i as int]@ == key@
                    && self@.dom().contains(key@),
                None => !self@.dom().contains(key@),
            },
    {
        let mut i: usize = 0;
        while i < self.keys.len()
            invariant
                self.wf(),
                i <= self.keys@.len(),
                forall|j: int| 0 <= j < i ==> (#[trigger] self.keys@[j])@ != key@,
            decreases self.keys@.len() - i,
        {
            if self.keys[i].same(key) {
                return Some(i);
            }
            i += 1;
        }
        None
    }

    /// Whether a record is stored under `key`.
    pub fn contains(&self, key: &Key) -> (r: bool)
        requires
            self.wf(),
        ensures
            r == self@.dom().contains(key@),
    {
        self.find(key).is_some()
    }

    /// The record stored under `key`, if there is one.
    pub fn get(&self, key: &Key) -> (r: Option<&V>)
        requires
            self.wf(),
        ensures
            match r {
                Some(v) => self@.dom().contains(key@) && *v == self@[key@],
                None => !self@.dom().contains(key@),
            },
    {
        match self.find(key) {
            Some(i) => Some(&self.vals[i]),
            None => None,
        }
    }

    /// Stores `val` under `key`, in place of the record that was there, if
    /// any.
    pub fn put(&mut self, key: Key, val: V)
        requires
            old(self).wf(),
        ensures
            final(self).wf(),
            final(self)@ == old(self)@.insert(key@, val),
    {
        match self.find(&key) {
            Some(i) => {
                self.vals[i] = val;
                proof {
                    self.map@ = self.map@.insert(key@, val);
                    assert(self.slot@.dom() =~= self.map@.dom());
                }
            },
            None => {
                proof {
                    self.slot@ = self.slot@.insert(key@, self.keys@.len() as int);
                    self.map@ = self.map@.insert(key@, val);
                }
                self.keys.push(key);
                self.vals.push(val);
                assert(self.slot@.dom() =~= self.map@.dom());
            },
        }
    }

    /// Drops the record stored under `key`, if there is one.
    pub fn remove(&mut self, key: &Key)
        requires
            old(self).wf(),
        ensures
            final(self).wf(),
            final(self)@ == old(self)@.remove(key@),
    {
        match self.find(key) {
            Some(i) => {
                self.keys.remove(i);
                self.vals.remove(i);
                proof {
                    let old_slot = self.slot@;
                    let new_map = self.map@.remove(key@);
                    self.map@ = new_map;
                    self.slot@ = Map::new(
                        |k: Seq<u8>| new_map.dom().contains(k),
                        |k: Seq<u8>|
                            if old_slot[k] > i {
                                old_slot[k] - 1
                            } else {
                                old_slot[k]
                            },
                    );
                    assert forall|j: int| 0 <= j < self.keys@.len() implies {
                        let k = (#[trigger] self.keys@[j])@;
                        &&& self.map@.dom().contains(k)
                        &&& self.map@[k] == self.vals@[j]
                        &&& self.slot@[k] == j
                    } by {
                        let from: int = if j < i {
                            j
                        } else {
                            j + 1
                        };
                        assert(self.keys@[j] == old(self).keys@[from]);
                    }
                    assert(self.slot@.dom() =~= self.map@.dom());
                }
            },
            None => {
                assert(self.map@.remove(key@) =~= self.map@);
            },
        }
    }
}

} // verus!
