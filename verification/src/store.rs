//! The relation store: a small map from addresses to values.
//!
//! An [`AddressMap`] keeps its entries in the order in which their keys were
//! first inserted. Its view is the mathematical map from keys to values;
//! [`AddressMap::ids`] is the sequence of keys in storage order, which is what
//! a scan over the map walks.

use vstd::prelude::*;
use crate::address::{Address, Id};

verus! {

struct Entry<V> {
    key: Address,
    value: V,
}

/// A map from addresses to values of type `V`, scanned in insertion order.
pub struct AddressMap<V> {
    entries: Vec<Entry<V>>,
}

impl<V> View for AddressMap<V> {
    type V = Map<Id, V>;

    closed spec fn view(&self) -> Map<Id, V> {
        Map::new(
            |id: Id| self.ids().contains(id),
            |id: Id| self.entries@[self.ids().index_of(id)].value,
        )
    }
}

impl<V> AddressMap<V> {
    /// The keys of the map, in storage order.
    pub closed spec fn ids(&self) -> Seq<Id> {
        Seq::new(self.entries@.len(), |i: int| self.entries@[i].key@)
    }

    /// No key is stored twice.
    pub open spec fn wf(&self) -> bool {
        self.ids().no_duplicates()
    }

    /// How the view and the storage order relate: the keys of the view are
    /// the elements of `ids()`, and there are finitely many of them.
    pub proof fn lemma_view(&self)
        requires
            self.wf(),
        ensures
            self@.dom() =~= self.ids().to_set(),
            self@.dom().finite(),
            self@.dom().len() == self.ids().len(),
            forall|id: Id| #[trigger] self@.contains_key(id) <==> self.ids().contains(id),
    {
        self.ids().unique_seq_to_set();
        vstd::seq_lib::seq_to_set_is_finite(self.ids());
        assert(self@.dom() =~= self.ids().to_set());
    }

    /// The empty map.
    pub fn new() -> (m: AddressMap<V>)
        ensures
            m.wf(),
            m@ == Map::<Id, V>::empty(),
            m.ids() == Seq::<Id>::empty(),
    {
        let m = AddressMap { entries: Vec::new() };
        assert(m.ids() =~= Seq::<Id>::empty());
        assert(m@ =~= Map::<Id, V>::empty());
        m
    }

    /// The number of entries.
    pub fn len(&self) -> (n: usize)
        ensures
            n == self.ids().len(),
    {
        self.entries.len()
    }

    /// Whether the map has no entry.
    pub fn is_empty(&self) -> (empty: bool)
        ensures
            empty == (self.ids().len() == 0),
    {
        self.entries.len() == 0
    }

    /// The key stored at position `i`.
    pub fn key_at(&self, i: usize) -> (key: &Address)
        requires
            i < self.ids().len(),
        ensures
            key@ == self.ids()[i as int],
    {
        &self.entries[i].key
    }

    /// The value stored at position `i`.
    pub fn value_at(&self, i: usize) -> (value: &V)
        requires
            self.wf(),
            i < self.ids().len(),
        ensures
            self@.contains_key(self.ids()[i as int]),
            *value == self@[self.ids()[i as int]],
    {
        assert(self.ids().contains(self.ids()[i as int]));
        &self.entries[i].value
    }

    /// The position at which `key` is stored, if it is.
    fn position(&self, key: &Address) -> (found: Option<usize>)
        ensures
            match found {
                Some(i) => i < self.ids().len() && self.ids()[i as int] == key@,
                None => !self.ids().contains(key@),
            },
    {
        let mut i: usize = 0;
        while i < self.entries.len()
            invariant
                i <= self.entries@.len(),
                forall|j: int| 0 <= j < i ==> self.ids()[j] != key@,
            decreases self.entries@.len() - i,
        {
            if self.entries[i].key == *key {
                return Some(i);
            }
            i += 1;
        }
        None
    }

    /// Whether `key` has an entry.
    pub fn contains_key(&self, key: &Address) -> (present: bool)
        ensures
            present == self@.contains_key(key@),
    {
        self.position(key).is_some()
    }

    /// The value stored under `key`, if any.
    pub fn get(&self, key: &Address) -> (value: Option<&V>)
        requires
            self.wf(),
        ensures
            match value {
                Some(v) => self@.contains_key(key@) && *v == self@[key@],
                None => !self@.contains_key(key@),
            },
    {
        match self.position(key) {
            Some(i) => Some(&self.entries[i].value),
            None => None,
        }
    }

    /// Stores `value` under `key`, replacing the value of an existing entry
    /// in place and appending a new entry otherwise.
    pub fn insert(&mut self, key: Address, value: V)
        requires
            old(self).wf(),
        ensures
            final(self).wf(),
            final(self)@ == old(self)@.insert(key@, value),
            final(self).ids() == if old(self)@.contains_key(key@) {
                old(self).ids()
            } else {
                old(self).ids().push(key@)
            },
    {
        let ghost before = *self;
        match self.position(&key) {
            Some(i) => {
                self.entries.set(i, Entry { key, value });
                assert(self.ids() =~= before.ids());
                assert(self@ =~= before@.insert(key@, value));
            },
            None => {
                self.entries.push(Entry { key, value });
                assert(self.ids() =~= before.ids().push(key@));
                assert forall|id: Id| #[trigger] self.ids().contains(id) <==> (id == key@
                    || before.ids().contains(id)) by {
                    if before.ids().contains(id) {
                        let j = before.ids().index_of(id);
                        assert(self.ids()[j] == id);
                    }
                    if id == key@ {
                        assert(self.ids()[before.ids().len() as int] == id);
                    }
                    if self.ids().contains(id) {
                        let j = self.ids().index_of(id);
                        if j < before.ids().len() {
                            assert(before.ids()[j] == id);
                        }
                    }
                }
                assert(self@ =~= before@.insert(key@, value));
            },
        }
    }

    /// Deletes the entry of `key`, if there is one. The other entries keep
    /// their order.
    pub fn remove(&mut self, key: &Address)
        requires
            old(self).wf(),
        ensures
            final(self).wf(),
            final(self)@ == old(self)@.remove(key@),
            final(self).ids() == if old(self)@.contains_key(key@) {
                old(self).ids().remove(old(self).ids().index_of(key@))
            } else {
                old(self).ids()
            },
    {
        let ghost before = *self;
        match self.position(key) {
            Some(i) => {
                self.entries.remove(i);
                assert(self.ids() =~= before.ids().remove(i as int));
                assert forall|id: Id| #[trigger] self.ids().contains(id) <==> (id != key@
                    && before.ids().contains(id)) by {
                    if id != key@ && before.ids().contains(id) {
                        let j = before.ids().index_of(id);
                        if j < i {
                            assert(self.ids()[j] == id);
                        } else {
                            assert(self.ids()[j - 1] == id);
                        }
                    }
                }
                assert forall|id: Id| id != key@ && before.ids().contains(id) implies
                    self.entries@[self.ids().index_of(id)].value == before.entries@[before.ids().index_of(id)].value by {
                    let j = before.ids().index_of(id);
                    let k = self.ids().index_of(id);
                    if j < i {
                        assert(self.ids()[j] == id);
                    } else {
                        assert(self.ids()[j - 1] == id);
                    }
                }
                assert(self@ =~= before@.remove(key@));
            },
            None => {
                assert(self@ =~= before@.remove(key@));
            },
        }
    }
}

} // verus!
