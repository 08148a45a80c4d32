//! An insertion-ordered map from string keys to values.
//!
//! The keys live in an [`indexmap::IndexSet`], which finds a key's position by hashing and
//! keeps positions dense; the values live in a vector at the same positions.

use crate::index::{index_insert, index_keys, index_new, index_position, index_remove};
use indexmap::IndexSet;
use vstd::prelude::*;

verus! {

/// A map from string keys to values that keeps its entries in the order in which their
/// keys were first inserted.
pub struct OrderedMap<V> {
    index: IndexSet<String>,
    values: Vec<V>,
}

impl<V> OrderedMap<V> {
    /// The keys, in insertion order.
    pub closed spec fn keys(&self) -> Seq<Seq<char>> {
        index_keys(self.index)
    }

    /// The values, each at the position of its key.
    pub closed spec fn values(&self) -> Seq<V> {
        self.values@
    }

    /// Every key has exactly one value, and no key occurs twice.
    pub open spec fn wf(&self) -> bool {
        &&& self.keys().len() == self.values().len()
        &&& self.keys().no_duplicates()
    }

    /// Whether the map holds the key.
    pub open spec fn contains_key(&self, key: Seq<char>) -> bool {
        self.keys().contains(key)
    }

    /// The position of `key`; meaningful only where the map holds `key`.
    pub open spec fn position_of(&self, key: Seq<char>) -> int {
        self.keys().index_of(key)
    }

    /// An empty map.
    pub fn new() -> (map: Self)
        ensures
            map.wf(),
            map.keys() == Seq::<Seq<char>>::empty(),
            map.values() == Seq::<V>::empty(),
    {
        OrderedMap { index: index_new(), values: Vec::new() }
    }

    /// The number of entries.
    pub fn len(&self) -> (n: usize)
        requires
            self.wf(),
        ensures
            n == self.keys().len(),
    {
        self.values.len()
    }

    /// The position of the key, if the map holds it.
    pub fn position(&self, key: &str) -> (found: Option<usize>)
        requires
            self.wf(),
        ensures
            found is Some <==> self.contains_key(key@),
            found matches Some(i) ==> i < self.keys().len() && self.keys()[i as int] == key@
                && i == self.position_of(key@),
    {
        let found = index_position(&self.index, key);
        proof {
            if let Some(i) = found {
                self.keys().index_of_first_ensures(key@);
            }
        }
        found
    }

    /// The value at the given position.
    pub fn get_index(&self, i: usize) -> (value: Option<&V>)
        requires
            self.wf(),
        ensures
            value is Some <==> i < self.keys().len(),
            value matches Some(v) ==> *v == self.values()[i as int],
    {
        if i < self.values.len() {
            Some(&self.values[i])
        } else {
            None
        }
    }

    /// The value at the given position, to be changed in place.
    pub fn get_index_mut(&mut self, i: usize) -> (value: &mut V)
        requires
            old(self).wf(),
            i < old(self).keys().len(),
        ensures
            *value == old(self).values()[i as int],
            final(self).keys() == old(self).keys(),
            final(self).values() == old(self).values().update(i as int, *final(value)),
    {
        &mut self.values[i]
    }

    /// Puts `value` under `key`. A key that the map already holds keeps its position and
    /// its former value is handed back; a new key goes to the end.
    pub fn insert(&mut self, key: String, value: V) -> (placed: (usize, Option<V>))
        requires
            old(self).wf(),
        ensures
            final(self).wf(),
            placed.1 is Some <==> old(self).contains_key(key@),
            placed.1 matches Some(former) ==> {
                &&& placed.0 == old(self).position_of(key@)
                &&& former == old(self).values()[placed.0 as int]
                &&& final(self).keys() == old(self).keys()
                &&& final(self).values() == old(self).values().update(placed.0 as int, value)
            },
            placed.1 is None ==> {
                &&& placed.0 == old(self).keys().len()
                &&& final(self).keys() == old(self).keys().push(key@)
                &&& final(self).values() == old(self).values().push(value)
            },
    {
        let (i, fresh) = index_insert(&mut self.index, key);
        if fresh {
            self.values.push(value);
            (i, None)
        } else {
            proof {
                old(self).keys().index_of_first_ensures(key@);
            }
            let mut former = value;
            std::mem::swap(&mut self.values[i], &mut former);
            (i, Some(former))
        }
    }

    /// Takes `key` and its value out, moving every later entry one position down.
    pub fn remove(&mut self, key: &str) -> (removed: Option<(usize, V)>)
        requires
            old(self).wf(),
        ensures
            final(self).wf(),
            removed is Some <==> old(self).contains_key(key@),
            removed matches Some((i, value)) ==> {
                &&& i == old(self).position_of(key@)
                &&& value == old(self).values()[i as int]
                &&& final(self).keys() == old(self).keys().remove(i as int)
                &&& final(self).values() == old(self).values().remove(i as int)
            },
            removed is None ==> {
                &&& final(self).keys() == old(self).keys()
                &&& final(self).values() == old(self).values()
            },
    {
        match index_remove(&mut self.index, key) {
            Some((i, _)) => {
                proof {
                    old(self).keys().index_of_first_ensures(key@);
                }
                let value = self.values.remove(i);
                Some((i, value))
            },
            None => None,
        }
    }
}

} // verus!
