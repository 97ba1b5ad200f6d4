//! The maps the grouping pass keeps by rune, local or member name: an `indexmap` from each key's
//! code to the slot of its value, beside the values themselves. Keys keep the order they were first
//! inserted in; inserting a present key replaces its value in place.

use vstd::prelude::*;
use indexmap::IndexMap;
use crate::index_map::{
    slot_entries, keys_unique, find_key, lemma_find_key, slot_map_new, slot_map_len, slot_map_get_index,
    slot_map_get, slot_map_insert,
};

verus! {

/// A map from key codes to values, in first-insertion order.
pub struct KeyedMap<T> {
    pub index: IndexMap<(u32, u32), usize>,
    pub values: Vec<T>,
}

impl<T> KeyedMap<T> {
    /// Keys are unique and each names its own slot among the values.
    pub open spec fn wf(&self) -> bool {
        &&& keys_unique(slot_entries(self.index))
        &&& forall|i: int| 0 <= i < slot_entries(self.index).len()
                ==> (#[trigger] slot_entries(self.index)[i]).1 < self.values@.len()
        &&& forall|i: int, j: int| 0 <= i < slot_entries(self.index).len() && 0 <= j < slot_entries(self.index).len() && i != j
                ==> (#[trigger] slot_entries(self.index)[i]).1 != (#[trigger] slot_entries(self.index)[j]).1
    }

    /// The value stored under a key code, if any.
    pub open spec fn at(&self, code: (u32, u32)) -> Option<T> {
        match find_key(slot_entries(self.index), code) {
            Some(i) => Some(self.values@[slot_entries(self.index)[i].1 as int]),
            None => None,
        }
    }

    /// The entries in order: each key code with its value.
    pub open spec fn entries(&self) -> Seq<((u32, u32), T)> {
        slot_entries(self.index).map_values(|e: ((u32, u32), usize)| (e.0, self.values@[e.1 as int]))
    }

    /// An empty map.
    pub fn new() -> (r: Self)
        ensures r.wf(), r.entries() == Seq::<((u32, u32), T)>::empty(), forall|c: (u32, u32)| #[trigger] r.at(c) is None,
    {
        let r = KeyedMap { index: slot_map_new(), values: Vec::new() };
        assert(r.entries() =~= Seq::<((u32, u32), T)>::empty());
        r
    }

    /// The number of entries.
    pub fn len(&self) -> (r: usize)
        ensures r == self.entries().len(),
    {
        slot_map_len(&self.index)
    }

    /// The entry at a position.
    pub fn entry(&self, i: usize) -> (r: ((u32, u32), &T))
        requires self.wf(), i < self.entries().len(),
        ensures r.0 == self.entries()[i as int].0, *r.1 == self.entries()[i as int].1,
    {
        let (code, slot) = slot_map_get_index(&self.index, i).unwrap();
        (code, &self.values[slot])
    }

    /// The value stored under a key code, if any.
    pub fn get(&self, code: (u32, u32)) -> (r: Option<&T>)
        requires self.wf(),
        ensures
            match self.at(code) {
                Some(v) => r matches Some(x) && *x == v,
                None => r is None,
            },
    {
        proof { lemma_find_key(slot_entries(self.index), code); }
        match slot_map_get(&self.index, code) {
            Some(slot) => Some(&self.values[slot]),
            None => None,
        }
    }

    /// Store `value` under `code`: a present key keeps its place and takes the new value; an absent
    /// key is added last.
    pub fn insert(&mut self, code: (u32, u32), value: T)
        requires old(self).wf(),
        ensures
            final(self).wf(),
            final(self).at(code) == Some(value),
            forall|c: (u32, u32)| c != code ==> #[trigger] final(self).at(c) == old(self).at(c),
            old(self).at(code) is None ==> final(self).entries() == old(self).entries().push((code, value)),
            old(self).at(code) is Some ==> final(self).entries()
                == old(self).entries().update(find_key(slot_entries(old(self).index), code)->0, (code, value)),
    {
        let ghost old_entries = slot_entries(self.index);
        proof { lemma_find_key(old_entries, code); }
        match slot_map_get(&self.index, code) {
            Some(slot) => {
                self.values.set(slot, value);
                proof {
                    let i = find_key(old_entries, code)->0;
                    assert(self.entries() =~= old(self).entries().update(i, (code, value))) by {
                        assert forall|j: int| 0 <= j < old_entries.len() && j != i implies old_entries[j].1 != old_entries[i].1 by {}
                    }
                    assert forall|c: (u32, u32)| c != code implies #[trigger] self.at(c) == old(self).at(c) by {
                        lemma_find_key(old_entries, c);
                        match find_key(old_entries, c) {
                            Some(j) => { assert(j != i); },
                            None => {},
                        }
                    }
                }
            },
            None => {
                let slot = self.values.len();
                self.values.push(value);
                slot_map_insert(&mut self.index, code, slot);
                proof {
                    let new_entries = slot_entries(self.index);
                    assert(new_entries == old_entries.push((code, slot)));
                    lemma_find_key(new_entries, code);
                    assert forall|j: int| 0 <= j < old_entries.len() implies new_entries[j].0 != code by {
                        assert(new_entries[j] == old_entries[j]);
                    }
                    assert(new_entries[old_entries.len() as int].0 == code);
                    assert(find_key(new_entries, code) == Some(old_entries.len() as int));
                    assert forall|c: (u32, u32)| c != code implies #[trigger] self.at(c) == old(self).at(c) by {
                        lemma_find_key(old_entries, c);
                        lemma_find_key(new_entries, c);
                        match find_key(old_entries, c) {
                            Some(j) => { assert(new_entries[j] == old_entries[j]); },
                            None => {},
                        }
                    }
                    assert(self.entries() =~= old(self).entries().push((code, value)));
                }
            },
        }
    }
}

} // verus!
