//! The `indexmap` maps the borrow checker keeps, behind trusted wrappers over their entry lists.
//!
//! An `IndexMap` is a hash map that remembers insertion order. Its contents are named here as the
//! ordered list of its `(key, value)` entries; every wrapper states what the `indexmap` source shows
//! its method does to that list and returns.

use vstd::prelude::*;
use indexmap::IndexMap;

verus! {

#[verifier::external_type_specification]
#[verifier::external_body]
#[verifier::reject_recursive_types(K)]
#[verifier::reject_recursive_types(V)]
#[verifier::reject_recursive_types(S)]
pub struct ExIndexMap<K, V, S>(IndexMap<K, V, S>);

/// The entries of a map from pending-use keys to slots, in the map's order.
pub uninterp spec fn slot_entries(m: IndexMap<(u32, u32), usize>) -> Seq<((u32, u32), usize)>;

/// The entries of a map from group names to group numbers, in the map's order.
pub uninterp spec fn name_entries(m: IndexMap<String, u32>) -> Seq<(Seq<char>, u32)>;

/// The position of the entry with key `k`, if there is one (the first, though keys are unique).
pub open spec fn find_key<K, V>(s: Seq<(K, V)>, k: K) -> Option<int>
    decreases s.len(),
{
    if s.len() == 0 {
        None
    } else if s[0].0 == k {
        Some(0)
    } else {
        match find_key(s.drop_first(), k) {
            Some(i) => Some(i + 1),
            None => None,
        }
    }
}

/// No two entries share a key.
pub open spec fn keys_unique<K, V>(s: Seq<(K, V)>) -> bool {
    forall|i: int, j: int| 0 <= i < s.len() && 0 <= j < s.len() && i != j ==> s[i].0 != s[j].0
}

/// `find_key` finds exactly the entries whose key matches.
pub proof fn lemma_find_key<K, V>(s: Seq<(K, V)>, k: K)
    ensures
        match find_key(s, k) {
            Some(i) => 0 <= i < s.len() && s[i].0 == k && forall|j: int| 0 <= j < i ==> s[j].0 != k,
            None => forall|j: int| 0 <= j < s.len() ==> s[j].0 != k,
        },
    decreases s.len(),
{
    if s.len() > 0 && s[0].0 != k {
        lemma_find_key(s.drop_first(), k);
        match find_key(s.drop_first(), k) {
            Some(i) => {
                assert forall|j: int| 0 <= j < i + 1 implies s[j].0 != k by {
                    if j > 0 { assert(s[j] == s.drop_first()[j - 1]); }
                }
            },
            None => {
                assert forall|j: int| 0 <= j < s.len() implies s[j].0 != k by {
                    if j > 0 { assert(s[j] == s.drop_first()[j - 1]); }
                }
            },
        }
    }
}

/// `IndexMap::new`: an empty map.
#[verifier::external_body]
pub(crate) fn slot_map_new() -> (r: IndexMap<(u32, u32), usize>)
    ensures slot_entries(r) == Seq::<((u32, u32), usize)>::empty(),
{
    IndexMap::new()
}

/// `IndexMap::len`: the number of entries.
#[verifier::external_body]
pub(crate) fn slot_map_len(m: &IndexMap<(u32, u32), usize>) -> (r: usize)
    ensures r == slot_entries(*m).len(),
{
    m.len()
}

/// `IndexMap::get_index`: the entry at a position, if the position is in range.
#[verifier::external_body]
pub(crate) fn slot_map_get_index(m: &IndexMap<(u32, u32), usize>, index: usize) -> (r: Option<((u32, u32), usize)>)
    ensures
        index < slot_entries(*m).len() ==> r == Some(slot_entries(*m)[index as int]),
        index >= slot_entries(*m).len() ==> r is None,
{
    match m.get_index(index) {
        Some((k, v)) => Some((*k, *v)),
        None => None,
    }
}

/// `IndexMap::get`: the value stored for a key, if the key is present.
#[verifier::external_body]
pub(crate) fn slot_map_get(m: &IndexMap<(u32, u32), usize>, key: (u32, u32)) -> (r: Option<usize>)
    ensures
        r == (match find_key(slot_entries(*m), key) {
            Some(i) => Some(slot_entries(*m)[i].1),
            None => None,
        }),
{
    m.get(&key).copied()
}

/// `IndexMap::contains_key`: whether a key is present.
#[verifier::external_body]
pub(crate) fn slot_map_contains_key(m: &IndexMap<(u32, u32), usize>, key: (u32, u32)) -> (r: bool)
    ensures r == find_key(slot_entries(*m), key) is Some,
{
    m.contains_key(&key)
}

/// `IndexMap::insert`: a present key keeps its place and takes the new value (the old one is
/// returned); an absent key is added last.
#[verifier::external_body]
pub(crate) fn slot_map_insert(m: &mut IndexMap<(u32, u32), usize>, key: (u32, u32), value: usize) -> (r: Option<usize>)
    ensures
        keys_unique(slot_entries(*final(m))),
        match find_key(slot_entries(*old(m)), key) {
            Some(i) => slot_entries(*final(m)) == slot_entries(*old(m)).update(i, (key, value))
                && r == Some(slot_entries(*old(m))[i].1),
            None => slot_entries(*final(m)) == slot_entries(*old(m)).push((key, value)) && r is None,
        },
{
    m.insert(key, value)
}

/// `IndexMap::shift_remove`: removes a key's entry, shifting the later ones down, and returns its
/// value; an absent key changes nothing.
#[verifier::external_body]
pub(crate) fn slot_map_shift_remove(m: &mut IndexMap<(u32, u32), usize>, key: (u32, u32)) -> (r: Option<usize>)
    ensures
        keys_unique(slot_entries(*final(m))),
        match find_key(slot_entries(*old(m)), key) {
            Some(i) => slot_entries(*final(m)) == slot_entries(*old(m)).remove(i)
                && r == Some(slot_entries(*old(m))[i].1),
            None => slot_entries(*final(m)) == slot_entries(*old(m)) && r is None,
        },
{
    m.shift_remove(&key)
}

/// `IndexMap::clear`: removes every entry.
#[verifier::external_body]
pub(crate) fn slot_map_clear(m: &mut IndexMap<(u32, u32), usize>)
    ensures slot_entries(*final(m)) == Seq::<((u32, u32), usize)>::empty(),
{
    m.clear()
}

/// `IndexMap::clone`: a map with the same entries in the same order.
#[verifier::external_body]
pub(crate) fn slot_map_clone(m: &IndexMap<(u32, u32), usize>) -> (r: IndexMap<(u32, u32), usize>)
    ensures slot_entries(r) == slot_entries(*m), keys_unique(slot_entries(r)),
{
    m.clone()
}

/// `IndexMap::new`: an empty map.
#[verifier::external_body]
pub(crate) fn name_map_new() -> (r: IndexMap<String, u32>)
    ensures name_entries(r) == Seq::<(Seq<char>, u32)>::empty(),
{
    IndexMap::new()
}

/// `IndexMap::get`: the value stored for a key, if the key is present.
#[verifier::external_body]
pub(crate) fn name_map_get(m: &IndexMap<String, u32>, key: &String) -> (r: Option<u32>)
    ensures
        r == (match find_key(name_entries(*m), key@) {
            Some(i) => Some(name_entries(*m)[i].1),
            None => None,
        }),
{
    m.get(key).copied()
}

/// `IndexMap::contains_key`: whether a key is present.
#[verifier::external_body]
pub(crate) fn name_map_contains_key(m: &IndexMap<String, u32>, key: &String) -> (r: bool)
    ensures r == find_key(name_entries(*m), key@) is Some,
{
    m.contains_key(key)
}

/// `IndexMap::insert`: a present key keeps its place and takes the new value (the old one is
/// returned); an absent key is added last.
#[verifier::external_body]
pub(crate) fn name_map_insert(m: &mut IndexMap<String, u32>, key: String, value: u32) -> (r: Option<u32>)
    ensures
        keys_unique(name_entries(*final(m))),
        match find_key(name_entries(*old(m)), key@) {
            Some(i) => name_entries(*final(m)) == name_entries(*old(m)).update(i, (key@, value))
                && r == Some(name_entries(*old(m))[i].1),
            None => name_entries(*final(m)) == name_entries(*old(m)).push((key@, value)) && r is None,
        },
{
    m.insert(key, value)
}

} // verus!
