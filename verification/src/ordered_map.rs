use crate::value::Value;
use indexmap::IndexMap;
use vstd::prelude::*;

verus! {

/// `indexmap::IndexMap`: a map that keeps its keys in the order they came in.
#[verifier::external_type_specification]
#[verifier::external_body]
#[verifier::reject_recursive_types(K)]
#[verifier::reject_recursive_types(V)]
#[verifier::reject_recursive_types(S)]
pub struct ExIndexMap<K, V, S>(IndexMap<K, V, S>);

/// What an `indexmap::IndexMap` from keys to lists holds: each key with its
/// list, in the map's own order, which is the order in which the keys came in.
pub uninterp spec fn entries(map: IndexMap<String, Vec<Value>>) -> Seq<(Seq<char>, Seq<Value>)>;

/// Whether the entry at `at` is that of `key`.
pub open spec fn holds_at(entries: Seq<(Seq<char>, Seq<Value>)>, at: int, key: Seq<char>) -> bool {
    0 <= at < entries.len() && entries[at].0 == key
}

/// Whether `key` is among the keys of `entries`.
pub open spec fn has_key(entries: Seq<(Seq<char>, Seq<Value>)>, key: Seq<char>) -> bool {
    exists|at: int| holds_at(entries, at, key)
}

/// Calls `IndexMap::new`: a map that holds nothing.
#[verifier::external_body]
pub(crate) fn new_map() -> (map: IndexMap<String, Vec<Value>>)
    ensures
        entries(map) == Seq::<(Seq<char>, Seq<Value>)>::empty(),
{
    IndexMap::new()
}

/// Calls `IndexMap::entry` and `Entry::or_insert` with an empty list. A key
/// that the map holds keeps its place, and the borrow is of its list; a new key
/// goes last, with the list that the borrow then fills.
#[verifier::external_body]
pub(crate) fn group_mut<'a>(
    map: &'a mut IndexMap<String, Vec<Value>>,
    key: String,
) -> (group: &'a mut Vec<Value>)
    ensures
        !has_key(entries(*old(map)), key@) ==> group@ == Seq::<Value>::empty(),
        !has_key(entries(*old(map)), key@)
            ==> entries(*final(map)) == entries(*old(map)).push((key@, final(group)@)),
        forall|at: int| #[trigger]
            holds_at(entries(*old(map)), at, key@) ==> group@ == entries(*old(map))[at].1,
        forall|at: int| #[trigger]
            holds_at(entries(*old(map)), at, key@)
                ==> entries(*final(map)) == entries(*old(map)).update(
                at,
                (key@, final(group)@),
            ),
{
    map.entry(key).or_insert(vec![])
}

/// Calls `IndexMap::keys`: the keys, in the map's order.
#[verifier::external_body]
pub(crate) fn keys(map: &IndexMap<String, Vec<Value>>) -> (keys: Vec<String>)
    ensures
        keys@.len() == entries(*map).len(),
        forall|i: int| 0 <= i < keys@.len() ==> (#[trigger] keys@[i])@ == entries(*map)[i].0,
{
    map.keys().cloned().collect()
}

/// Calls `IndexMap::values`: the lists, in the map's order.
#[verifier::external_body]
pub(crate) fn lists(map: &IndexMap<String, Vec<Value>>) -> (lists: Vec<&Vec<Value>>)
    ensures
        lists@.len() == entries(*map).len(),
        forall|i: int| 0 <= i < lists@.len() ==> (#[trigger] lists@[i])@ == entries(*map)[i].1,
{
    map.values().collect()
}

/// Calls `IndexMap::get`: the list kept under `key`, if the map holds that key.
#[verifier::external_body]
pub(crate) fn get<'a>(
    map: &'a IndexMap<String, Vec<Value>>,
    key: &String,
) -> (list: Option<&'a Vec<Value>>)
    ensures
        list is Some <==> has_key(entries(*map), key@),
        forall|at: int| #[trigger]
            holds_at(entries(*map), at, key@) && list is Some
                ==> list->Some_0@ == entries(*map)[at].1,
{
    map.get(key)
}

} // verus!
