//! An insertion-ordered map of header names to values, kept in an
//! `indexmap::IndexMap<String, String>`, and its model as a sequence of entries.
use indexmap::IndexMap;
use vstd::prelude::*;

verus! {

#[verifier::external_type_specification]
#[verifier::external_body]
#[verifier::reject_recursive_types(K)]
#[verifier::reject_recursive_types(V)]
#[verifier::reject_recursive_types(S)]
pub struct ExIndexMap<K, V, S>(IndexMap<K, V, S>);

/// The entries of a map of strings, as (key, value) pairs in the map's order.
pub uninterp spec fn index_map_entries(m: IndexMap<String, String>) -> Seq<(Seq<char>, Seq<char>)>;

/// The position of the first entry whose key is `key`, or -1 when there is none.
pub open spec fn key_position(entries: Seq<(Seq<char>, Seq<char>)>, key: Seq<char>) -> int
    decreases entries.len(),
{
    if entries.len() == 0 {
        -1
    } else {
        let p = key_position(entries.drop_last(), key);
        if p >= 0 {
            p
        } else if entries.last().0 == key {
            entries.len() - 1
        } else {
            -1
        }
    }
}

/// The entries after an insertion: an entry with the same key keeps its place and
/// takes the new value; a new key goes last.
pub open spec fn entries_insert(
    entries: Seq<(Seq<char>, Seq<char>)>,
    key: Seq<char>,
    value: Seq<char>,
) -> Seq<(Seq<char>, Seq<char>)> {
    let p = key_position(entries, key);
    if p >= 0 {
        entries.update(p, (key, value))
    } else {
        entries.push((key, value))
    }
}

/// The value stored under `key`, if any.
pub open spec fn entries_get(entries: Seq<(Seq<char>, Seq<char>)>, key: Seq<char>) -> Option<
    Seq<char>,
> {
    let p = key_position(entries, key);
    if p >= 0 {
        Some(entries[p].1)
    } else {
        None
    }
}

/// No key occurs in two entries.
pub open spec fn keys_distinct(entries: Seq<(Seq<char>, Seq<char>)>) -> bool {
    forall|i: int, j: int|
        0 <= i < j < entries.len() ==> #[trigger] entries[i].0 != #[trigger] entries[j].0
}

/// `key_position` is -1 or the index of the first entry with that key.
pub proof fn lemma_key_position(entries: Seq<(Seq<char>, Seq<char>)>, key: Seq<char>)
    ensures
        -1 <= key_position(entries, key) < entries.len(),
        key_position(entries, key) >= 0 ==> entries[key_position(entries, key)].0 == key,
        forall|i: int|
            0 <= i < entries.len() && (key_position(entries, key) < 0 || i < key_position(
                entries,
                key,
            )) ==> #[trigger] entries[i].0 != key,
    decreases entries.len(),
{
    if entries.len() > 0 {
        let init = entries.drop_last();
        lemma_key_position(init, key);
        assert forall|i: int|
            0 <= i < entries.len() && (key_position(entries, key) < 0 || i < key_position(
                entries,
                key,
            )) implies #[trigger] entries[i].0 != key by {
            if i < init.len() {
                assert(init[i] == entries[i]);
            }
        }
    }
}

/// After an insertion the key maps to the inserted value, and keys that were
/// distinct stay distinct.
pub proof fn law_insert_then_get(
    entries: Seq<(Seq<char>, Seq<char>)>,
    key: Seq<char>,
    value: Seq<char>,
)
    requires
        keys_distinct(entries),
    ensures
        keys_distinct(entries_insert(entries, key, value)),
        entries_get(entries_insert(entries, key, value), key) == Some(value),
{
    lemma_key_position(entries, key);
    let e2 = entries_insert(entries, key, value);
    lemma_key_position(e2, key);
    let p = key_position(entries, key);
    if p >= 0 {
        assert(e2[p].0 == key);
        assert forall|i: int, j: int| 0 <= i < j < e2.len() implies #[trigger] e2[i].0
            != #[trigger] e2[j].0 by {
            assert(entries[i].0 != entries[j].0);
        }
    } else {
        assert(e2[entries.len() as int].0 == key);
    }
}

/// An empty map (`IndexMap::new`).
#[verifier::external_body]
pub(crate) fn index_map_new() -> (m: IndexMap<String, String>)
    ensures
        index_map_entries(m) == Seq::<(Seq<char>, Seq<char>)>::empty(),
{
    IndexMap::new()
}

/// Inserts a key and its value (`IndexMap::insert`): an equal key keeps its place
/// in the order and takes the new value, a new key is placed last.
#[verifier::external_body]
pub(crate) fn index_map_insert(m: &mut IndexMap<String, String>, key: String, value: String)
    ensures
        index_map_entries(*final(m)) == entries_insert(index_map_entries(*old(m)), key@, value@),
{
    m.insert(key, value);
}

/// The value stored under a key (`IndexMap::get`), if any.
#[verifier::external_body]
pub(crate) fn index_map_get<'a>(m: &'a IndexMap<String, String>, key: &str) -> (r: Option<
    &'a String,
>)
    ensures
        r is Some <==> entries_get(index_map_entries(*m), key@) is Some,
        r matches Some(v) ==> entries_get(index_map_entries(*m), key@) == Some(v@),
{
    m.get(key)
}

} // verus!
