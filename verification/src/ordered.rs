//! Insertion-ordered string maps, and the sequences of entries that describe them.

use indexmap::IndexMap;
use vstd::prelude::*;

verus! {

/// Makes `indexmap::IndexMap` known as a type; nothing inside a map is visible, what
/// a map holds is spoken of through [`entries`].
#[verifier::external_type_specification]
#[verifier::external_body]
#[verifier::reject_recursive_types(K)]
#[verifier::reject_recursive_types(V)]
#[verifier::reject_recursive_types(S)]
pub struct ExIndexMap<K, V, S>(IndexMap<K, V, S>);

/// The key-value pairs of an `IndexMap`, each as the text of its key and of its value,
/// in the map's own order. That order is the order in which the keys were first
/// inserted, as long as nothing is removed; it does not depend on hashing.
pub uninterp spec fn entries(m: IndexMap<String, String>) -> Seq<(Seq<char>, Seq<char>)>;

/// No key occurs at two positions.
pub open spec fn distinct_keys(s: Seq<(Seq<char>, Seq<char>)>) -> bool {
    forall|i: int, j: int| 0 <= i < j < s.len() ==> s[i].0 != s[j].0
}

/// Some entry is stored under `key`.
pub open spec fn has_key(s: Seq<(Seq<char>, Seq<char>)>, key: Seq<char>) -> bool {
    exists|j: int| 0 <= j < s.len() && #[trigger] s[j].0 == key
}

/// Position of the first entry stored under `key`; `s.len()` when there is none.
pub open spec fn key_index(s: Seq<(Seq<char>, Seq<char>)>, key: Seq<char>) -> int
    decreases s.len(),
{
    if s.len() == 0 {
        0
    } else if s[0].0 == key {
        0
    } else {
        1 + key_index(s.drop_first(), key)
    }
}

/// The entries after `key` has been set to `value`: an entry already stored under the
/// key keeps its position and takes the new value, a new entry goes to the end.
pub open spec fn upsert(s: Seq<(Seq<char>, Seq<char>)>, key: Seq<char>, value: Seq<char>) -> Seq<
    (Seq<char>, Seq<char>),
> {
    let i = key_index(s, key);
    if i < s.len() {
        s.update(i, (key, value))
    } else {
        s.push((key, value))
    }
}

/// `key_index` finds the first entry under the key, or runs off the end when no entry
/// has it.
pub proof fn lemma_key_index(s: Seq<(Seq<char>, Seq<char>)>, key: Seq<char>)
    ensures
        0 <= key_index(s, key) <= s.len(),
        key_index(s, key) < s.len() ==> s[key_index(s, key)].0 == key,
        forall|j: int| 0 <= j < key_index(s, key) ==> s[j].0 != key,
        key_index(s, key) < s.len() <==> has_key(s, key),
    decreases s.len(),
{
    if s.len() > 0 && s[0].0 != key {
        let rest = s.drop_first();
        lemma_key_index(rest, key);
        assert forall|j: int| 0 <= j < key_index(s, key) implies s[j].0 != key by {
            if j > 0 {
                assert(s[j] == rest[j - 1]);
            }
        }
        if has_key(s, key) {
            let j = choose|j: int| 0 <= j < s.len() && #[trigger] s[j].0 == key;
            assert(rest[j - 1].0 == key);
        }
    }
}

/// With distinct keys, the position of an entry is the position `key_index` finds
/// for its key.
pub proof fn lemma_key_index_at(s: Seq<(Seq<char>, Seq<char>)>, i: int)
    requires
        distinct_keys(s),
        0 <= i < s.len(),
    ensures
        key_index(s, s[i].0) == i,
{
    lemma_key_index(s, s[i].0);
}

/// Setting a key keeps the keys distinct, never shortens the sequence and grows it by
/// at most one entry.
pub proof fn lemma_upsert(s: Seq<(Seq<char>, Seq<char>)>, key: Seq<char>, value: Seq<char>)
    requires
        distinct_keys(s),
    ensures
        distinct_keys(upsert(s, key, value)),
        s.len() <= upsert(s, key, value).len() <= s.len() + 1,
        upsert(s, key, value).len() == s.len() <==> has_key(s, key),
        has_key(upsert(s, key, value), key),
        upsert(s, key, value)[key_index(s, key)] == (key, value),
{
    lemma_key_index(s, key);
    assert(upsert(s, key, value)[key_index(s, key)].0 == key);
}

/// An empty map.
///
/// Stands for `IndexMap::new`, which creates a map that holds no pair.
#[verifier::external_body]
pub(crate) fn new_map() -> (m: IndexMap<String, String>)
    ensures
        entries(m).len() == 0,
{
    IndexMap::new()
}

/// Number of pairs in the map.
///
/// Stands for `IndexMap::len`.
#[verifier::external_body]
pub(crate) fn map_len(m: &IndexMap<String, String>) -> (n: usize)
    ensures
        n == entries(*m).len(),
{
    m.len()
}

/// Position of the pair stored under `key`.
///
/// Stands for `IndexMap::get_index_of`: it returns the index of a pair whose key equals
/// `key`, and `None` exactly when no pair has that key.
#[verifier::external_body]
pub(crate) fn map_index_of(m: &IndexMap<String, String>, key: &str) -> (found: Option<usize>)
    ensures
        match found {
            Some(i) => i < entries(*m).len() && entries(*m)[i as int].0 == key@,
            None => !has_key(entries(*m), key@),
        },
{
    m.get_index_of(key)
}

/// The pair at position `index`.
///
/// Stands for `IndexMap::get_index`: valid positions are those below the length, any
/// other position gives `None`.
#[verifier::external_body]
pub(crate) fn map_entry<'a>(m: &'a IndexMap<String, String>, index: usize) -> (pair: Option<
    (&'a String, &'a String),
>)
    ensures
        match pair {
            Some((k, v)) => index < entries(*m).len() && (k@, v@) == entries(*m)[index as int],
            None => index >= entries(*m).len(),
        },
{
    m.get_index(index)
}

/// Sets `key` to `value` and returns the position of the pair.
///
/// Stands for `IndexMap::insert_full`: where a pair with an equal key exists, the pair
/// keeps its place and its key and takes the new value; otherwise the new pair is put
/// last. Either way the position of the pair is returned, and no other pair changes.
#[verifier::external_body]
pub(crate) fn map_insert(m: &mut IndexMap<String, String>, key: String, value: String) -> (slot:
    usize)
    ensures
        has_key(entries(*old(m)), key@) ==> ({
            &&& slot < entries(*old(m)).len()
            &&& entries(*old(m))[slot as int].0 == key@
            &&& entries(*final(m)) == entries(*old(m)).update(slot as int, (key@, value@))
        }),
        !has_key(entries(*old(m)), key@) ==> ({
            &&& slot == entries(*old(m)).len()
            &&& entries(*final(m)) == entries(*old(m)).push((key@, value@))
        }),
{
    m.insert_full(key, value).0
}

/// Sets `key` to `value` in a map whose keys are distinct.
pub(crate) fn map_set(m: &mut IndexMap<String, String>, key: String, value: String) -> (slot: usize)
    requires
        distinct_keys(entries(*old(m))),
    ensures
        entries(*final(m)) == upsert(entries(*old(m)), key@, value@),
        distinct_keys(entries(*final(m))),
        slot == key_index(entries(*old(m)), key@),
{
    let ghost before = entries(*m);
    let slot = map_insert(m, key, value);
    proof {
        lemma_key_index(before, key@);
        lemma_upsert(before, key@, value@);
        if has_key(before, key@) {
            lemma_key_index_at(before, slot as int);
        }
    }
    slot
}

/// Position of `key` in a map whose keys are distinct.
pub(crate) fn map_find(m: &IndexMap<String, String>, key: &str) -> (found: Option<usize>)
    requires
        distinct_keys(entries(*m)),
    ensures
        match found {
            Some(i) => i == key_index(entries(*m), key@) && i < entries(*m).len(),
            None => key_index(entries(*m), key@) == entries(*m).len(),
        },
{
    let found = map_index_of(m, key);
    proof {
        lemma_key_index(entries(*m), key@);
        if let Some(i) = found {
            lemma_key_index_at(entries(*m), i as int);
        }
    }
    found
}

} // verus!
