//! Lists of entries keyed by text, searched from the front.

use vstd::prelude::*;

verus! {

/// The first position at or behind `from` where `keys` holds `key`; the length
/// of `keys` where there is none.
pub open spec fn position_from(keys: Seq<Seq<char>>, key: Seq<char>, from: int) -> int
    decreases keys.len() - from,
{
    if from >= keys.len() {
        keys.len() as int
    } else if keys[from] == key {
        from
    } else {
        position_from(keys, key, from + 1)
    }
}

/// The first position of `key` in `keys`; the length of `keys` where there is
/// none.
pub open spec fn position(keys: Seq<Seq<char>>, key: Seq<char>) -> int {
    position_from(keys, key, 0)
}

proof fn lemma_position_from(keys: Seq<Seq<char>>, key: Seq<char>, from: int)
    requires
        0 <= from <= keys.len(),
    ensures
        from <= position_from(keys, key, from) <= keys.len(),
        position_from(keys, key, from) < keys.len() ==> keys[position_from(keys, key, from)] == key,
        forall|j: int| from <= j < position_from(keys, key, from) ==> keys[j] != key,
    decreases keys.len() - from,
{
    if from < keys.len() && keys[from] != key {
        lemma_position_from(keys, key, from + 1);
    }
}

/// What [`position`] finds: the key itself, with no equal key before it.
pub proof fn lemma_position(keys: Seq<Seq<char>>, key: Seq<char>)
    ensures
        0 <= position(keys, key) <= keys.len(),
        position(keys, key) < keys.len() ==> keys[position(keys, key)] == key,
        forall|j: int| 0 <= j < position(keys, key) ==> keys[j] != key,
        position(keys, key) < keys.len() <==> keys.contains(key),
{
    lemma_position_from(keys, key, 0);
    if keys.contains(key) {
        let j = choose|j: int| 0 <= j < keys.len() && keys[j] == key;
        assert(keys[j] == key);
    }
}

/// A position that holds `key`, with no equal key before it, is the one that
/// [`position`] finds.
pub proof fn lemma_position_is(keys: Seq<Seq<char>>, key: Seq<char>, at: int)
    requires
        0 <= at <= keys.len(),
        at < keys.len() ==> keys[at] == key,
        forall|j: int| 0 <= j < at ==> keys[j] != key,
    ensures
        position(keys, key) == at,
{
    lemma_position(keys, key);
    let p = position(keys, key);
    if p < at {
        assert(keys[p] == key);
    }
}

/// The keys of a list of entries.
pub open spec fn keys_of<V>(entries: Seq<(String, V)>) -> Seq<Seq<char>> {
    entries.map_values(|e: (String, V)| e.0@)
}

/// What the first entry under `key` holds.
pub open spec fn lookup<V>(entries: Seq<(String, V)>, key: Seq<char>) -> Option<V> {
    let at = position(keys_of(entries), key);
    if at < entries.len() {
        Some(entries[at].1)
    } else {
        None
    }
}

/// The first position of `key` among the entries; their number where there is
/// none.
pub fn find_key<V>(entries: &Vec<(String, V)>, key: &str) -> (at: usize)
    ensures
        at == position(keys_of(entries@), key@),
        at <= entries@.len(),
        at < entries@.len() ==> entries@[at as int].0@ == key@,
        forall|j: int| 0 <= j < at ==> (#[trigger] entries@[j]).0@ != key@,
{
    let wanted: String = key.to_owned();
    let mut at: usize = 0;
    while at < entries.len() && entries[at].0 != wanted
        invariant
            at <= entries@.len(),
            wanted@ == key@,
            forall|j: int| 0 <= j < at ==> (#[trigger] entries@[j]).0@ != key@,
        ensures
            at <= entries@.len(),
            at < entries@.len() ==> entries@[at as int].0@ == key@,
            forall|j: int| 0 <= j < at ==> (#[trigger] entries@[j]).0@ != key@,
        decreases entries@.len() - at,
    {
        at += 1;
    }
    proof {
        assert forall|j: int| 0 <= j < at implies keys_of(entries@)[j] != key@ by {
            assert(entries@[j].0@ != key@);
        }
        lemma_position_is(keys_of(entries@), key@, at as int);
    }
    at
}

/// What the first entry under `key` holds.
pub fn get_entry<'a, V>(entries: &'a Vec<(String, V)>, key: &str) -> (r: Option<&'a V>)
    ensures
        match r {
            Some(v) => lookup(entries@, key@) == Some(*v),
            None => lookup(entries@, key@) is None,
        },
{
    let at = find_key(entries, key);
    if at < entries.len() {
        Some(&entries[at].1)
    } else {
        None
    }
}

} // verus!
