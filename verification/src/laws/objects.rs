//! Reading and writing the entries of objects.

use vstd::prelude::*;

use crate::assoc::{lemma_position, lemma_position_is, position};
use crate::json::{
    entry_get, entry_keys, lemma_get_after_set, lemma_get_after_without, lemma_set_keeps_others,
    unique_keys, JsonView,
};
use crate::text::{decimal, u64_of};
use crate::wire::text_of_json;

verus! {

/// The text of an event with a name and data.
pub open spec fn wire_text(name: Seq<char>, data: JsonView) -> Seq<char> {
    "event: "@ + name + "\ndata: "@ + text_of_json(data) + "\n\n"@
}

/// Whether the data of an event has this type, this number and this place in the
/// output.
pub open spec fn says(data: JsonView, kind: Seq<char>, sequence: nat, index: nat) -> bool {
    &&& data.get_text("type"@) == Some(kind)
    &&& data.get("sequence_number"@) == Some(JsonView::Number(decimal(sequence)))
    &&& data.get("output_index"@) == Some(JsonView::Number(decimal(index)))
}

/// After an entry was written, its key holds what was written, and every other
/// key holds what it held.
pub broadcast proof fn law_written_entry(v: JsonView, key: Seq<char>, value: JsonView, other: Seq<char>)
    requires
        v is Object,
    ensures
        (#[trigger] v.set(key, value).get(other)) == (if other == key {
            Some(value)
        } else {
            v.get(other)
        }),
{
    if other == key {
        lemma_get_after_set(v, key, value);
    } else {
        lemma_set_keeps_others(v, key, value, other);
    }
}

/// A new entry stands behind the others; one whose key is there already stays in its
/// place. A value that is no object stays as it is.
pub proof fn law_entries_keep_their_places(v: JsonView, key: Seq<char>, value: JsonView, i: int)
    ensures
        !(v is Object) ==> v.set(key, value) == v && v.without(key) == v,
        v matches JsonView::Object(entries) ==> {
            &&& v.get(key) is None ==> v.set(key, value) == JsonView::Object(
                entries.push((key, value)),
            )
            &&& 0 <= i < entries.len() && entries[i].0 == key && (forall|j: int|
                0 <= j < i ==> (#[trigger] entries[j]).0 != key) ==> v.set(key, value)
                == JsonView::Object(entries.update(i, (key, value)))
        },
{
    if let JsonView::Object(entries) = v {
        let keys = entry_keys(entries);
        lemma_position(keys, key);
        if 0 <= i < entries.len() && entries[i].0 == key && (forall|j: int|
            0 <= j < i ==> (#[trigger] entries[j]).0 != key) {
            assert forall|j: int| 0 <= j < i implies keys[j] != key by {
                assert(keys[j] == entries[j].0);
            }
            lemma_position_is(keys, key, i);
        }
    }
}

/// A text, an array and a whole number are read as what they are, and nothing else
/// is.
pub proof fn law_values_are_read_as_they_are(v: JsonView, key: Seq<char>)
    ensures
        v.get_text(key) == (match v.get(key) {
            Some(JsonView::Text(s)) => Some(s),
            _ => None,
        }),
        v.get_items(key) == (match v.get(key) {
            Some(JsonView::Array(items)) => Some(items),
            _ => None,
        }),
        v.text() == (match v {
            JsonView::Text(s) => Some(s),
            _ => None,
        }),
        v.items() == (match v {
            JsonView::Array(items) => Some(items),
            _ => None,
        }),
        v matches JsonView::Number(n) ==> v.as_u64() == u64_of(n),
        !(v is Number) ==> v.as_u64() is None,
        !(v is Object) ==> v.get(key) is None,
{
}

/// After an entry was taken out of an object whose keys differ, its key is gone,
/// and every other key holds what it held.
pub proof fn law_removed_entry(v: JsonView, key: Seq<char>, other: Seq<char>)
    requires
        v is Object,
        unique_keys(v->Object_0),
    ensures
        v.without(key).get(other) == (if other == key {
            None
        } else {
            v.get(other)
        }),
{
    lemma_get_after_without(v, key, other);
}

/// A key holds what stands behind it in the list of entries.
pub proof fn law_listed_entry(entries: Seq<(Seq<char>, JsonView)>, i: int)
    requires
        0 <= i < entries.len(),
        forall|j: int| 0 <= j < i ==> (#[trigger] entries[j]).0 != entries[i].0,
    ensures
        JsonView::Object(entries).get(entries[i].0) == Some(entries[i].1),
{
    let keys = entry_keys(entries);
    assert forall|j: int| 0 <= j < i implies keys[j] != entries[i].0 by {
        assert(keys[j] == entries[j].0);
    }
    lemma_position_is(keys, entries[i].0, i);
}

/// A key that is not in the list of entries holds nothing.
pub proof fn law_unlisted_entry(entries: Seq<(Seq<char>, JsonView)>, key: Seq<char>)
    requires
        forall|j: int| 0 <= j < entries.len() ==> (#[trigger] entries[j]).0 != key,
    ensures
        JsonView::Object(entries).get(key) is None,
{
    let keys = entry_keys(entries);
    lemma_position(keys, key);
    if position(keys, key) < keys.len() {
        assert(entries[position(keys, key)].0 == key);
    }
}

/// Where there is one entry behind the others, a key of the others holds what it
/// held, and the key of that entry what it holds where the others lack it.
pub proof fn law_appended_entry(
    entries: Seq<(Seq<char>, JsonView)>,
    entry: (Seq<char>, JsonView),
    key: Seq<char>,
)
    ensures
        entry_get(entries.push(entry), key) == (if entry_get(entries, key) is Some {
            entry_get(entries, key)
        } else if key == entry.0 {
            Some(entry.1)
        } else {
            None
        }),
{
    let keys = entry_keys(entries);
    let more = entry_keys(entries.push(entry));
    assert(more =~= keys.push(entry.0));
    lemma_position(keys, key);
    let at = position(keys, key);
    if at < keys.len() {
        lemma_position_is(more, key, at);
    } else if key == entry.0 {
        lemma_position_is(more, key, keys.len() as int);
    } else {
        lemma_position_is(more, key, more.len() as int);
    }
}

} // verus!
