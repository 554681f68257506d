//! JSON values.

use vstd::prelude::*;

use crate::assoc::{find_key, keys_of, lemma_position, lemma_position_is, position};
use crate::text::{decimal, decimal_text, parse_u64, text_eq, u64_of};

verus! {

/// A JSON value. A number is kept as its text; the entries of an object keep
/// their order.
#[derive(Debug, PartialEq, Eq)]
pub enum Json {
    Null,
    Bool(bool),
    Number(String),
    Text(String),
    Array(Vec<Json>),
    Object(Vec<(String, Json)>),
}

/// What a [`Json`] stands for.
pub enum JsonView {
    Null,
    Bool(bool),
    Number(Seq<char>),
    Text(Seq<char>),
    Array(Seq<JsonView>),
    Object(Seq<(Seq<char>, JsonView)>),
}

/// The value that `json` stands for.
pub open spec fn json_view(json: Json) -> JsonView
    decreases json,
{
    match json {
        Json::Null => JsonView::Null,
        Json::Bool(b) => JsonView::Bool(b),
        Json::Number(n) => JsonView::Number(n@),
        Json::Text(s) => JsonView::Text(s@),
        Json::Array(items) => JsonView::Array(
            Seq::new(
                items@.len(),
                |i: int|
                    if 0 <= i < items@.len() {
                        json_view(items@[i])
                    } else {
                        JsonView::Null
                    },
            ),
        ),
        Json::Object(entries) => JsonView::Object(
            Seq::new(
                entries@.len(),
                |i: int|
                    if 0 <= i < entries@.len() {
                        (entries@[i].0@, json_view(entries@[i].1))
                    } else {
                        (Seq::empty(), JsonView::Null)
                    },
            ),
        ),
    }
}

impl View for Json {
    type V = JsonView;

    open spec fn view(&self) -> JsonView {
        json_view(*self)
    }
}

/// The values of a list.
pub open spec fn json_views(items: Seq<Json>) -> Seq<JsonView> {
    Seq::new(items.len(), |i: int| items[i]@)
}

/// The keys and values of an object's entries.
pub open spec fn entry_views(entries: Seq<(String, Json)>) -> Seq<(Seq<char>, JsonView)> {
    Seq::new(entries.len(), |i: int| (entries[i].0@, entries[i].1@))
}

/// The view of an optional value.
pub open spec fn opt_json(json: Option<Json>) -> Option<JsonView> {
    match json {
        Some(j) => Some(j@),
        None => None,
    }
}

/// The view of an array is made of the views of its items.
pub broadcast proof fn lemma_array_view(items: Vec<Json>)
    ensures
        #[trigger] json_view(Json::Array(items)) == JsonView::Array(json_views(items@)),
{
    assert(json_view(Json::Array(items))->Array_0 =~= json_views(items@));
}

/// The view of an object is made of its keys and the views of its values.
pub broadcast proof fn lemma_object_view(entries: Vec<(String, Json)>)
    ensures
        #[trigger] json_view(Json::Object(entries)) == JsonView::Object(entry_views(entries@)),
{
    assert(json_view(Json::Object(entries))->Object_0 =~= entry_views(entries@));
}

pub broadcast group group_json_views {
    lemma_array_view,
    lemma_object_view,
}

// ---------------------------------------------------------------------------
// Objects
// ---------------------------------------------------------------------------

/// The keys of an object's entries.
pub open spec fn entry_keys(entries: Seq<(Seq<char>, JsonView)>) -> Seq<Seq<char>> {
    entries.map_values(|e: (Seq<char>, JsonView)| e.0)
}

/// Whether no key occurs twice.
pub open spec fn unique_keys(entries: Seq<(Seq<char>, JsonView)>) -> bool {
    entry_keys(entries).no_duplicates()
}

/// Whether no key occurs twice in any object of a value.
pub open spec fn all_keys_unique(json: JsonView) -> bool
    decreases json,
{
    match json {
        JsonView::Array(items) => forall|i: int|
            0 <= i < items.len() ==> all_keys_unique(#[trigger] items[i]),
        JsonView::Object(entries) => unique_keys(entries) && forall|i: int|
            0 <= i < entries.len() ==> all_keys_unique((#[trigger] entries[i]).1),
        _ => true,
    }
}

/// What `key` holds among the entries.
pub open spec fn entry_get(entries: Seq<(Seq<char>, JsonView)>, key: Seq<char>) -> Option<
    JsonView,
> {
    let at = position(entry_keys(entries), key);
    if at < entries.len() {
        Some(entries[at].1)
    } else {
        None
    }
}

/// The entries with `key` holding `value`: in its place where the key was
/// there, at the end where it was not.
pub open spec fn entry_set(
    entries: Seq<(Seq<char>, JsonView)>,
    key: Seq<char>,
    value: JsonView,
) -> Seq<(Seq<char>, JsonView)> {
    let at = position(entry_keys(entries), key);
    if at < entries.len() {
        entries.update(at, (entries[at].0, value))
    } else {
        entries.push((key, value))
    }
}

/// The entries without `key`; the last entry takes the place of the one that
/// left.
pub open spec fn entry_remove(entries: Seq<(Seq<char>, JsonView)>, key: Seq<char>) -> Seq<
    (Seq<char>, JsonView),
> {
    let at = position(entry_keys(entries), key);
    if at < entries.len() {
        entries.update(at, entries.last()).drop_last()
    } else {
        entries
    }
}

impl JsonView {
    /// What `key` holds, where this is an object that has it.
    pub open spec fn get(self, key: Seq<char>) -> Option<JsonView> {
        match self {
            JsonView::Object(entries) => entry_get(entries, key),
            _ => None,
        }
    }

    /// This object with `key` holding `value`; another value as it is.
    pub open spec fn set(self, key: Seq<char>, value: JsonView) -> JsonView {
        match self {
            JsonView::Object(entries) => JsonView::Object(entry_set(entries, key, value)),
            _ => self,
        }
    }

    /// This object without `key`; another value as it is.
    pub open spec fn without(self, key: Seq<char>) -> JsonView {
        match self {
            JsonView::Object(entries) => JsonView::Object(entry_remove(entries, key)),
            _ => self,
        }
    }

    /// The characters of a text value.
    pub open spec fn text(self) -> Option<Seq<char>> {
        match self {
            JsonView::Text(s) => Some(s),
            _ => None,
        }
    }

    /// The text under `key`.
    pub open spec fn get_text(self, key: Seq<char>) -> Option<Seq<char>> {
        match self.get(key) {
            Some(JsonView::Text(s)) => Some(s),
            _ => None,
        }
    }

    /// The items of an array value.
    pub open spec fn items(self) -> Option<Seq<JsonView>> {
        match self {
            JsonView::Array(items) => Some(items),
            _ => None,
        }
    }

    /// The array under `key`.
    pub open spec fn get_items(self, key: Seq<char>) -> Option<Seq<JsonView>> {
        match self.get(key) {
            Some(JsonView::Array(items)) => Some(items),
            _ => None,
        }
    }

    /// The value of a number that is an unsigned 64-bit integer.
    pub open spec fn as_u64(self) -> Option<u64> {
        match self {
            JsonView::Number(n) => u64_of(n),
            _ => None,
        }
    }
}

/// Reading a key that was just written gives what was written.
pub proof fn lemma_get_after_set(v: JsonView, key: Seq<char>, value: JsonView)
    requires
        v is Object,
    ensures
        v.set(key, value).get(key) == Some(value),
{
    let entries = v->Object_0;
    let keys = entry_keys(entries);
    lemma_position(keys, key);
    let at = position(keys, key);
    let after = entry_set(entries, key, value);
    let new_keys = entry_keys(after);
    assert forall|j: int| 0 <= j < at implies new_keys[j] != key by {
        assert(new_keys[j] == keys[j]);
    }
    assert(new_keys[at] == key) by {
        if at < entries.len() {
            assert(keys[at] == key);
        }
    }
    lemma_position_is(new_keys, key, at);
}

/// Writing one key leaves what the others hold.
pub proof fn lemma_set_keeps_others(v: JsonView, key: Seq<char>, value: JsonView, other: Seq<char>)
    requires
        key != other,
    ensures
        v.set(key, value).get(other) == v.get(other),
{
    if v is Object {
        let entries = v->Object_0;
        let keys = entry_keys(entries);
        lemma_position(keys, key);
        lemma_position(keys, other);
        let at = position(keys, key);
        let there = position(keys, other);
        let after = entry_set(entries, key, value);
        let new_keys = entry_keys(after);
        if at < entries.len() {
            assert(new_keys =~= keys);
        } else {
            assert(new_keys =~= keys.push(key));
            if there < keys.len() {
                lemma_position_is(new_keys, other, there);
            } else {
                lemma_position_is(new_keys, other, new_keys.len() as int);
            }
        }
    }
}

/// Writing a key keeps the keys of an object unique.
pub proof fn lemma_set_keeps_unique(
    entries: Seq<(Seq<char>, JsonView)>,
    key: Seq<char>,
    value: JsonView,
)
    requires
        unique_keys(entries),
    ensures
        unique_keys(entry_set(entries, key, value)),
{
    let keys = entry_keys(entries);
    lemma_position(keys, key);
    let after = entry_keys(entry_set(entries, key, value));
    if position(keys, key) < entries.len() {
        assert(after =~= keys);
    } else {
        assert(after =~= keys.push(key));
    }
}

/// A key that was removed is gone, and the others hold what they held.
pub proof fn lemma_get_after_without(v: JsonView, key: Seq<char>, other: Seq<char>)
    requires
        v is Object,
        unique_keys(v->Object_0),
    ensures
        v.without(key).get(key) is None,
        other != key ==> v.without(key).get(other) == v.get(other),
        unique_keys(v.without(key)->Object_0),
{
    let entries = v->Object_0;
    let keys = entry_keys(entries);
    let at = position(keys, key);
    let there = position(keys, other);
    lemma_position(keys, key);
    lemma_position(keys, other);
    let after = entry_remove(entries, key);
    let new_keys = entry_keys(after);
    lemma_position(new_keys, key);
    lemma_position(new_keys, other);
    if at < keys.len() {
        let last = keys.len() - 1;
        assert(new_keys =~= keys.update(at, keys.last()).drop_last());
        assert forall|j: int| 0 <= j < new_keys.len() implies new_keys[j] != key by {
            if j == at {
                assert(new_keys[j] == keys[last]);
            } else {
                assert(new_keys[j] == keys[j]);
            }
        }
        if other != key && there < keys.len() {
            let moved = if there == last {
                at
            } else {
                there
            };
            assert(new_keys[moved] == other);
            let found = position(new_keys, other);
            assert(found == moved) by {
                if found != moved {
                    let source = if found == at {
                        last
                    } else {
                        found
                    };
                    assert(keys[source] == other);
                    assert(source != there);
                }
            }
        } else if other != key {
            assert forall|j: int| 0 <= j < new_keys.len() implies new_keys[j] != other by {
                if j == at {
                    assert(new_keys[j] == keys[last]);
                } else {
                    assert(new_keys[j] == keys[j]);
                }
            }
        }
        assert(new_keys.no_duplicates());
    }
}

// ---------------------------------------------------------------------------
// Operations
// ---------------------------------------------------------------------------

/// A copy of a list of values.
pub fn clone_values(items: &Vec<Json>) -> (copy: Vec<Json>)
    ensures
        json_views(copy@) == json_views(items@),
    decreases items,
{
    let mut copy: Vec<Json> = Vec::new();
    for i in 0..items.len()
        invariant
            copy@.len() == i,
            forall|j: int| 0 <= j < i ==> (#[trigger] copy@[j])@ == items@[j]@,
    {
        copy.push(items[i].clone());
    }
    assert(json_views(copy@) =~= json_views(items@));
    copy
}

/// A copy of a list of entries.
pub fn clone_entries(entries: &Vec<(String, Json)>) -> (copy: Vec<(String, Json)>)
    ensures
        entry_views(copy@) == entry_views(entries@),
    decreases entries,
{
    let mut copy: Vec<(String, Json)> = Vec::new();
    for i in 0..entries.len()
        invariant
            copy@.len() == i,
            forall|j: int|
                0 <= j < i ==> (#[trigger] copy@[j]).0@ == entries@[j].0@ && copy@[j].1@
                    == entries@[j].1@,
    {
        copy.push((entries[i].0.clone(), entries[i].1.clone()));
    }
    assert(entry_views(copy@) =~= entry_views(entries@));
    copy
}

impl Clone for Json {
    fn clone(&self) -> (copy: Self)
        ensures
            copy@ == self@,
        decreases self,
    {
        broadcast use group_json_views;

        match self {
            Json::Null => Json::Null,
            Json::Bool(b) => Json::Bool(*b),
            Json::Number(n) => Json::Number(n.clone()),
            Json::Text(s) => Json::Text(s.clone()),
            Json::Array(items) => Json::Array(clone_values(items)),
            Json::Object(entries) => Json::Object(clone_entries(entries)),
        }
    }
}

proof fn lemma_keys_agree(entries: Seq<(String, Json)>)
    ensures
        entry_keys(entry_views(entries)) == keys_of(entries),
{
    assert(entry_keys(entry_views(entries)) =~= keys_of(entries));
}

impl Json {
    /// A text value.
    pub fn text(text: &str) -> (json: Json)
        ensures
            json@ == JsonView::Text(text@),
    {
        Json::Text(text.to_owned())
    }

    /// A number value.
    pub fn number(n: u64) -> (json: Json)
        ensures
            json@ == JsonView::Number(decimal(n as nat)),
    {
        Json::Number(decimal_text(n))
    }

    /// What `key` holds, where this is an object that has it.
    pub fn get(&self, key: &str) -> (r: Option<&Json>)
        ensures
            match r {
                Some(v) => self@.get(key@) == Some(v@),
                None => self@.get(key@) is None,
            },
    {
        broadcast use group_json_views;

        match self {
            Json::Object(entries) => {
                proof {
                    lemma_keys_agree(entries@);
                }
                let at = find_key(entries, key);
                if at < entries.len() {
                    Some(&entries[at].1)
                } else {
                    None
                }
            },
            _ => None,
        }
    }

    /// Whether this is an object that has `key`.
    pub fn has(&self, key: &str) -> (r: bool)
        ensures
            r == (self@.get(key@) is Some),
    {
        self.get(key).is_some()
    }

    /// Writes `value` under `key`; does nothing where this is no object.
    pub fn set(&mut self, key: &str, value: Json)
        ensures
            final(self)@ == old(self)@.set(key@, value@),
    {
        broadcast use group_json_views;

        match self {
            Json::Object(entries) => {
                let ghost before = entries@;
                proof {
                    lemma_keys_agree(before);
                }
                let at = find_key(entries, key);
                if at < entries.len() {
                    let name: String = entries[at].0.clone();
                    entries.set(at, (name, value));
                } else {
                    entries.push((key.to_owned(), value));
                }
                assert(entry_views(entries@) =~= entry_set(entry_views(before), key@, value@));
            },
            _ => {},
        }
    }

    /// Takes `key` out; gives what it held.
    pub fn remove(&mut self, key: &str) -> (r: Option<Json>)
        ensures
            final(self)@ == old(self)@.without(key@),
            opt_json(r) == old(self)@.get(key@),
    {
        broadcast use group_json_views;

        match self {
            Json::Object(entries) => {
                let ghost before = entries@;
                proof {
                    lemma_keys_agree(before);
                }
                let at = find_key(entries, key);
                if at < entries.len() {
                    let taken = entries.swap_remove(at);
                    assert(entry_views(entries@) =~= entry_remove(entry_views(before), key@));
                    Some(taken.1)
                } else {
                    None
                }
            },
            _ => None,
        }
    }

    /// The characters of a text value.
    pub fn as_str(&self) -> (r: Option<&str>)
        ensures
            match r {
                Some(s) => self@.text() == Some(s@),
                None => self@.text() is None,
            },
    {
        match self {
            Json::Text(s) => Some(s.as_str()),
            _ => None,
        }
    }

    /// The items of an array value.
    pub fn as_array(&self) -> (r: Option<&Vec<Json>>)
        ensures
            match r {
                Some(items) => self@.items() == Some(json_views(items@)),
                None => self@.items() is None,
            },
    {
        broadcast use group_json_views;

        match self {
            Json::Array(items) => Some(items),
            _ => None,
        }
    }

    /// The value of a number that is an unsigned 64-bit integer.
    pub fn as_u64(&self) -> (r: Option<u64>)
        ensures
            r == self@.as_u64(),
    {
        match self {
            Json::Number(n) => parse_u64(n.as_str()),
            _ => None,
        }
    }

    /// Whether this is `null`.
    pub fn is_null(&self) -> (r: bool)
        ensures
            r == (self@ is Null),
    {
        match self {
            Json::Null => true,
            _ => false,
        }
    }

    /// Whether this is an object.
    pub fn is_object(&self) -> (r: bool)
        ensures
            r == (self@ is Object),
    {
        match self {
            Json::Object(_) => true,
            _ => false,
        }
    }

    /// The text under `key`.
    pub fn get_str(&self, key: &str) -> (r: Option<&str>)
        ensures
            match r {
                Some(s) => self@.get_text(key@) == Some(s@),
                None => self@.get_text(key@) is None,
            },
    {
        match self.get(key) {
            Some(v) => v.as_str(),
            None => None,
        }
    }

    /// The array under `key`.
    pub fn get_array(&self, key: &str) -> (r: Option<&Vec<Json>>)
        ensures
            match r {
                Some(items) => self@.get_items(key@) == Some(json_views(items@)),
                None => self@.get_items(key@) is None,
            },
    {
        match self.get(key) {
            Some(v) => v.as_array(),
            None => None,
        }
    }

    /// Whether `key` holds the text `wanted`.
    pub fn text_is(&self, key: &str, wanted: &str) -> (r: bool)
        ensures
            r == (self@.get_text(key@) == Some(wanted@)),
    {
        match self.get_str(key) {
            Some(s) => text_eq(s, wanted),
            None => false,
        }
    }
}

/// An object under construction: its entries in the order in which they were
/// added.
pub struct Entries {
    pub list: Vec<(String, Json)>,
}

impl View for Entries {
    type V = Seq<(Seq<char>, JsonView)>;

    open spec fn view(&self) -> Seq<(Seq<char>, JsonView)> {
        entry_views(self.list@)
    }
}

impl Entries {
    /// No entries.
    pub fn new() -> (entries: Entries)
        ensures
            entries@ == Seq::<(Seq<char>, JsonView)>::empty(),
    {
        let entries = Entries { list: Vec::new() };
        assert(entries@ =~= Seq::<(Seq<char>, JsonView)>::empty());
        entries
    }

    /// These entries, then `key` holding `value`.
    pub fn with(self, key: &str, value: Json) -> (entries: Entries)
        ensures
            entries@ == self@.push((key@, value@)),
    {
        let mut list = self.list;
        let ghost before = list@;
        list.push((key.to_owned(), value));
        assert(entry_views(list@) =~= entry_views(before).push((key@, value@)));
        Entries { list }
    }

    /// The object made of these entries.
    pub fn into_object(self) -> (json: Json)
        ensures
            json@ == JsonView::Object(self@),
    {
        broadcast use group_json_views;

        Json::Object(self.list)
    }
}

/// Adds `value` at the end of a list.
pub fn push_value(items: &mut Vec<Json>, value: Json)
    ensures
        json_views(final(items)@) == json_views(old(items)@).push(value@),
{
    let ghost before = items@;
    items.push(value);
    assert(json_views(items@) =~= json_views(before).push(value@));
}

} // verus!
