//! The table of formatted properties that a template is rendered
//! against: a JSON object whose values are all texts. Keys are unique,
//! and a later value for a key replaces the earlier one.
//!
//! The object itself is serde_json's. What it holds is given a name
//! here, and the contracts of the three calls that are made on it say
//! what they do to that content.

use crate::text::str_eq;
use vstd::prelude::*;

verus! {

/// `serde_json::Map`, the JSON object. Nothing inside it is visible
/// here; see `json_entries`.
#[verifier::external_type_specification]
#[verifier::external_body]
#[verifier::reject_recursive_types(K)]
#[verifier::reject_recursive_types(V)]
pub struct ExJsonMap<K, V>(serde_json::Map<K, V>);

/// `serde_json::Value`, one JSON value. Nothing inside it is visible
/// here.
#[verifier::external_type_specification]
#[verifier::external_body]
pub struct ExJsonValue(serde_json::Value);

/// A JSON object with texts for keys.
pub type JsonObject = serde_json::Map<String, serde_json::Value>;

/// What a JSON object holds: under each of its keys the text of the
/// value, or `None` where the value is not a text.
pub uninterp spec fn json_entries(data: JsonObject) -> Map<Seq<char>, Option<Seq<char>>>;

/// The text of an optional string.
pub open spec fn opt_text(text: Option<String>) -> Option<Seq<char>> {
    match text {
        Some(t) => Some(t@),
        None => None,
    }
}

/// The content of an object that holds nothing.
pub open spec fn no_entries() -> Map<Seq<char>, Option<Seq<char>>> {
    Map::empty()
}

/// Calls `serde_json::Map::new`. Trusted: the new object holds nothing.
#[verifier::external_body]
fn new_object() -> (object: JsonObject)
    ensures
        json_entries(object) == no_entries(),
{
    serde_json::Map::new()
}

/// Calls `serde_json::Map::insert` with a text value. Trusted: the key
/// holds the new text afterwards, whether or not it was there before,
/// and every other key is as it was.
#[verifier::external_body]
fn insert_text(data: &mut JsonObject, key: String, value: String)
    ensures
        json_entries(*final(data)) == json_entries(*old(data)).insert(key@, Some(value@)),
{
    data.insert(key, serde_json::Value::String(value));
}

/// Calls `serde_json::Map::iter` and copies each entry out. Trusted:
/// every key of the object comes exactly once, with the text of its
/// value; nothing is said of the order.
#[verifier::external_body]
fn text_entries(data: &JsonObject) -> (list: Vec<(String, Option<String>)>)
    ensures
        forall|i: int|
            0 <= i < list@.len() ==> json_entries(*data).dom().contains((#[trigger] list@[i]).0@)
                && json_entries(*data)[list@[i].0@] == opt_text(list@[i].1),
        forall|i: int, j: int|
            0 <= i < list@.len() && 0 <= j < list@.len() && (#[trigger] list@[i]).0@ == (
            #[trigger] list@[j]).0@ ==> i == j,
        forall|key: Seq<char>| #[trigger]
            json_entries(*data).dom().contains(key) ==> exists|i: int|
                0 <= i < list@.len() && (#[trigger] list@[i]).0@ == key,
{
    data.iter().map(|(key, value)| (key.clone(), value.as_str().map(String::from))).collect()
}

/// One row: a key and its formatted value.
pub type Row = (Seq<char>, Seq<char>);

/// The rows of a list of pairs of texts.
pub open spec fn row_views(rows: Seq<(String, String)>) -> Seq<Row> {
    rows.map_values(|row: (String, String)| (row.0@, row.1@))
}

/// A table of formatted properties.
pub struct PropertyTable {
    data: JsonObject,
}

impl View for PropertyTable {
    type V = Map<Seq<char>, Seq<char>>;

    /// The value under each key.
    closed spec fn view(&self) -> Map<Seq<char>, Seq<char>> {
        Map::new(
            |key: Seq<char>| json_entries(self.data).dom().contains(key),
            |key: Seq<char>|
                match json_entries(self.data)[key] {
                    Some(text) => text,
                    None => Seq::<char>::empty(),
                },
        )
    }
}

impl PropertyTable {
    /// Every value is a text.
    #[verifier::type_invariant]
    spec fn holds_texts(self) -> bool {
        forall|key: Seq<char>| #[trigger]
            json_entries(self.data).dom().contains(key) ==> json_entries(self.data)[key] is Some
    }

    /// A table without rows.
    pub fn new() -> (table: PropertyTable)
        ensures
            table@ == Map::<Seq<char>, Seq<char>>::empty(),
    {
        let table = PropertyTable { data: new_object() };
        proof {
            assert(table@ =~= Map::<Seq<char>, Seq<char>>::empty());
        }
        table
    }

    /// Gives `key` the value `value`: the last write for a key wins.
    pub fn insert(&mut self, key: String, value: String)
        ensures
            final(self)@ == old(self)@.insert(key@, value@),
    {
        proof {
            use_type_invariant(&*self);
        }
        let mut data = new_object();
        std::mem::swap(&mut self.data, &mut data);
        insert_text(&mut data, key, value);
        self.data = data;
        proof {
            assert(self@ =~= old(self)@.insert(key@, value@));
        }
    }

    /// The rows of the table: every key once, with its value, in the
    /// order in which the JSON object hands them out.
    pub fn rows(&self) -> (rows: Vec<(String, String)>)
        ensures
            forall|i: int|
                0 <= i < rows@.len() ==> self@.dom().contains((#[trigger] row_views(rows@)[i]).0)
                    && self@[row_views(rows@)[i].0] == row_views(rows@)[i].1,
            forall|i: int, j: int|
                0 <= i < rows@.len() && 0 <= j < rows@.len() && (#[trigger] row_views(rows@)[i]).0
                    == (#[trigger] row_views(rows@)[j]).0 ==> i == j,
            forall|key: Seq<char>| #[trigger]
                self@.dom().contains(key) ==> exists|i: int|
                    0 <= i < rows@.len() && (#[trigger] row_views(rows@)[i]).0 == key,
    {
        proof {
            use_type_invariant(self);
        }
        let list = text_entries(&self.data);
        let mut rows: Vec<(String, String)> = Vec::new();
        let mut i: usize = 0;
        while i < list.len()
            invariant
                i <= list@.len(),
                rows@.len() == i,
                forall|k: int|
                    0 <= k < list@.len() ==> json_entries(self.data).dom().contains(
                        (#[trigger] list@[k]).0@,
                    ) && json_entries(self.data)[list@[k].0@] == opt_text(list@[k].1),
                forall|key: Seq<char>| #[trigger]
                    json_entries(self.data).dom().contains(key) ==> json_entries(
                        self.data,
                    )[key] is Some,
                forall|k: int|
                    0 <= k < i ==> (#[trigger] rows@[k]).0@ == list@[k].0@ && Some(rows@[k].1@)
                        == opt_text(list@[k].1),
            decreases list@.len() - i,
        {
            let key = list[i].0.clone();
            let value = match &list[i].1 {
                Some(text) => text.clone(),
                None => {
                    proof {
                        assert(json_entries(self.data).dom().contains(list@[i as int].0@));
                        assert(false);
                    }
                    String::new()
                },
            };
            rows.push((key, value));
            i = i + 1;
        }
        proof {
            let views = row_views(rows@);
            assert forall|k: int| 0 <= k < rows@.len() implies self@.dom().contains(
                (#[trigger] views[k]).0,
            ) && self@[views[k].0] == views[k].1 by {
                assert(rows@[k].0@ == list@[k].0@);
            }
            assert forall|a: int, b: int|
                0 <= a < rows@.len() && 0 <= b < rows@.len() && (#[trigger] views[a]).0 == (
                #[trigger] views[b]).0 implies a == b by {
                assert(rows@[a].0@ == list@[a].0@);
                assert(rows@[b].0@ == list@[b].0@);
            }
            assert forall|key: Seq<char>| #[trigger] self@.dom().contains(key) implies exists|
                k: int,
            |
                0 <= k < rows@.len() && (#[trigger] views[k]).0 == key by {
                assert(json_entries(self.data).dom().contains(key));
                let k = choose|k: int| 0 <= k < list@.len() && (#[trigger] list@[k]).0@ == key;
                assert(rows@[k].0@ == list@[k].0@);
                assert(views[k].0 == key);
            }
        }
        rows
    }

    /// The value under `key`, where there is one.
    pub fn get(&self, key: &str) -> (value: Option<String>)
        ensures
            match value {
                Some(v) => self@.dom().contains(key@) && self@[key@] == v@,
                None => !self@.dom().contains(key@),
            },
    {
        let rows = self.rows();
        let mut i: usize = 0;
        while i < rows.len()
            invariant
                i <= rows@.len(),
                forall|k: int| 0 <= k < i ==> (#[trigger] row_views(rows@)[k]).0 != key@,
                forall|k: int|
                    0 <= k < rows@.len() ==> self@.dom().contains(
                        (#[trigger] row_views(rows@)[k]).0,
                    ) && self@[row_views(rows@)[k].0] == row_views(rows@)[k].1,
            decreases rows@.len() - i,
        {
            if str_eq(rows[i].0.as_str(), key) {
                proof {
                    assert(row_views(rows@)[i as int].0 == key@);
                }
                return Some(rows[i].1.clone());
            }
            i = i + 1;
        }
        proof {
            if self@.dom().contains(key@) {
                let k = choose|k: int|
                    0 <= k < rows@.len() && (#[trigger] row_views(rows@)[k]).0 == key@;
                assert(row_views(rows@)[k].0 != key@);
            }
        }
        None
    }

    /// The table as the JSON object that a template engine takes.
    pub fn as_json(&self) -> (data: &JsonObject)
        ensures
            forall|key: Seq<char>|
                self@.dom().contains(key) <==> #[trigger] json_entries(*data).dom().contains(key),
            forall|key: Seq<char>| #[trigger]
                self@.dom().contains(key) ==> json_entries(*data)[key] == Some(self@[key]),
    {
        proof {
            use_type_invariant(self);
        }
        &self.data
    }
}

} // verus!
