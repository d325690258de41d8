//! The JSON values that yt-dlp prints, one per line: their own fields and,
//! below those, the objects of a list. Nothing deeper is ever read.

use serde_json::Value;
use vstd::prelude::*;

use crate::text;
use crate::text::same_text;

verus! {

/// What one JSON value reads as: its text if it is a string, its value if it
/// is an integer in range, and the bits of the double nearest to it if it is
/// a number.
#[derive(Debug, PartialEq, Eq)]
pub struct JsonScalar {
    pub text: Option<String>,
    pub integer: Option<i64>,
    pub float_bits: Option<u64>,
}

/// `JsonScalar`, over characters.
pub struct JsonScalarView {
    pub text: Option<Seq<char>>,
    pub integer: Option<i64>,
    pub float_bits: Option<u64>,
}

impl View for JsonScalar {
    type V = JsonScalarView;

    open spec fn view(&self) -> JsonScalarView {
        JsonScalarView {
            text: text::opt_text(self.text),
            integer: self.integer,
            float_bits: self.float_bits,
        }
    }
}

/// A JSON value as far as its own fields go, if it is an object.
#[derive(Debug, PartialEq, Eq)]
pub struct JsonObject {
    pub fields: Option<Vec<(String, JsonScalar)>>,
}

/// The fields of a JSON value, if it is an object.
pub type ObjectView = Option<Seq<(Seq<char>, JsonScalarView)>>;

impl View for JsonObject {
    type V = ObjectView;

    open spec fn view(&self) -> ObjectView {
        match self.fields {
            Some(fields) => Some(fields@.map_values(|f: (String, JsonScalar)| (f.0@, f.1@))),
            None => None,
        }
    }
}

/// One JSON value of yt-dlp's output: its own fields, and the elements of
/// its `formats` list if it has one.
#[derive(Debug, PartialEq, Eq)]
pub struct JsonEntry {
    pub object: JsonObject,
    pub formats: Option<Vec<JsonObject>>,
}

/// `JsonEntry`, over characters.
pub struct EntryView {
    pub object: ObjectView,
    pub formats: Option<Seq<ObjectView>>,
}

/// The elements of an optional list.
pub open spec fn opt_objects(list: Option<Vec<JsonObject>>) -> Option<Seq<ObjectView>> {
    match list {
        Some(objects) => Some(objects@.map_values(|o: JsonObject| o@)),
        None => None,
    }
}

impl View for JsonEntry {
    type V = EntryView;

    open spec fn view(&self) -> EntryView {
        EntryView { object: self.object@, formats: opt_objects(self.formats) }
    }
}

/// The value under `key`, from index `i` on.
pub open spec fn lookup_from(
    fields: Seq<(Seq<char>, JsonScalarView)>,
    key: Seq<char>,
    i: int,
) -> Option<JsonScalarView>
    decreases fields.len() - i,
{
    if i < 0 || i >= fields.len() {
        None
    } else if fields[i].0 == key {
        Some(fields[i].1)
    } else {
        lookup_from(fields, key, i + 1)
    }
}

/// The value under `key`, if the value is an object that holds one.
pub open spec fn lookup(object: ObjectView, key: Seq<char>) -> Option<JsonScalarView> {
    match object {
        Some(fields) => lookup_from(fields, key, 0),
        None => None,
    }
}

/// The string under `key`.
pub open spec fn text_under(object: ObjectView, key: Seq<char>) -> Option<Seq<char>> {
    match lookup(object, key) {
        Some(value) => value.text,
        None => None,
    }
}

/// The integer under `key`.
pub open spec fn integer_under(object: ObjectView, key: Seq<char>) -> Option<i64> {
    match lookup(object, key) {
        Some(value) => value.integer,
        None => None,
    }
}

/// What a text reads as when it is one JSON value: that value's own fields,
/// and the elements of the list under `key`.
pub uninterp spec fn json_value(text: Seq<char>, key: Seq<char>) -> Option<EntryView>;

/// The entry that a text reads as when it is one JSON value.
pub open spec fn json_entry(text: Seq<char>) -> Option<EntryView> {
    json_value(text, "formats"@)
}

/// The view of an optional entry.
pub open spec fn opt_entry(entry: Option<JsonEntry>) -> Option<EntryView> {
    match entry {
        Some(e) => Some(e@),
        None => None,
    }
}

/// `serde_json::from_str` into a `serde_json::Value`, laid out as plain
/// values through its accessors: its own fields if it is an object, and the
/// elements of the list under `key` if it has one. Nothing is claimed but
/// that the same text and key always read the same way.
#[verifier::external_body]
fn read_value(text: &str, key: &str) -> (entry: Option<JsonEntry>)
    ensures
        opt_entry(entry) == json_value(text@, key@),
{
    let value: Value = serde_json::from_str(text).ok()?;
    let scalar = |v: &Value| JsonScalar {
        text: v.as_str().map(String::from),
        integer: v.as_i64(),
        float_bits: v.as_f64().map(|x| x.to_bits()),
    };
    let object = |v: &Value| JsonObject {
        fields: v.as_object().map(|o| o.iter().map(|(k, v)| (k.clone(), scalar(v))).collect()),
    };
    let list = value.get(key).and_then(Value::as_array);
    let formats = list.map(|rows| rows.iter().map(object).collect());
    Some(JsonEntry { object: object(&value), formats })
}

/// Reads one JSON value.
pub fn parse_entry(text: &str) -> (entry: Option<JsonEntry>)
    ensures
        opt_entry(entry) == json_entry(text@),
{
    read_value(text, "formats")
}

impl JsonObject {
    /// The value under `key`, if this is an object that holds one.
    pub fn get(&self, key: &str) -> (value: Option<&JsonScalar>)
        ensures
            lookup(self@, key@) == (match value {
                Some(v) => Some(v@),
                None => None,
            }),
    {
        match &self.fields {
            Some(fields) => {
                let ghost all = fields@.map_values(|f: (String, JsonScalar)| (f.0@, f.1@));
                let mut i: usize = 0;
                while i < fields.len()
                    invariant
                        i <= fields@.len(),
                        all == fields@.map_values(|f: (String, JsonScalar)| (f.0@, f.1@)),
                        lookup_from(all, key@, 0) == lookup_from(all, key@, i as int),
                        self@ == Some(all),
                    decreases fields@.len() - i,
                {
                    if same_text(fields[i].0.as_str(), key) {
                        return Some(&fields[i].1);
                    }
                    i += 1;
                }
                None
            },
            None => None,
        }
    }

    /// The string under `key`.
    pub fn text(&self, key: &str) -> (text: Option<String>)
        ensures
            text::opt_text(text) == text_under(self@, key@),
    {
        match self.get(key) {
            Some(value) => value.text.clone(),
            None => None,
        }
    }

    /// The integer under `key`.
    pub fn integer(&self, key: &str) -> (number: Option<i64>)
        ensures
            number == integer_under(self@, key@),
    {
        match self.get(key) {
            Some(value) => value.integer,
            None => None,
        }
    }
}

/// What is under a key is the value of the first field of that name, and
/// there is nothing under a key that no field has.
pub proof fn law_lookup_finds_the_field(
    fields: Seq<(Seq<char>, JsonScalarView)>,
    key: Seq<char>,
    i: int,
)
    requires
        0 <= i <= fields.len(),
        forall|j: int| 0 <= j < i ==> (#[trigger] fields[j]).0 != key,
        i < fields.len() ==> fields[i].0 == key,
    ensures
        i < fields.len() ==> {
            &&& lookup(Some(fields), key) == Some(fields[i].1)
            &&& text_under(Some(fields), key) == fields[i].1.text
            &&& integer_under(Some(fields), key) == fields[i].1.integer
        },
        i == fields.len() ==> {
            &&& lookup(Some(fields), key) is None
            &&& text_under(Some(fields), key) is None
            &&& integer_under(Some(fields), key) is None
        },
        lookup(None, key) is None,
        text_under(None, key) is None,
        integer_under(None, key) is None,
{
    lemma_lookup_from(fields, key, i, 0);
}

proof fn lemma_lookup_from(
    fields: Seq<(Seq<char>, JsonScalarView)>,
    key: Seq<char>,
    i: int,
    from: int,
)
    requires
        0 <= from <= i <= fields.len(),
        forall|j: int| 0 <= j < i ==> (#[trigger] fields[j]).0 != key,
        i < fields.len() ==> fields[i].0 == key,
    ensures
        i < fields.len() ==> lookup_from(fields, key, from) == Some(fields[i].1),
        i == fields.len() ==> lookup_from(fields, key, from) is None,
    decreases i - from,
{
    if from < i {
        assert(fields[from].0 != key);
        lemma_lookup_from(fields, key, i, from + 1);
    }
}

/// An entry is seen with all of its own fields, in order, and with the
/// elements of its list, in order.
pub proof fn law_entries_are_seen_as_they_are(entry: JsonEntry, i: int)
    ensures
        entry@.object is Some == entry.object.fields is Some,
        entry.object.fields matches Some(fields) ==> entry@.object->0.len() == fields@.len() && (0
            <= i < fields@.len() ==> {
            let seen = entry@.object->0[i];
            &&& seen.0 == fields@[i].0@
            &&& seen.1.text is Some == fields@[i].1.text is Some
            &&& fields@[i].1.text matches Some(t) ==> seen.1.text == Some(t@)
            &&& seen.1.integer == fields@[i].1.integer
            &&& seen.1.float_bits == fields@[i].1.float_bits
        }),
        entry@.formats is Some == entry.formats is Some,
        entry.formats matches Some(list) ==> entry@.formats->0.len() == list@.len() && (0 <= i
            < list@.len() ==> entry@.formats->0[i] == list@[i]@),
        opt_entry(Some(entry)) == Some(entry@),
        opt_entry(None) is None,
{
}

} // verus!
