//! JSON documents.
//!
//! `serde_json` reads them. What the sources are asked about an answer is asked of [`Json`],
//! which holds the same document as plain values.

use vstd::prelude::*;

use crate::text::same;

verus! {

/// A JSON value.
#[derive(Debug)]
pub enum Json {
    Null,
    Bool(bool),
    /// A number: as an integer, where it is one that an `i64` holds, and as the bit pattern
    /// of a double.
    Number { integer: Option<i64>, double: Option<u64> },
    Text(String),
    Array(Vec<Json>),
    /// The fields of an object. No two have the same name.
    Object(Vec<(String, Json)>),
}

/// What a [`Json`] value says.
pub ghost enum JsonView {
    Null,
    Bool(bool),
    Number { integer: Option<i64>, double: Option<u64> },
    Text(Seq<char>),
    Array(Seq<JsonView>),
    Object(Seq<(Seq<char>, JsonView)>),
}

impl View for Json {
    type V = JsonView;

    open spec fn view(&self) -> JsonView {
        tree(*self)
    }
}

/// A value with everything in it.
pub open spec fn tree(json: Json) -> JsonView
    decreases json,
{
    match json {
        Json::Null => JsonView::Null,
        Json::Bool(b) => JsonView::Bool(b),
        Json::Number { integer, double } => JsonView::Number { integer, double },
        Json::Text(s) => JsonView::Text(s@),
        Json::Array(items) => JsonView::Array(
            Seq::new(
                items@.len(),
                |i: int|
                    if 0 <= i < items@.len() {
                        tree(items@[i])
                    } else {
                        JsonView::Null
                    },
            ),
        ),
        Json::Object(fields) => JsonView::Object(
            Seq::new(
                fields@.len(),
                |i: int|
                    if 0 <= i < fields@.len() {
                        (fields@[i].0@, tree(fields@[i].1))
                    } else {
                        (Seq::empty(), JsonView::Null)
                    },
            ),
        ),
    }
}

// ------------------------------------------------------------------------- reading

#[verifier::external_type_specification]
#[verifier::external_body]
pub struct ExValue(serde_json::Value);

/// The document that a `serde_json::Value` holds.
pub uninterp spec fn value_tree(value: serde_json::Value) -> JsonView;

/// The document that `serde_json::from_str` reads from a text, where it reads one.
pub uninterp spec fn json_in_text(text: Seq<char>) -> Option<JsonView>;

/// The document that `serde_json::from_slice` reads from bytes, where it reads one.
pub uninterp spec fn json_in_bytes(bytes: Seq<u8>) -> Option<JsonView>;

/// `serde_json::from_str`: what it reads from a text is a function of the text. Which texts
/// are JSON is left unsaid.
#[verifier::external_body]
fn value_from_str(text: &str) -> (value: Option<serde_json::Value>)
    ensures
        match value {
            Some(value) => json_in_text(text@) == Some(value_tree(value)),
            None => json_in_text(text@) is None,
        },
{
    serde_json::from_str(text).ok()
}

/// `serde_json::from_slice`: what it reads from bytes is a function of the bytes. Which bytes
/// are JSON is left unsaid.
#[verifier::external_body]
fn value_from_slice(bytes: &[u8]) -> (value: Option<serde_json::Value>)
    ensures
        match value {
            Some(value) => json_in_bytes(bytes@) == Some(value_tree(value)),
            None => json_in_bytes(bytes@) is None,
        },
{
    serde_json::from_slice(bytes).ok()
}

/// The document in a `serde_json::Value`, variant by variant: a number through
/// `serde_json::Number::as_i64` and `as_f64`, everything else as it is.
#[verifier::external_body]
fn json_of(value: serde_json::Value) -> (json: Json)
    ensures
        json@ == value_tree(value),
{
    match value {
        serde_json::Value::Null => Json::Null,
        serde_json::Value::Bool(b) => Json::Bool(b),
        serde_json::Value::Number(n) => Json::Number {
            integer: n.as_i64(),
            double: n.as_f64().map(|d| d.to_bits()),
        },
        serde_json::Value::String(s) => Json::Text(s),
        serde_json::Value::Array(items) => Json::Array(items.into_iter().map(json_of).collect()),
        serde_json::Value::Object(map) => Json::Object(
            map.into_iter().map(|(name, value)| (name, json_of(value))).collect(),
        ),
    }
}

/// Whether a document that may be missing is the one named.
pub open spec fn is_document(json: Option<Json>, named: Option<JsonView>) -> bool {
    match json {
        Some(json) => named == Some(json@),
        None => named is None,
    }
}

/// Read a JSON document from a text.
pub fn parse_text(text: &str) -> (json: Option<Json>)
    ensures
        is_document(json, json_in_text(text@)),
{
    match value_from_str(text) {
        Some(value) => Some(json_of(value)),
        None => None,
    }
}

/// Read a JSON document from bytes.
pub fn parse_bytes(bytes: &[u8]) -> (json: Option<Json>)
    ensures
        is_document(json, json_in_bytes(bytes@)),
{
    match value_from_slice(bytes) {
        Some(value) => Some(json_of(value)),
        None => None,
    }
}

// ------------------------------------------------------------------------- asking

/// The value of the field with this name.
pub open spec fn field_in(fields: Seq<(Seq<char>, JsonView)>, name: Seq<char>) -> Option<JsonView>
    decreases fields.len(),
{
    if fields.len() == 0 {
        None
    } else if fields[0].0 == name {
        Some(fields[0].1)
    } else {
        field_in(fields.drop_first(), name)
    }
}

/// The value of a field: nothing, where the value is no object or has no such field.
pub open spec fn field(value: JsonView, name: Seq<char>) -> Option<JsonView> {
    match value {
        JsonView::Object(fields) => field_in(fields, name),
        _ => None,
    }
}

/// The field of a value that may be missing.
pub open spec fn within(value: Option<JsonView>, name: Seq<char>) -> Option<JsonView> {
    match value {
        Some(value) => field(value, name),
        None => None,
    }
}

/// The text that a value is, where it is one.
pub open spec fn text_in(value: Option<JsonView>) -> Option<Seq<char>> {
    match value {
        Some(JsonView::Text(s)) => Some(s),
        _ => None,
    }
}

/// The text that a value is, or no characters.
pub open spec fn text_or_empty(value: Option<JsonView>) -> Seq<char> {
    match value {
        Some(JsonView::Text(s)) => s,
        _ => Seq::empty(),
    }
}

/// The items of a value, where it is an array.
pub open spec fn items_in(value: Option<JsonView>) -> Option<Seq<JsonView>> {
    match value {
        Some(JsonView::Array(items)) => Some(items),
        _ => None,
    }
}

/// The items of an array, none where the value is something else.
pub open spec fn items_or_empty(value: Option<JsonView>) -> Seq<JsonView> {
    match value {
        Some(JsonView::Array(items)) => items,
        _ => Seq::empty(),
    }
}

/// The integer that a value is, where it is one.
pub open spec fn integer_in(value: Option<JsonView>) -> Option<i64> {
    match value {
        Some(JsonView::Number { integer, double }) => integer,
        _ => None,
    }
}

/// The bit pattern of the number that a value is, where it is one.
pub open spec fn double_in(value: Option<JsonView>) -> Option<u64> {
    match value {
        Some(JsonView::Number { integer, double }) => double,
        _ => None,
    }
}

/// The truth value that a value is, where it is one.
pub open spec fn bool_in(value: Option<JsonView>) -> Option<bool> {
    match value {
        Some(JsonView::Bool(b)) => Some(b),
        _ => None,
    }
}

/// What a value that may be missing says.
pub open spec fn viewed(value: Option<&Json>) -> Option<JsonView> {
    match value {
        Some(value) => Some(value@),
        None => None,
    }
}

impl Json {
    /// The value of a field.
    pub fn get(&self, name: &str) -> (value: Option<&Json>)
        ensures
            viewed(value) == field(self@, name@),
    {
        match self {
            Json::Object(fields) => {
                let ghost all = self@->Object_0;
                let mut i: usize = 0;
                assert(all.skip(0) == all);
                while i < fields.len()
                    invariant
                        i <= fields@.len(),
                        self == Json::Object(*fields),
                        all == self@->Object_0,
                        all.len() == fields@.len(),
                        field_in(all, name@) == field_in(all.skip(i as int), name@),
                    decreases fields@.len() - i,
                {
                    assert(all.skip(i as int)[0] == (fields@[i as int].0@, fields@[i as int].1@));
                    if same(fields[i].0.as_str(), name) {
                        return Some(&fields[i].1);
                    }
                    assert(all.skip(i as int).drop_first() == all.skip(i + 1));
                    i += 1;
                }
                None
            },
            _ => None,
        }
    }
}

/// The field of a value that may be missing.
pub fn get_within<'a>(value: Option<&'a Json>, name: &str) -> (found: Option<&'a Json>)
    ensures
        viewed(found) == within(viewed(value), name@),
{
    match value {
        Some(value) => value.get(name),
        None => None,
    }
}

/// The text that a value is, where it is one.
pub fn as_text(value: Option<&Json>) -> (text: Option<String>)
    ensures
        text.deep_view() == text_in(viewed(value)),
{
    match value {
        Some(Json::Text(s)) => Some(s.clone()),
        _ => None,
    }
}

/// The text that a value is, or an empty one.
pub fn as_text_or_empty(value: Option<&Json>) -> (text: String)
    ensures
        text@ == text_or_empty(viewed(value)),
{
    match value {
        Some(Json::Text(s)) => s.clone(),
        _ => String::new(),
    }
}

/// The items of a value, where it is an array.
pub fn as_array(value: Option<&Json>) -> (items: Option<&Vec<Json>>)
    ensures
        match items {
            Some(items) => {
                &&& items_in(viewed(value)) is Some
                &&& items_in(viewed(value))->0.len() == items@.len()
                &&& forall|i: int|
                    0 <= i < items@.len() ==> (#[trigger] items@[i])@ == items_in(
                        viewed(value),
                    )->0[i]
            },
            None => items_in(viewed(value)) is None,
        },
{
    match value {
        Some(Json::Array(items)) => Some(items),
        _ => None,
    }
}

/// The integer that a value is, where it is one.
pub fn as_i64(value: Option<&Json>) -> (integer: Option<i64>)
    ensures
        integer == integer_in(viewed(value)),
{
    match value {
        Some(Json::Number { integer, double: _ }) => *integer,
        _ => None,
    }
}

/// The bit pattern of the number that a value is, where it is one.
pub fn as_double_bits(value: Option<&Json>) -> (bits: Option<u64>)
    ensures
        bits == double_in(viewed(value)),
{
    match value {
        Some(Json::Number { integer: _, double }) => *double,
        _ => None,
    }
}

/// The truth value that a value is, where it is one.
pub fn as_bool(value: Option<&Json>) -> (truth: Option<bool>)
    ensures
        truth == bool_in(viewed(value)),
{
    match value {
        Some(Json::Bool(b)) => Some(*b),
        _ => None,
    }
}

/// Whether a value is an object.
pub fn is_object(value: Option<&Json>) -> (r: bool)
    ensures
        r == (viewed(value) is Some && viewed(value)->0 is Object),
{
    match value {
        Some(Json::Object(_)) => true,
        _ => false,
    }
}

} // verus!
