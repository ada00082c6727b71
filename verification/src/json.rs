//! JSON objects as the SQL console reads them, through `serde_json`.

use vstd::prelude::*;

verus! {

#[verifier::external_type_specification]
#[verifier::external_body]
pub struct ExJsonValue(serde_json::Value);

#[verifier::external_type_specification]
#[verifier::external_body]
#[verifier::reject_recursive_types(K)]
#[verifier::reject_recursive_types(V)]
pub struct ExJsonMap<K, V>(serde_json::Map<K, V>);

/// What the SQL console reads of a JSON value: its kind, and the text it shows for it.
/// `Number` holds the number's JSON text; `Nested` holds the compact JSON text of an
/// array or an object.
pub enum JsonCell {
    Null,
    Bool(bool),
    Number(String),
    Text(String),
    Nested(String),
}

/// What parsing a text as JSON gives, as far as the SQL console reads it.
pub enum JsonParse {
    /// A JSON object, by its entries.
    Object(Map<Seq<char>, JsonCell>),
    /// Valid JSON that is not an object.
    NotObject,
    /// Not valid JSON; the parser's message.
    Invalid(Seq<char>),
}

/// The entries of a `serde_json` object, each value read as a [`JsonCell`].
pub uninterp spec fn json_object_entries(m: serde_json::Map<String, serde_json::Value>) -> Map<Seq<char>, JsonCell>;

/// What `serde_json::from_str::<Value>` gives for a text.
pub uninterp spec fn parsed_json(text: Seq<char>) -> JsonParse;

/// Lexicographic order of texts by character code, which for UTF-8 strings is the
/// order of `Ord for String`.
pub open spec fn text_less(a: Seq<char>, b: Seq<char>) -> bool {
    exists|k: int|
        0 <= k <= a.len() && k <= b.len() && a.take(k) == b.take(k) && ((k == a.len() && k
            < b.len()) || (k < a.len() && k < b.len() && (a[k] as u32) < (b[k] as u32)))
}

/// `serde_json::from_str::<serde_json::Value>`: parses `text`; hands out the map of a
/// JSON object, `None` for any other JSON value, and the parser's message for invalid
/// JSON. The result is named: what it holds for a given text is not written out here.
#[verifier::external_body]
pub fn parse_json_object(text: &str) -> (r: Result<Option<serde_json::Map<String, serde_json::Value>>, String>)
    ensures
        match r {
            Ok(Some(m)) => parsed_json(text@) == JsonParse::Object(json_object_entries(m)),
            Ok(None) => parsed_json(text@) == JsonParse::NotObject,
            Err(e) => parsed_json(text@) == JsonParse::Invalid(e@),
        },
{
    match serde_json::from_str::<serde_json::Value>(text) {
        Ok(serde_json::Value::Object(map)) => Ok(Some(map)),
        Ok(_) => Ok(None),
        Err(error) => Err(error.to_string()),
    }
}

/// `serde_json::Map::keys`: each key of the object once. The map is a `BTreeMap` (the
/// `preserve_order` feature is not enabled in this build), so keys come in ascending
/// order of `String`.
#[verifier::external_body]
pub fn json_object_keys(m: &serde_json::Map<String, serde_json::Value>) -> (r: Vec<String>)
    ensures
        forall|i: int| 0 <= i < r@.len() ==> json_object_entries(*m).dom().contains(#[trigger] r@[i]@),
        forall|key: Seq<char>| #[trigger] json_object_entries(*m).dom().contains(key) ==> exists|i: int| 0 <= i < r@.len() && r@[i]@ == key,
        forall|i: int, j: int| 0 <= i < j < r@.len() ==> text_less(#[trigger] r@[i]@, #[trigger] r@[j]@),
{
    m.keys().cloned().collect()
}

/// `serde_json::Map::get`: the value stored under `key`, read as a [`JsonCell`]:
/// numbers by their `Display` text, arrays and objects by the compact JSON text that
/// `Display for Value` writes.
#[verifier::external_body]
pub fn json_object_cell(m: &serde_json::Map<String, serde_json::Value>, key: &str) -> (r: Option<JsonCell>)
    ensures
        match r {
            Some(c) => json_object_entries(*m).dom().contains(key@) && json_object_entries(*m)[key@] == c,
            None => !json_object_entries(*m).dom().contains(key@),
        },
{
    match m.get(key) {
        None => None,
        Some(serde_json::Value::Null) => Some(JsonCell::Null),
        Some(serde_json::Value::Bool(b)) => Some(JsonCell::Bool(*b)),
        Some(serde_json::Value::Number(n)) => Some(JsonCell::Number(n.to_string())),
        Some(serde_json::Value::String(s)) => Some(JsonCell::Text(s.clone())),
        Some(nested) => Some(JsonCell::Nested(nested.to_string())),
    }
}

} // verus!
