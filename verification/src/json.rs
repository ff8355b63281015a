//! A JSON document tree of the library's own, the accessors that the version
//! detection reads it with, and the parse of JSON text through `serde_json`.

use vstd::prelude::*;

verus! {

/// A JSON value. Strings and object keys are held as characters; the keys of
/// an object are those of the parsed document, each once.
pub enum JsonValue {
    Null,
    Bool(bool),
    /// A number, by its decimal text.
    Number(Vec<char>),
    Str(Vec<char>),
    Array(Vec<JsonValue>),
    Object(Vec<(Vec<char>, JsonValue)>),
}

#[verifier::external_type_specification]
#[verifier::external_body]
pub struct ExSerdeJsonValue(serde_json::Value);

/// What `serde_json::from_str::<serde_json::Value>` makes of a text, as a
/// [`JsonValue`] (`None` where the text is not a JSON document).
pub uninterp spec fn json_parse(text: Seq<char>) -> Option<JsonValue>;

/// Converts a `serde_json::Value` into a [`JsonValue`], variant by variant:
/// strings and keys become their characters, numbers their `Display` text,
/// arrays and objects are converted element by element in the order in which
/// `serde_json` holds them.
#[verifier::external_body]
fn from_serde(v: serde_json::Value) -> JsonValue {
    match v {
        serde_json::Value::Null => JsonValue::Null,
        serde_json::Value::Bool(b) => JsonValue::Bool(b),
        serde_json::Value::Number(n) => JsonValue::Number(n.to_string().chars().collect()),
        serde_json::Value::String(s) => JsonValue::Str(s.chars().collect()),
        serde_json::Value::Array(a) => JsonValue::Array(a.into_iter().map(from_serde).collect()),
        serde_json::Value::Object(o) => JsonValue::Object(
            o.into_iter().map(|(k, x)| (k.chars().collect(), from_serde(x))).collect(),
        ),
    }
}

/// `serde_json::from_str::<serde_json::Value>(text).ok()`, converted to a
/// [`JsonValue`]. The contract claims only that the result is a function of
/// the text, named [`json_parse`]; the JSON grammar itself is not stated.
#[verifier::external_body]
pub fn parse_json(text: &str) -> (r: Option<JsonValue>)
    ensures
        r == json_parse(text@),
{
    serde_json::from_str::<serde_json::Value>(text).ok().map(from_serde)
}

/// The value of the first field named `key` from index `i` of `fields` on.
pub open spec fn field_from(fields: Seq<(Vec<char>, JsonValue)>, key: Seq<char>, i: int) -> Option<
    JsonValue,
>
    decreases fields.len() - i,
{
    if i < 0 || i >= fields.len() {
        None
    } else if fields[i].0@ == key {
        Some(fields[i].1)
    } else {
        field_from(fields, key, i + 1)
    }
}

/// `Value::get` with a string key: the field `key` of an object, else nothing.
pub open spec fn json_get(v: JsonValue, key: Seq<char>) -> Option<JsonValue> {
    match v {
        JsonValue::Object(fields) => field_from(fields@, key, 0),
        _ => None,
    }
}

/// `Value::as_str`.
pub open spec fn json_str(v: JsonValue) -> Option<Seq<char>> {
    match v {
        JsonValue::Str(s) => Some(s@),
        _ => None,
    }
}

/// `Value::as_array`.
pub open spec fn json_array(v: JsonValue) -> Option<Seq<JsonValue>> {
    match v {
        JsonValue::Array(a) => Some(a@),
        _ => None,
    }
}

/// `json.get(key).and_then(|v| v.as_str())`.
pub open spec fn get_str(v: JsonValue, key: Seq<char>) -> Option<Seq<char>> {
    match json_get(v, key) {
        Some(x) => json_str(x),
        None => None,
    }
}

/// `json.get(key).and_then(|v| v.as_array())`.
pub open spec fn get_array(v: JsonValue, key: Seq<char>) -> Option<Seq<JsonValue>> {
    match json_get(v, key) {
        Some(x) => json_array(x),
        None => None,
    }
}

/// The value behind an optional reference.
pub open spec fn deref_opt<T>(r: Option<&T>) -> Option<T> {
    match r {
        Some(x) => Some(*x),
        None => None,
    }
}

/// `Value::get` with a string key.
pub fn get<'a>(v: &'a JsonValue, key: &Vec<char>) -> (r: Option<&'a JsonValue>)
    ensures
        deref_opt(r) == json_get(*v, key@),
{
    match v {
        JsonValue::Object(fields) => {
            let mut i: usize = 0;
            while i < fields.len()
                invariant
                    i <= fields.len(),
                    *v == JsonValue::Object(*fields),
                    field_from(fields@, key@, 0) == field_from(fields@, key@, i as int),
                decreases fields.len() - i,
            {
                let entry = &fields[i];
                if crate::text::chars_eq(&entry.0, key) {
                    assert(fields@[i as int].0@ == key@);
                    return Some(&entry.1);
                }
                i = i + 1;
            }
            None
        },
        _ => None,
    }
}

/// `Value::as_str`.
pub fn as_str(v: &JsonValue) -> (r: Option<&Vec<char>>)
    ensures
        match r {
            Some(s) => json_str(*v) == Some(s@),
            None => json_str(*v) is None,
        },
{
    match v {
        JsonValue::Str(s) => Some(s),
        _ => None,
    }
}

/// `Value::as_array`.
pub fn as_array(v: &JsonValue) -> (r: Option<&Vec<JsonValue>>)
    ensures
        match r {
            Some(a) => json_array(*v) == Some(a@),
            None => json_array(*v) is None,
        },
{
    match v {
        JsonValue::Array(a) => Some(a),
        _ => None,
    }
}

/// `json.get(key).and_then(|v| v.as_str())`.
pub fn get_str_exec<'a>(v: &'a JsonValue, key: &Vec<char>) -> (r: Option<&'a Vec<char>>)
    ensures
        match r {
            Some(s) => get_str(*v, key@) == Some(s@),
            None => get_str(*v, key@) is None,
        },
{
    match get(v, key) {
        Some(x) => as_str(x),
        None => None,
    }
}

/// `json.get(key).and_then(|v| v.as_array())`.
pub fn get_array_exec<'a>(v: &'a JsonValue, key: &Vec<char>) -> (r: Option<&'a Vec<JsonValue>>)
    ensures
        match r {
            Some(a) => get_array(*v, key@) == Some(a@),
            None => get_array(*v, key@) is None,
        },
{
    match get(v, key) {
        Some(x) => as_array(x),
        None => None,
    }
}

} // verus!
