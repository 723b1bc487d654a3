//! A JSON document tree, as the session log records are read.
use vstd::prelude::*;

use crate::text::{record_lines, spec_record_lines};

verus! {

/// A JSON value.  Numbers keep only their value as an unsigned 64-bit
/// integer, when they have one; nothing in a session record reads any other
/// kind of number.
#[derive(Debug)]
pub enum JsonValue {
    Null,
    Bool(bool),
    Number(Option<u64>),
    Str(String),
    Array(Vec<JsonValue>),
    Object(Vec<(String, JsonValue)>),
}

/// The value of the first entry named `key` among `entries`.
pub open spec fn find_entry(entries: Seq<(String, JsonValue)>, key: Seq<char>) -> Option<JsonValue>
    decreases entries.len(),
{
    if entries.len() == 0 {
        None
    } else if entries[0].0@ == key {
        Some(entries[0].1)
    } else {
        find_entry(entries.drop_first(), key)
    }
}

/// The member `key` of an object; nothing for other values.
pub open spec fn json_get(v: JsonValue, key: Seq<char>) -> Option<JsonValue> {
    match v {
        JsonValue::Object(entries) => find_entry(entries@, key),
        _ => None,
    }
}

/// The member `key` of an optional value.
pub open spec fn json_get_opt(v: Option<JsonValue>, key: Seq<char>) -> Option<JsonValue> {
    match v {
        Some(x) => json_get(x, key),
        None => None,
    }
}

/// The characters of a string value.
pub open spec fn json_as_str(v: Option<JsonValue>) -> Option<Seq<char>> {
    match v {
        Some(JsonValue::Str(s)) => Some(s@),
        _ => None,
    }
}

/// The value of a number that is an unsigned 64-bit integer.
pub open spec fn json_as_u64(v: Option<JsonValue>) -> Option<u64> {
    match v {
        Some(JsonValue::Number(n)) => n,
        _ => None,
    }
}

/// The value of a boolean.
pub open spec fn json_as_bool(v: Option<JsonValue>) -> Option<bool> {
    match v {
        Some(JsonValue::Bool(b)) => Some(b),
        _ => None,
    }
}

/// The elements of an array.
pub open spec fn json_as_array(v: Option<JsonValue>) -> Option<Seq<JsonValue>> {
    match v {
        Some(JsonValue::Array(items)) => Some(items@),
        _ => None,
    }
}

/// The member `key` of `v`, when `v` is an object that has one.
pub fn get<'a>(v: &'a JsonValue, key: &String) -> (r: Option<&'a JsonValue>)
    ensures
        match r {
            Some(x) => json_get(*v, key@) == Some(*x),
            None => json_get(*v, key@) is None,
        },
{
    match v {
        JsonValue::Object(entries) => {
            let mut i: usize = 0;
            assert(entries@.skip(0) =~= entries@);
            while i < entries.len()
                invariant
                    i <= entries.len(),
                    json_get(*v, key@) == find_entry(entries@, key@),
                    find_entry(entries@, key@) == find_entry(entries@.skip(i as int), key@),
                decreases entries.len() - i,
            {
                assert(entries@.skip(i as int).drop_first() =~= entries@.skip(i + 1));
                assert(entries@.skip(i as int)[0] == entries@[i as int]);
                if entries[i].0 == *key {
                    assert(find_entry(entries@.skip(i as int), key@) == Some(entries@[i as int].1));
                    return Some(&entries[i].1);
                }
                i = i + 1;
            }
            None
        },
        _ => None,
    }
}

/// The member `key` of an optional value.
pub fn get_opt<'a>(v: Option<&'a JsonValue>, key: &String) -> (r: Option<&'a JsonValue>)
    ensures
        match r {
            Some(x) => json_get_opt(deref_opt(v), key@) == Some(*x),
            None => json_get_opt(deref_opt(v), key@) is None,
        },
{
    match v {
        Some(x) => get(x, key),
        None => None,
    }
}

/// An optional reference, as an optional value.
pub open spec fn deref_opt(v: Option<&JsonValue>) -> Option<JsonValue> {
    match v {
        Some(x) => Some(*x),
        None => None,
    }
}

/// The string held by a string value.
pub fn as_str<'a>(v: Option<&'a JsonValue>) -> (r: Option<&'a String>)
    ensures
        match r {
            Some(s) => json_as_str(deref_opt(v)) == Some(s@),
            None => json_as_str(deref_opt(v)) is None,
        },
{
    match v {
        Some(JsonValue::Str(s)) => Some(s),
        _ => None,
    }
}

/// The value of a number that is an unsigned 64-bit integer.
pub fn as_u64(v: Option<&JsonValue>) -> (r: Option<u64>)
    ensures
        r == json_as_u64(deref_opt(v)),
{
    match v {
        Some(JsonValue::Number(n)) => *n,
        _ => None,
    }
}

/// The value of a boolean.
pub fn as_bool(v: Option<&JsonValue>) -> (r: Option<bool>)
    ensures
        r == json_as_bool(deref_opt(v)),
{
    match v {
        Some(JsonValue::Bool(b)) => Some(*b),
        _ => None,
    }
}

/// The elements of an array.
pub fn as_array<'a>(v: Option<&'a JsonValue>) -> (r: Option<&'a Vec<JsonValue>>)
    ensures
        match r {
            Some(items) => json_as_array(deref_opt(v)) == Some(items@),
            None => json_as_array(deref_opt(v)) is None,
        },
{
    match v {
        Some(JsonValue::Array(items)) => Some(items),
        _ => None,
    }
}

// ============================================================
// Reading records
// ============================================================
/// `serde_json::Value`, the document `serde_json` parses a line into.
#[verifier::external_type_specification]
#[verifier::external_body]
pub struct ExJsonDocument(serde_json::Value);

/// What `serde_json::from_str::<serde_json::Value>` gives for `line`, as a
/// [`JsonValue`]; nothing when the line is not JSON.
pub uninterp spec fn json_parsed(line: Seq<char>) -> Option<JsonValue>;

/// Converts a `serde_json::Value` node for node: each variant to the
/// variant of the same name, a number to its value as a `u64` where it has
/// one, an object to its members in the map's order.  Only the body of
/// [`parse_json_line`] calls it.
#[verifier::external_body]
fn json_value_of(v: &serde_json::Value) -> JsonValue {
    match v {
        serde_json::Value::Null => JsonValue::Null,
        serde_json::Value::Bool(b) => JsonValue::Bool(*b),
        serde_json::Value::Number(n) => JsonValue::Number(n.as_u64()),
        serde_json::Value::String(t) => JsonValue::Str(t.clone()),
        serde_json::Value::Array(a) => JsonValue::Array(a.iter().map(json_value_of).collect()),
        serde_json::Value::Object(o) => JsonValue::Object(
            o.iter().map(|(k, x)| (k.clone(), json_value_of(x))).collect(),
        ),
    }
}

/// Calls `serde_json::from_str::<serde_json::Value>` on `line` and converts
/// the document.  The contract names the result.
#[verifier::external_body]
pub(crate) fn parse_json_line(line: &str) -> (r: Option<JsonValue>)
    ensures
        r == json_parsed(line@),
{
    serde_json::from_str::<serde_json::Value>(line).ok().map(|v| json_value_of(&v))
}

/// The records of a log's text: one per record line, the line's JSON
/// document or nothing for a line that is no JSON.
pub open spec fn spec_records(content: Seq<char>) -> Seq<Option<JsonValue>> {
    spec_record_lines(content).map_values(|l: Seq<char>| json_parsed(l))
}

/// Read the records of a log's text: its record lines, each parsed as JSON.
pub fn parse_records(content: &str) -> (r: Vec<Option<JsonValue>>)
    ensures
        r@ == spec_records(content@),
{
    let lines = record_lines(content);
    let ghost ls = lines@.map_values(|l: String| l@);
    let mut out: Vec<Option<JsonValue>> = Vec::new();
    let mut i: usize = 0;
    while i < lines.len()
        invariant
            i <= lines.len(),
            ls == lines@.map_values(|l: String| l@),
            ls == spec_record_lines(content@),
            out@.len() == i,
            forall|j: int| 0 <= j < i ==> out@[j] == json_parsed(#[trigger] ls[j]),
        decreases lines.len() - i,
    {
        out.push(parse_json_line(lines[i].as_str()));
        i = i + 1;
    }
    assert(out@ =~= spec_records(content@));
    out
}

} // verus!
