//! The part of a JSON document that header resolution reads.

use vstd::prelude::*;
use crate::text::str_eq;

verus! {

/// A JSON value. A number is held as the decimal text that `serde_json`
/// prints for it; an object holds its members, each key once, in the order
/// in which `serde_json` walks them.
#[derive(Debug)]
pub enum JsonValue {
    Null,
    Bool(bool),
    Number(String),
    String(String),
    Array(Vec<JsonValue>),
    Object(Vec<(String, JsonValue)>),
}

/// The text of a header value given as JSON: a string as it is, a number in
/// its decimal form, a boolean as `true` or `false`; nothing for any other
/// kind of value.
pub open spec fn header_value_text(v: JsonValue) -> Option<Seq<char>> {
    match v {
        JsonValue::String(s) => Some(s@),
        JsonValue::Number(n) => Some(n@),
        JsonValue::Bool(b) => Some(if b { "true"@ } else { "false"@ }),
        _ => None,
    }
}

/// The value of the first member of `fields` named `key`.
pub open spec fn fields_get(fields: Seq<(String, JsonValue)>, key: Seq<char>) -> Option<JsonValue>
    decreases fields.len(),
{
    if fields.len() == 0 {
        None
    } else if fields[0].0@ == key {
        Some(fields[0].1)
    } else {
        fields_get(fields.drop_first(), key)
    }
}

/// `v[key]` for an object `v`; nothing for any other kind of value.
pub open spec fn json_get(v: JsonValue, key: Seq<char>) -> Option<JsonValue> {
    match v {
        JsonValue::Object(fields) => fields_get(fields@, key),
        _ => None,
    }
}

/// The text that a JSON value stands for as a header value: strings,
/// numbers and booleans have one, other values none.
pub fn to_header_value_string(value: &JsonValue) -> (r: Option<String>)
    ensures
        r matches Some(s) ==> header_value_text(*value) == Some(s@),
        r is None ==> header_value_text(*value) is None,
{
    match value {
        JsonValue::String(v) => Some(v.clone()),
        JsonValue::Number(v) => Some(v.clone()),
        JsonValue::Bool(v) => if *v {
            Some("true".to_owned())
        } else {
            Some("false".to_owned())
        },
        _ => None,
    }
}

impl JsonValue {
    /// The member `key` of an object; nothing when `self` is no object or
    /// has no such member.
    pub fn get(&self, key: &str) -> (r: Option<&JsonValue>)
        ensures
            r matches Some(v) ==> json_get(*self, key@) == Some(*v),
            r is None ==> json_get(*self, key@) is None,
    {
        match self {
            JsonValue::Object(fields) => {
                let mut i: usize = 0;
                assert(fields@.skip(0) =~= fields@);
                while i < fields.len()
                    invariant
                        i <= fields@.len(),
                        *self == JsonValue::Object(*fields),
                        fields_get(fields@, key@) == fields_get(fields@.skip(i as int), key@),
                    decreases fields@.len() - i,
                {
                    assert(fields@.skip(i as int).drop_first() =~= fields@.skip(i + 1));
                    assert(fields@.skip(i as int)[0] == fields@[i as int]);
                    if str_eq(fields[i].0.as_str(), key) {
                        return Some(&fields[i].1);
                    }
                    i = i + 1;
                }
                None
            },
            _ => None,
        }
    }
}

} // verus!
