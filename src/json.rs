//! Parsed JSON documents, as a tree that verified code can read. The parse
//! itself is serde_json's; each `serde_json::Value` is carried over variant
//! for variant.
use vstd::prelude::*;
use serde_json::Value;
use crate::decimal::{all_digits, digits_value, read_digits};
use crate::text::same_text;

verus! {

#[verifier::external_type_specification]
#[verifier::external_body]
pub struct ExValue(Value);

/// A JSON value. Numbers keep their decimal text; object members keep the
/// order in which serde_json's map yields them (keys are distinct).
#[derive(Debug)]
pub enum Json {
    Null,
    Bool(bool),
    Number(String),
    Str(String),
    Array(Vec<Json>),
    Object(Vec<(String, Json)>),
}

/// The document that `serde_json::from_str` reads from a text, carried over
/// into `Json`; `None` when the text is not JSON.
pub uninterp spec fn json_of(text: Seq<char>) -> Option<Json>;

/// Relies on the variants of `serde_json::Value`: each becomes the same
/// variant of `Json`, a number its `Display` text, an object its members in
/// the map's iteration order.
#[verifier::external_body]
fn json_from_value(v: &Value) -> (r: Json) {
    match v {
        Value::Null => Json::Null,
        Value::Bool(b) => Json::Bool(*b),
        Value::Number(n) => Json::Number(n.to_string()),
        Value::String(s) => Json::Str(s.clone()),
        Value::Array(a) => Json::Array(a.iter().map(json_from_value).collect()),
        Value::Object(m) => Json::Object(m.iter().map(|(k, x)| (k.clone(), json_from_value(x))).collect()),
    }
}

/// Relies on `serde_json::from_str` into a `Value`: the result depends on the
/// text alone.
#[verifier::external_body]
pub fn parse_json(text: &str) -> (r: Option<Json>)
    ensures
        r == json_of(text@),
{
    match serde_json::from_str::<Value>(text) {
        Ok(v) => Some(json_from_value(&v)),
        Err(_) => None,
    }
}

/// The first member named `key`.
pub open spec fn lookup(fields: Seq<(String, Json)>, key: Seq<char>) -> Option<Json>
    decreases fields.len(),
{
    if fields.len() == 0 {
        None
    } else if fields[0].0@ == key {
        Some(fields[0].1)
    } else {
        lookup(fields.drop_first(), key)
    }
}

/// The member `key` of an object; `None` for other values.
pub open spec fn get(j: Json, key: Seq<char>) -> Option<Json> {
    match j {
        Json::Object(f) => lookup(f@, key),
        _ => None,
    }
}

/// The member under `short`, else under `long`.
pub open spec fn get_either(j: Json, short: Seq<char>, long: Seq<char>) -> Option<Json> {
    if get(j, short) is Some {
        get(j, short)
    } else {
        get(j, long)
    }
}

pub open spec fn text_of(x: Json) -> Option<Seq<char>> {
    match x {
        Json::Str(s) => Some(s@),
        _ => None,
    }
}

/// A number written as plain decimal digits that fits `u64`.
pub open spec fn u64_of(x: Json) -> Option<u64> {
    match x {
        Json::Number(t) => if t@.len() > 0 && all_digits(t@) && digits_value(t@) <= u64::MAX {
            Some(digits_value(t@) as u64)
        } else {
            None
        },
        _ => None,
    }
}

pub open spec fn bool_of(x: Json) -> Option<bool> {
    match x {
        Json::Bool(b) => Some(b),
        _ => None,
    }
}

/// The member `key` of an object.
pub fn member<'a>(j: &'a Json, key: &str) -> (r: Option<&'a Json>)
    ensures
        r is None <==> get(*j, key@) is None,
        r matches Some(x) ==> get(*j, key@) == Some(*x),
{
    match j {
        Json::Object(fields) => {
            let mut i: usize = 0;
            assert(get(*j, key@) == lookup(fields@, key@));
            assert(fields@.subrange(0, fields@.len() as int) =~= fields@);
            while i < fields.len()
                invariant
                    0 <= i <= fields@.len(),
                    get(*j, key@) == lookup(fields@, key@),
                    lookup(fields@, key@) == lookup(fields@.subrange(i as int, fields@.len() as int), key@),
                decreases fields@.len() - i,
            {
                let ghost rest = fields@.subrange(i as int, fields@.len() as int);
                assert(rest.drop_first() =~= fields@.subrange(i + 1, fields@.len() as int));
                assert(rest[0] == fields@[i as int]);
                if same_text(fields[i].0.as_str(), key) {
                    assert(lookup(rest, key@) == Some(fields@[i as int].1));
                    return Some(&fields[i].1);
                }
                i = i + 1;
            }
            assert(fields@.subrange(i as int, fields@.len() as int).len() == 0);
            None
        },
        _ => None,
    }
}

/// The text of a JSON string.
pub fn as_text(x: &Json) -> (r: Option<String>)
    ensures
        r is None <==> text_of(*x) is None,
        r matches Some(s) ==> text_of(*x) == Some(s@),
{
    match x {
        Json::Str(s) => Some(s.clone()),
        _ => None,
    }
}

/// A JSON number that is a plain `u64`.
pub fn as_u64(x: &Json) -> (r: Option<u64>)
    ensures
        r == u64_of(*x),
{
    match x {
        Json::Number(t) => {
            let n = t.as_str().unicode_len();
            if n == 0 {
                return None;
            }
            assert(t@.subrange(0, n as int) =~= t@);
            read_digits(t.as_str(), 0, n)
        },
        _ => None,
    }
}

/// The value of a JSON boolean.
pub fn as_bool(x: &Json) -> (r: Option<bool>)
    ensures
        r == bool_of(*x),
{
    match x {
        Json::Bool(b) => Some(*b),
        _ => None,
    }
}

} // verus!
