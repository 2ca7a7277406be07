//! JSON values as the logic reads them, with the lookups it uses.
use vstd::prelude::*;
use crate::text::str_eq;

verus! {

/// A JSON number: integers exactly, other numbers by their text.
#[derive(Clone, Debug, PartialEq)]
pub enum JsonNumber {
    /// A non-negative integer.
    PosInt(u64),
    /// A negative integer.
    NegInt(i64),
    /// Any other number, as written by the JSON encoder.
    Float(String),
}

/// A JSON value. Object members are a list of name/value pairs; a value parsed from
/// text has its members sorted by name, each name once (the last duplicate wins).
#[derive(Debug, PartialEq)]
pub enum Json {
    Null,
    Bool(bool),
    Number(JsonNumber),
    Str(String),
    Array(Vec<Json>),
    Object(Vec<(String, Json)>),
}

/// The value of the first member named `key`.
pub open spec fn member(fields: Seq<(String, Json)>, key: Seq<char>) -> Option<Json>
    decreases fields.len(),
{
    if fields.len() == 0 {
        None
    } else if fields[0].0@ == key {
        Some(fields[0].1)
    } else {
        member(fields.drop_first(), key)
    }
}

/// `v.get(key)`: the member of an object, `None` for anything else.
pub open spec fn json_get(v: Json, key: Seq<char>) -> Option<Json> {
    match v {
        Json::Object(fields) => member(fields@, key),
        _ => None,
    }
}

/// `v.get(key)` on an optional value.
pub open spec fn opt_get(v: Option<Json>, key: Seq<char>) -> Option<Json> {
    match v {
        Some(j) => json_get(j, key),
        None => None,
    }
}

/// `as_str`: the text of a string value.
pub open spec fn as_str(v: Option<Json>) -> Option<Seq<char>> {
    match v {
        Some(Json::Str(s)) => Some(s@),
        _ => None,
    }
}

/// `as_u64`: a non-negative integer.
pub open spec fn as_u64(v: Option<Json>) -> Option<u64> {
    match v {
        Some(Json::Number(JsonNumber::PosInt(n))) => Some(n),
        _ => None,
    }
}

/// `as_i64`: an integer that fits in `i64`.
pub open spec fn as_i64(v: Option<Json>) -> Option<i64> {
    match v {
        Some(Json::Number(JsonNumber::PosInt(n))) => if n <= i64::MAX as u64 {
            Some(n as i64)
        } else {
            None
        },
        Some(Json::Number(JsonNumber::NegInt(n))) => Some(n),
        _ => None,
    }
}

/// `as_bool`: a boolean value.
pub open spec fn as_bool(v: Option<Json>) -> Option<bool> {
    match v {
        Some(Json::Bool(b)) => Some(b),
        _ => None,
    }
}

/// `as_array`: the elements of an array value.
pub open spec fn as_array(v: Option<Json>) -> Option<Seq<Json>> {
    match v {
        Some(Json::Array(items)) => Some(items@),
        _ => None,
    }
}

/// The text of a string value, or `default`.
pub open spec fn str_or(v: Option<Json>, default: Seq<char>) -> Seq<char> {
    match as_str(v) {
        Some(s) => s,
        None => default,
    }
}

impl Json {
    /// The member named `key` of an object value.
    pub fn get(&self, key: &str) -> (r: Option<&Json>)
        ensures
            match r {
                Some(x) => json_get(*self, key@) == Some(*x),
                None => json_get(*self, key@) is None,
            },
    {
        match self {
            Json::Object(fields) => {
                let mut i: usize = 0;
                assert(fields@.subrange(0, fields@.len() as int) =~= fields@);
                while i < fields.len()
                    invariant
                        i <= fields@.len(),
                        json_get(*self, key@) == member(fields@, key@),
                        member(fields@, key@) == member(fields@.subrange(i as int, fields@.len() as int), key@),
                    decreases fields.len() - i,
                {
                    let ghost rest = fields@.subrange(i as int, fields@.len() as int);
                    assert(rest.drop_first() =~= fields@.subrange(i + 1, fields@.len() as int));
                    if str_eq(fields[i].0.as_str(), key) {
                        return Some(&fields[i].1);
                    }
                    i = i + 1;
                }
                None
            },
            _ => None,
        }
    }

    /// The text of a string value.
    pub fn as_str(&self) -> (r: Option<&str>)
        ensures
            match r {
                Some(s) => as_str(Some(*self)) == Some(s@),
                None => as_str(Some(*self)) is None,
            },
    {
        match self {
            Json::Str(s) => Some(s.as_str()),
            _ => None,
        }
    }

    /// A non-negative integer value.
    pub fn as_u64(&self) -> (r: Option<u64>)
        ensures
            r == as_u64(Some(*self)),
    {
        match self {
            Json::Number(JsonNumber::PosInt(n)) => Some(*n),
            _ => None,
        }
    }

    /// An integer value that fits in `i64`.
    pub fn as_i64(&self) -> (r: Option<i64>)
        ensures
            r == as_i64(Some(*self)),
    {
        match self {
            Json::Number(JsonNumber::PosInt(n)) => {
                if *n <= 9223372036854775807u64 {
                    Some(*n as i64)
                } else {
                    None
                }
            },
            Json::Number(JsonNumber::NegInt(n)) => Some(*n),
            _ => None,
        }
    }

    /// A boolean value.
    pub fn as_bool(&self) -> (r: Option<bool>)
        ensures
            r == as_bool(Some(*self)),
    {
        match self {
            Json::Bool(b) => Some(*b),
            _ => None,
        }
    }

    /// The elements of an array value.
    pub fn as_array(&self) -> (r: Option<&Vec<Json>>)
        ensures
            match r {
                Some(items) => as_array(Some(*self)) == Some(items@),
                None => as_array(Some(*self)) is None,
            },
    {
        match self {
            Json::Array(items) => Some(items),
            _ => None,
        }
    }
}

/// The member named `key` of an object value, moved out of it.
pub fn into_member(v: Json, key: &str) -> (r: Option<Json>)
    ensures
        r == json_get(v, key@),
{
    match v {
        Json::Object(fields0) => {
            let mut fields = fields0;
            let ghost fs = fields@;
            let mut i: usize = 0;
            assert(fs.subrange(0, fs.len() as int) =~= fs);
            while i < fields.len()
                invariant
                    fields@ == fs,
                    i <= fs.len(),
                    json_get(v, key@) == member(fs, key@),
                    member(fs, key@) == member(fs.subrange(i as int, fs.len() as int), key@),
                decreases fields.len() - i,
            {
                let ghost rest = fs.subrange(i as int, fs.len() as int);
                assert(rest.drop_first() =~= fs.subrange(i + 1, fs.len() as int));
                if str_eq(fields[i].0.as_str(), key) {
                    assert(rest[0] == fs[i as int]);
                    assert(member(rest, key@) == Some(fs[i as int].1));
                    let (k, x) = fields.remove(i);
                    assert(x == fs[i as int].1);
                    return Some(x);
                }
                i = i + 1;
            }
            assert(fs.subrange(fs.len() as int, fs.len() as int).len() == 0);
            None
        },
        _ => None,
    }
}

/// The value behind an optional reference.
pub open spec fn deref_opt(v: Option<&Json>) -> Option<Json> {
    match v {
        Some(j) => Some(*j),
        None => None,
    }
}

/// `v.get(key)` on an optional value.
pub fn get_opt<'a>(v: Option<&'a Json>, key: &str) -> (r: Option<&'a Json>)
    ensures
        match r {
            Some(x) => opt_get(deref_opt(v), key@) == Some(*x),
            None => opt_get(deref_opt(v), key@) is None,
        },
{
    match v {
        Some(j) => j.get(key),
        None => None,
    }
}

/// Text of the string member `key` of `v`, or `default`.
pub fn member_str_or(v: &Json, key: &str, default: &str) -> (r: String)
    ensures
        r@ == str_or(json_get(*v, key@), default@),
{
    match v.get(key) {
        Some(x) => match x.as_str() {
            Some(s) => s.to_owned(),
            None => default.to_owned(),
        },
        None => default.to_owned(),
    }
}

/// Text of the string member `key` of `v`, if any.
pub fn member_str(v: &Json, key: &str) -> (r: Option<String>)
    ensures
        match r {
            Some(s) => as_str(json_get(*v, key@)) == Some(s@),
            None => as_str(json_get(*v, key@)) is None,
        },
{
    match v.get(key) {
        Some(x) => match x.as_str() {
            Some(s) => Some(s.to_owned()),
            None => None,
        },
        None => None,
    }
}

/// Non-negative integer member `key` of `v`, if any.
pub fn member_u64(v: &Json, key: &str) -> (r: Option<u64>)
    ensures
        r == as_u64(json_get(*v, key@)),
{
    match v.get(key) {
        Some(x) => x.as_u64(),
        None => None,
    }
}

/// Name for what `serde_json::from_str::<serde_json::Value>` returns, read as a
/// [`Json`] value (`None` when the text is not valid JSON).
pub uninterp spec fn spec_parse_json(text: Seq<char>) -> Option<Json>;

/// Parses JSON text (`serde_json::from_str`).
#[verifier::external_body]
pub(crate) fn parse_json(text: &str) -> (r: Option<Json>)
    ensures
        r == spec_parse_json(text@),
{
    serde_json::from_str::<serde_json::Value>(text).ok().map(json_from_serde)
}

/// Declares `serde_json::Value` to Verus.
#[verifier::external_type_specification]
#[verifier::external_body]
pub struct ExSerdeJsonValue(serde_json::Value);

/// Moves a parsed `serde_json::Value` into a [`Json`] value, variant for variant.
#[verifier::external_body]
fn json_from_serde(v: serde_json::Value) -> Json {
    match v {
        serde_json::Value::Null => Json::Null,
        serde_json::Value::Bool(b) => Json::Bool(b),
        serde_json::Value::Number(n) => Json::Number(match (n.as_u64(), n.as_i64()) {
            (Some(u), _) => JsonNumber::PosInt(u),
            (None, Some(i)) => JsonNumber::NegInt(i),
            (None, None) => JsonNumber::Float(n.to_string()),
        }),
        serde_json::Value::String(s) => Json::Str(s),
        serde_json::Value::Array(items) => Json::Array(items.into_iter().map(json_from_serde).collect()),
        serde_json::Value::Object(m) => Json::Object(m.into_iter().map(|(k, x)| (k, json_from_serde(x))).collect()),
    }
}

} // verus!
