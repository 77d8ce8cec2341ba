//! A JSON document as the library reads it. Text is parsed with `serde_json`
//! into this model; the library then inspects it with the accessors that
//! `serde_json::Value` offers (`get`, `as_str`, `as_i64`, `as_u64`, `as_array`,
//! `as_object`).
use vstd::prelude::*;

verus! {

/// A JSON number as `serde_json` keeps it: a non-negative integer, a negative
/// integer, or a floating-point value (whose value the library never reads).
pub enum JsonNumber {
    PosInt(u64),
    NegInt(i64),
    Float,
}

/// A JSON value. Object members keep the order in which the document's map
/// yields them; their keys are distinct.
pub enum Json {
    Null,
    Bool(bool),
    Number(JsonNumber),
    Str(String),
    Array(Vec<Json>),
    Object(Vec<(String, Json)>),
}

/// The value of the first member of `members` named `key`.
pub open spec fn lookup(members: Seq<(String, Json)>, key: Seq<char>) -> Option<Json>
    decreases members.len(),
{
    if members.len() == 0 {
        None
    } else if members[0].0@ == key {
        Some(members[0].1)
    } else {
        lookup(members.drop_first(), key)
    }
}

/// `Value::get(key)`: the member `key` of an object; nothing for other values.
pub open spec fn get(j: Json, key: Seq<char>) -> Option<Json> {
    match j {
        Json::Object(members) => lookup(members@, key),
        _ => None,
    }
}

/// `Value::as_str`.
pub open spec fn str_of(j: Json) -> Option<Seq<char>> {
    match j {
        Json::Str(s) => Some(s@),
        _ => None,
    }
}

/// `Value::as_i64`: an integer that fits in `i64`.
pub open spec fn i64_of(j: Json) -> Option<i64> {
    match j {
        Json::Number(JsonNumber::PosInt(n)) => if n <= i64::MAX {
            Some(n as i64)
        } else {
            None
        },
        Json::Number(JsonNumber::NegInt(n)) => Some(n),
        _ => None,
    }
}

/// `Value::as_u64`: a non-negative integer.
pub open spec fn u64_of(j: Json) -> Option<u64> {
    match j {
        Json::Number(JsonNumber::PosInt(n)) => Some(n),
        _ => None,
    }
}

/// `Value::as_array`.
pub open spec fn array_of(j: Json) -> Option<Seq<Json>> {
    match j {
        Json::Array(items) => Some(items@),
        _ => None,
    }
}

/// `Value::as_object`.
pub open spec fn object_of(j: Json) -> Option<Seq<(String, Json)>> {
    match j {
        Json::Object(members) => Some(members@),
        _ => None,
    }
}

/// The member `key` of `j`, when `j` is an object that has one.
pub fn json_get<'a>(j: &'a Json, key: &str) -> (r: Option<&'a Json>)
    ensures
        match r {
            Some(v) => get(*j, key@) == Some(*v),
            None => get(*j, key@) is None,
        },
{
    match j {
        Json::Object(members) => {
            let k = String::from_str(key);
            let mut i: usize = 0;
            assert(members@.skip(0) == members@);
            while i < members.len()
                invariant
                    i <= members.len(),
                    k@ == key@,
                    get(*j, key@) == lookup(members@, key@),
                    lookup(members@, key@) == lookup(members@.skip(i as int), key@),
            decreases members.len() - i,
            {
                assert(members@.skip(i as int).drop_first() == members@.skip(i + 1));
                assert(members@.skip(i as int)[0] == members@[i as int]);
                if members[i].0 == k {
                    return Some(&members[i].1);
                }
                i = i + 1;
            }
            assert(members@.skip(i as int).len() == 0);
            None
        },
        _ => None,
    }
}

/// The text of `j`, when it is a string.
pub fn json_as_str(j: &Json) -> (r: Option<&String>)
    ensures
        match r {
            Some(s) => str_of(*j) == Some(s@),
            None => str_of(*j) is None,
        },
{
    match j {
        Json::Str(s) => Some(s),
        _ => None,
    }
}

/// The value of `j` as an `i64`, when it is an integer in range.
pub fn json_as_i64(j: &Json) -> (r: Option<i64>)
    ensures
        r == i64_of(*j),
{
    match j {
        Json::Number(JsonNumber::PosInt(n)) => if *n <= 9223372036854775807u64 {
            Some(*n as i64)
        } else {
            None
        },
        Json::Number(JsonNumber::NegInt(n)) => Some(*n),
        _ => None,
    }
}

/// The value of `j` as a `u64`, when it is a non-negative integer.
pub fn json_as_u64(j: &Json) -> (r: Option<u64>)
    ensures
        r == u64_of(*j),
{
    match j {
        Json::Number(JsonNumber::PosInt(n)) => Some(*n),
        _ => None,
    }
}

/// The items of `j`, when it is an array.
pub fn json_as_array(j: &Json) -> (r: Option<&Vec<Json>>)
    ensures
        match r {
            Some(items) => array_of(*j) == Some(items@),
            None => array_of(*j) is None,
        },
{
    match j {
        Json::Array(items) => Some(items),
        _ => None,
    }
}

/// The members of `j`, when it is an object.
pub fn json_as_object(j: &Json) -> (r: Option<&Vec<(String, Json)>>)
    ensures
        match r {
            Some(members) => object_of(*j) == Some(members@),
            None => object_of(*j) is None,
        },
{
    match j {
        Json::Object(members) => Some(members),
        _ => None,
    }
}

// ---------------------------------------------------------------------------
// Parsing
// ---------------------------------------------------------------------------

/// What `serde_json::from_str::<serde_json::Value>` makes of `text`, in this
/// model: the document, or the text of the error it reports.
pub uninterp spec fn spec_parse_json(text: Seq<char>) -> Result<Json, Seq<char>>;

/// The document `text` holds, when it is JSON.
pub open spec fn json_of(text: Seq<char>) -> Option<Json> {
    match spec_parse_json(text) {
        Ok(j) => Some(j),
        Err(_) => None,
    }
}

#[verifier::external_type_specification]
#[verifier::external_body]
pub struct ExJsonValue(serde_json::Value);

#[verifier::external_type_specification]
#[verifier::external_body]
pub struct ExJsonNumber(serde_json::Number);

/// Converts a `serde_json::Number` into the model, variant for variant: a
/// non-negative integer (`as_u64`), a negative one (`as_i64`), else a float.
#[verifier::external_body]
fn number_to_json(n: &serde_json::Number) -> JsonNumber {
    match (n.as_u64(), n.as_i64()) {
        (Some(u), _) => JsonNumber::PosInt(u),
        (None, Some(i)) => JsonNumber::NegInt(i),
        (None, None) => JsonNumber::Float,
    }
}

/// Converts a `serde_json::Value` into the model, variant for variant, the
/// members of an object in the order in which its map yields them.
#[verifier::external_body]
fn value_to_json(v: &serde_json::Value) -> Json {
    match v {
        serde_json::Value::Null => Json::Null,
        serde_json::Value::Bool(b) => Json::Bool(*b),
        serde_json::Value::Number(n) => Json::Number(number_to_json(n)),
        serde_json::Value::String(s) => Json::Str(s.clone()),
        serde_json::Value::Array(a) => Json::Array(a.iter().map(value_to_json).collect()),
        serde_json::Value::Object(m) => Json::Object(m.iter().map(|(k, x)| (k.clone(), value_to_json(x))).collect()),
    }
}

/// Parses `text` with `serde_json::from_str::<serde_json::Value>`. The
/// contract only says that the result is `spec_parse_json` of the text: the
/// document converted into the model, or the `Display` text of the error.
/// The JSON grammar itself is not stated.
#[verifier::external_body]
pub(crate) fn parse_json(text: &str) -> (r: Result<Json, String>)
    ensures
        match r {
            Ok(j) => spec_parse_json(text@) == Ok::<Json, Seq<char>>(j),
            Err(e) => spec_parse_json(text@) == Err::<Json, Seq<char>>(e@),
        },
{
    match serde_json::from_str::<serde_json::Value>(text) {
        Ok(v) => Ok(value_to_json(&v)),
        Err(e) => Err(e.to_string()),
    }
}

} // verus!
