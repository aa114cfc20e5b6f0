//! A plain model of a JSON document, and the reading of one from text.

use serde_json::Value;
use vstd::prelude::*;

verus! {

/// A JSON number as the integer readings that it admits.
///
/// `unsigned` is the number where it is a non-negative integer that fits in
/// `u64`, `signed` where it is an integer that fits in `i64`. A number with a
/// fraction or an exponent admits neither.
#[derive(Clone, Copy, Debug, PartialEq, Eq)]
pub struct JsonNumber {
    pub unsigned: Option<u64>,
    pub signed: Option<i64>,
}

/// A JSON document. The members of an object stand in the order in which the
/// parser hands them out, each key once.
#[derive(Debug, PartialEq, Eq)]
pub enum Json {
    Null,
    Bool(bool),
    Number(JsonNumber),
    Text(String),
    Array(Vec<Json>),
    Object(Vec<(String, Json)>),
}

/// `serde_json`'s own document type: carried from the parser to the
/// conversion, never read by verified code.
#[verifier::external_type_specification]
#[verifier::external_body]
pub struct ExValue(serde_json::Value);

/// `serde_json`'s error type, which verified code only tells from a success.
#[verifier::external_type_specification]
#[verifier::external_body]
pub struct ExError(serde_json::Error);

/// The value that `serde_json::from_str` reads out of a text, `None` where
/// it returns an error.
pub uninterp spec fn parsed_value(text: Seq<char>) -> Option<Value>;

/// The document that a `serde_json::Value` stands for.
pub uninterp spec fn json_of(v: Value) -> Json;

/// The document that a text holds, `None` where the text is no JSON.
pub open spec fn parsed_json(text: Seq<char>) -> Option<Json> {
    match parsed_value(text) {
        Some(v) => Some(json_of(v)),
        None => None,
    }
}

/// Calls `serde_json::from_str` for a `serde_json::Value`. Whether it
/// succeeds, and with which value, depends on the text alone.
#[verifier::external_body]
fn value_from_text(text: &str) -> (r: Result<Value, serde_json::Error>)
    ensures
        match r {
            Ok(v) => parsed_value(text@) == Some(v),
            Err(_) => parsed_value(text@).is_none(),
        },
{
    serde_json::from_str::<Value>(text)
}

/// Turns a `serde_json::Value` into a [`Json`], variant by variant, and so
/// all the way down. A number is kept as what `Number::as_u64` and
/// `Number::as_i64` return for it; the members of an object come in the
/// order of `Map::into_iter`.
#[verifier::external_body]
fn json_from_value(v: Value) -> (j: Json)
    ensures
        j == json_of(v),
{
    match v {
        Value::Null => Json::Null,
        Value::Bool(b) => Json::Bool(b),
        Value::Number(n) => Json::Number(JsonNumber { unsigned: n.as_u64(), signed: n.as_i64() }),
        Value::String(s) => Json::Text(s),
        Value::Array(a) => Json::Array(a.into_iter().map(json_from_value).collect()),
        Value::Object(m) => Json::Object(
            m.into_iter().map(|(k, x)| (k, json_from_value(x))).collect(),
        ),
    }
}

/// Reads a JSON document out of a text.
pub fn parse_json(text: &str) -> (r: Option<Json>)
    ensures
        r == parsed_json(text@),
{
    match value_from_text(text) {
        Ok(v) => Some(json_from_value(v)),
        Err(_) => None,
    }
}

/// The value of the first member of `members` whose key is `name`.
pub open spec fn spec_member(members: Seq<(String, Json)>, name: Seq<char>) -> Option<Json>
    decreases members.len(),
{
    if members.len() == 0 {
        None
    } else if members[0].0@ == name {
        Some(members[0].1)
    } else {
        spec_member(members.drop_first(), name)
    }
}

/// Looks a member of an object up by its key.
pub fn member<'a>(members: &'a Vec<(String, Json)>, name: &String) -> (r: Option<&'a Json>)
    ensures
        r.is_some() == spec_member(members@, name@).is_some(),
        r.is_some() ==> *r.unwrap() == spec_member(members@, name@).unwrap(),
{
    let mut i: usize = 0;
    assert(members@.subrange(0, members@.len() as int) =~= members@);
    while i < members.len()
        invariant
            i <= members.len(),
            spec_member(members@, name@) == spec_member(
                members@.subrange(i as int, members@.len() as int),
                name@,
            ),
        decreases members.len() - i,
    {
        let ghost rest = members@.subrange(i as int, members@.len() as int);
        assert(rest[0] == members@[i as int]);
        assert(rest.drop_first() =~= members@.subrange(i + 1, members@.len() as int));
        if members[i].0 == *name {
            return Some(&members[i].1);
        }
        i += 1;
    }
    None
}

} // verus!
