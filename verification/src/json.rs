//! JSON documents, read and built with `serde_json`.
//!
//! A `serde_json::Value` is modelled by `Json`: the shape that lookups and
//! conversions depend on.

use serde_json::Value;
use vstd::prelude::*;

verus! {

/// What a JSON value is. Whole numbers that `serde_json` keeps as such (from
/// `i64::MIN` to `u64::MAX`) are `Integer`; null, arrays and all other numbers
/// are `Other`.
pub enum Json {
    Bool(bool),
    Integer(int),
    Text(Seq<char>),
    Object(Map<Seq<char>, Json>),
    Other,
}

/// `serde_json::Value`, opaque: it is read through the functions below.
#[verifier::external_type_specification]
#[verifier::external_body]
pub struct ExValue(Value);

/// The model of a `serde_json::Value`.
pub uninterp spec fn json_of(value: Value) -> Json;

/// The model of the document that `serde_json::from_slice` reads out of a
/// text, or `None` where it refuses the text.
pub uninterp spec fn json_document(text: Seq<u8>) -> Option<Json>;

/// The member of an object under a name.
pub open spec fn json_member(json: Json, name: Seq<char>) -> Option<Json> {
    match json {
        Json::Object(members) => if members.contains_key(name) {
            Some(members[name])
        } else {
            None
        },
        _ => None,
    }
}

/// The truth value, if the value is one.
pub open spec fn json_bool(json: Json) -> Option<bool> {
    match json {
        Json::Bool(b) => Some(b),
        _ => None,
    }
}

/// The text, if the value is one.
pub open spec fn json_text(json: Json) -> Option<Seq<char>> {
    match json {
        Json::Text(s) => Some(s),
        _ => None,
    }
}

/// The number, if the value is a whole number that an `i64` holds.
pub open spec fn json_i64(json: Json) -> Option<i64> {
    match json {
        Json::Integer(n) => if i64::MIN <= n <= i64::MAX {
            Some(n as i64)
        } else {
            None
        },
        _ => None,
    }
}

/// The number, if the value is a whole number that a `u64` holds.
pub open spec fn json_u64(json: Json) -> Option<u64> {
    match json {
        Json::Integer(n) => if 0 <= n <= u64::MAX {
            Some(n as u64)
        } else {
            None
        },
        _ => None,
    }
}

/// `serde_json::from_slice` into a `Value`: reads a whole text as one JSON
/// document. Which texts it accepts and what it makes of them has the name
/// `json_document`; it depends on the text alone.
#[verifier::external_body]
pub(crate) fn parse_json(text: &[u8]) -> (r: Option<Value>)
    ensures
        r is Some <==> json_document(text@) is Some,
        r matches Some(value) ==> json_document(text@) == Some(json_of(value)),
{
    serde_json::from_slice(text).ok()
}

/// `serde_json::Value::get` with a string: the member of an object under that
/// name, and nothing for any other value.
#[verifier::external_body]
pub(crate) fn member<'a>(value: &'a Value, name: &str) -> (r: Option<&'a Value>)
    ensures
        r is Some <==> json_member(json_of(*value), name@) is Some,
        r matches Some(found) ==> json_member(json_of(*value), name@) == Some(json_of(*found)),
{
    value.get(name)
}

/// `serde_json::Value::as_bool`: the truth value of a boolean, nothing for any
/// other value.
pub assume_specification [Value::as_bool](value: &Value) -> (r: Option<bool>)
    ensures
        r == json_bool(json_of(*value)),
;

/// `serde_json::Value::as_i64`: the number, where it is a whole number within
/// the bounds of `i64`.
pub assume_specification [Value::as_i64](value: &Value) -> (r: Option<i64>)
    ensures
        r == json_i64(json_of(*value)),
;

/// `serde_json::Value::as_u64`: the number, where it is a whole number within
/// the bounds of `u64`.
pub assume_specification [Value::as_u64](value: &Value) -> (r: Option<u64>)
    ensures
        r == json_u64(json_of(*value)),
;

/// `serde_json::Value::as_str`: the characters of a string, nothing for any
/// other value.
pub assume_specification [Value::as_str](value: &Value) -> (r: Option<&str>)
    ensures
        r is Some <==> json_text(json_of(*value)) is Some,
        r matches Some(text) ==> json_text(json_of(*value)) == Some(text@),
;

/// A member is found exactly in an object that has it.
pub proof fn law_member_of_object(members: Map<Seq<char>, Json>, name: Seq<char>)
    ensures
        members.contains_key(name) ==> json_member(Json::Object(members), name) == Some(
            members[name],
        ),
        !members.contains_key(name) ==> json_member(Json::Object(members), name) is None,
{
}

/// What is no object has no members.
pub proof fn law_no_members_outside_objects(json: Json, name: Seq<char>)
    requires
        json !is Object,
    ensures
        json_member(json, name) is None,
{
}

/// A value is read as what it is, and as nothing else; a whole number is read in
/// each type that holds it.
pub proof fn law_values_are_read_as_they_are(json: Json)
    ensures
        forall|b: bool| json_bool(json) == Some(b) <==> json == Json::Bool(b),
        forall|s: Seq<char>| json_text(json) == Some(s) <==> json == Json::Text(s),
        forall|n: i64| json_i64(json) == Some(n) <==> json == Json::Integer(n as int),
        forall|n: u64| json_u64(json) == Some(n) <==> json == Json::Integer(n as int),
{
}

} // verus!
