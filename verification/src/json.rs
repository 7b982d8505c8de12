//! The few `serde_json` calls that reading the trusted-keys file makes, and a
//! model of what a JSON value holds.
use vstd::prelude::*;
use serde_json::Value;

verus! {

#[verifier::external_type_specification]
#[verifier::external_body]
pub struct ExJsonValue(serde_json::Value);

#[verifier::external_type_specification]
#[verifier::external_body]
pub struct ExJsonError(serde_json::Error);

/// A JSON value as data. Numbers are not told apart: nothing here reads them.
pub enum Json {
    Null,
    Bool(bool),
    Number,
    Str(Seq<char>),
    Array(Seq<Json>),
    Object(Map<Seq<char>, Json>),
}

/// What a `serde_json::Value` holds.
pub uninterp spec fn json_model(v: Value) -> Json;

/// The value that `serde_json` parses from a text, or `None` when the text is
/// not a JSON document.
pub uninterp spec fn json_parse(text: Seq<char>) -> Option<Json>;

/// The error that `serde_json` gives for a text that is not a JSON document.
pub uninterp spec fn json_parse_error(text: Seq<char>) -> serde_json::Error;

/// `serde_json::from_str::<Value>`: parses `text`; the error, which depends on
/// the text alone, is `serde_json`'s.
#[verifier::external_body]
pub fn json_from_str(text: &str) -> (r: Result<Value, serde_json::Error>)
    ensures
        r is Ok <==> json_parse(text@) is Some,
        r matches Ok(v) ==> json_model(v) == json_parse(text@)->0,
        r matches Err(e) ==> e == json_parse_error(text@),
{
    serde_json::from_str::<Value>(text)
}

/// The field `key` of an object, `Null` when the value is not an object or has
/// no such field.
pub open spec fn field(v: Json, key: Seq<char>) -> Json {
    match v {
        Json::Object(fields) => if fields.dom().contains(key) { fields[key] } else { Json::Null },
        _ => Json::Null,
    }
}

/// `Value`'s indexing by a `&str` (`v[key]`): the field `key` of an object,
/// and a `Null` value when `v` is not an object or has no such field.
#[verifier::external_body]
pub fn json_field<'a>(v: &'a Value, key: &str) -> (r: &'a Value)
    ensures
        json_model(*r) == field(json_model(*v), key@),
{
    &v[key]
}

/// `Value::as_array`: the elements of an array, `None` for any other value.
#[verifier::external_body]
pub fn json_as_array(v: &Value) -> (r: Option<&Vec<Value>>)
    ensures
        r is Some <==> json_model(*v) is Array,
        r matches Some(items) ==> items@.map_values(|e: Value| json_model(e)) == json_model(*v)->Array_0,
{
    v.as_array()
}

/// `Value::as_str`: the text of a string, `None` for any other value.
#[verifier::external_body]
pub fn json_as_str(v: &Value) -> (r: Option<&str>)
    ensures
        r is Some <==> json_model(*v) is Str,
        r matches Some(s) ==> s@ == json_model(*v)->Str_0,
{
    v.as_str()
}

} // verus!
