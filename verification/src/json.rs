//! JSON values. The protocol carries user data as `serde_json::Value`; the
//! library holds such values without looking inside, and builds or reads
//! them only through the functions below, whose results are named by the
//! `json_*_of` functions.

use vstd::prelude::*;
use serde_json::Value;
use crate::assoc::{assoc_map, keys_unique};

verus! {

/// `serde_json::Value`, held opaquely.
#[verifier::external_type_specification]
#[verifier::external_body]
pub struct ExValue(serde_json::Value);

/// `serde_json::Error`, held opaquely.
#[verifier::external_type_specification]
#[verifier::external_body]
pub struct ExJsonError(serde_json::Error);

/// `Value::clone` (derived) copies the value: the copy is the same JSON value.
pub assume_specification[ <serde_json::Value as Clone>::clone ](v: &serde_json::Value) -> (r: serde_json::Value)
    ensures
        r == *v,
;

/// The JSON string `s` (`Value::String`).
pub uninterp spec fn json_string_of(s: Seq<char>) -> Value;

/// The JSON boolean `b` (`Value::Bool`).
pub uninterp spec fn json_bool_of(b: bool) -> Value;

/// The JSON object made of the named values `fields` (`Value::Object`).
pub uninterp spec fn json_object_of(fields: Seq<(Seq<char>, Value)>) -> Value;

/// The JSON array of `items` (`Value::Array`).
pub uninterp spec fn json_array_of(items: Seq<Value>) -> Value;

/// Whether a value is JSON `null` (`Value::is_null`).
pub uninterp spec fn json_is_null(v: Value) -> bool;

/// The field `key` of a value (`Value::get` with a string index).
pub uninterp spec fn json_field_of(v: Value, key: Seq<char>) -> Option<Value>;

/// The string that a value holds, if it is a string (`Value::as_str`).
pub uninterp spec fn json_str_of(v: Value) -> Option<Seq<char>>;

/// The compact JSON text of a value (`Display` of `Value`).
pub uninterp spec fn json_text_of(v: Value) -> Seq<char>;

/// The value that a JSON text denotes, if it is valid JSON
/// (`serde_json::from_str::<Value>`).
pub uninterp spec fn json_parse_of(text: Seq<char>) -> Option<Value>;

/// The value of `key` in an object of named values with distinct names.
pub open spec fn object_lookup(fields: Seq<(Seq<char>, Value)>, key: Seq<char>) -> Option<Value> {
    if assoc_map(fields).contains_key(key) {
        Some(assoc_map(fields)[key])
    } else {
        None
    }
}

/// The view of a list of named JSON values: names as `Seq<char>`.
pub open spec fn fields_view(d: Seq<(String, Value)>) -> Seq<(Seq<char>, Value)> {
    d.map_values(|p: (String, Value)| (p.0@, p.1))
}

/// `Value::String`: the JSON string `s`.
#[verifier::external_body]
pub(crate) fn json_string(s: &str) -> (r: Value)
    ensures
        r == json_string_of(s@),
{
    Value::String(s.to_string())
}

/// `Value::Bool`: the JSON boolean `b`.
#[verifier::external_body]
pub(crate) fn json_bool(b: bool) -> (r: Value)
    ensures
        r == json_bool_of(b),
{
    Value::Bool(b)
}

/// `Value::Null`: a value that `is_null` accepts.
#[verifier::external_body]
pub(crate) fn json_null() -> (r: Value)
    ensures
        json_is_null(r),
{
    Value::Null
}

/// `Value::Object` collected from the named values `fields`.
#[verifier::external_body]
pub(crate) fn json_object(fields: Vec<(String, Value)>) -> (r: Value)
    ensures
        r == json_object_of(fields_view(fields@)),
{
    Value::Object(fields.into_iter().collect())
}

/// `Value::Array`: the JSON array of `items`.
#[verifier::external_body]
pub(crate) fn json_array(items: Vec<Value>) -> (r: Value)
    ensures
        r == json_array_of(items@),
{
    Value::Array(items)
}

/// `Value::is_null`: true of `null`; false of strings and objects.
#[verifier::external_body]
pub(crate) fn json_check_null(v: &Value) -> (r: bool)
    ensures
        r == json_is_null(*v),
        forall|s: Seq<char>| *v == json_string_of(s) ==> !r,
        forall|fs: Seq<(Seq<char>, Value)>| *v == json_object_of(fs) ==> !r,
{
    v.is_null()
}

/// `Value::get` with a string index: the field `key` of an object (cloned);
/// `None` when the field is absent or the value is no object.
#[verifier::external_body]
pub(crate) fn json_get(v: &Value, key: &str) -> (r: Option<Value>)
    ensures
        r == json_field_of(*v, key@),
        forall|fs: Seq<(Seq<char>, Value)>|
            keys_unique(fs) && *v == json_object_of(fs) ==> r == object_lookup(fs, key@),
        forall|s: Seq<char>| *v == json_string_of(s) ==> r is None,
        json_is_null(*v) ==> r is None,
{
    v.get(key).cloned()
}

/// `Value::as_str`: the string a value holds, if it is a string.
#[verifier::external_body]
pub(crate) fn json_as_str(v: &Value) -> (r: Option<String>)
    ensures
        r is None <==> json_str_of(*v) is None,
        r matches Some(s) ==> json_str_of(*v) == Some(s@),
        forall|s: Seq<char>| *v == json_string_of(s) ==> r is Some && r.unwrap()@ == s,
        forall|fs: Seq<(Seq<char>, Value)>| *v == json_object_of(fs) ==> r is None,
        json_is_null(*v) ==> r is None,
{
    v.as_str().map(|s| s.to_string())
}

/// The compact JSON text of a value (`Value`'s `Display`).
#[verifier::external_body]
pub(crate) fn json_to_text(v: &Value) -> (r: String)
    ensures
        r@ == json_text_of(*v),
{
    v.to_string()
}

/// `serde_json::from_str::<Value>`: the value of a JSON text, or the parse error.
#[verifier::external_body]
pub(crate) fn json_parse(text: &str) -> (r: Result<Value, serde_json::Error>)
    ensures
        r is Err <==> json_parse_of(text@) is None,
        r matches Ok(v) ==> json_parse_of(text@) == Some(v),
{
    serde_json::from_str::<Value>(text)
}

/// `serde::de::Error::custom` for `serde_json::Error`: an error carrying `msg`.
#[verifier::external_body]
pub(crate) fn json_error(msg: &str) -> (r: serde_json::Error) {
    <serde_json::Error as serde::de::Error>::custom(msg)
}

/// A copy of a list of named JSON values.
pub fn clone_fields(d: &Vec<(String, Value)>) -> (r: Vec<(String, Value)>)
    ensures
        fields_view(r@) == fields_view(d@),
{
    let mut r: Vec<(String, Value)> = Vec::new();
    let mut i: usize = 0;
    while i < d.len()
        invariant
            i <= d.len(),
            r@.len() == i,
            forall|j: int| 0 <= j < i ==> r@[j].0@ == d@[j].0@ && r@[j].1 == d@[j].1,
        decreases d.len() - i,
    {
        let k = d[i].0.clone();
        let v = d[i].1.clone();
        r.push((k, v));
        i = i + 1;
    }
    assert(fields_view(r@) =~= fields_view(d@));
    r
}

} // verus!
