//! The JSON documents of the upstream API, read through `serde_json`.
//!
//! A `serde_json::Value` is opaque to the verifier. What the library reads
//! from one is named here, one spec function per accessor, and the wrappers
//! below tie each accessor's result to its name. Nothing else is assumed of
//! a document.

use vstd::prelude::*;

verus! {

/// Makes `serde_json::Value` known as a type whose inside is not looked at.
#[verifier::external_type_specification]
#[verifier::external_body]
pub struct ExJsonValue(serde_json::Value);

/// Makes `serde_json::Error` known as a type whose inside is not looked at.
#[verifier::external_type_specification]
#[verifier::external_body]
pub struct ExJsonError(serde_json::Error);

/// The document that `serde_json::from_str` reads from `text`, if `text` is
/// one well-formed JSON document.
pub uninterp spec fn json_parse(text: Seq<char>) -> Option<serde_json::Value>;

/// What `v[key]` is: the member `key` of the object `v`, and JSON `null`
/// where `v` is no object or has no such member.
pub uninterp spec fn json_member(v: serde_json::Value, key: Seq<char>) -> serde_json::Value;

/// The text of `v`, if `v` is a JSON string.
pub uninterp spec fn json_str(v: serde_json::Value) -> Option<Seq<char>>;

/// The number `v` as an `i64`, if `v` is an integer in that range.
pub uninterp spec fn json_i64(v: serde_json::Value) -> Option<i64>;

/// The elements of `v` in order, if `v` is a JSON array.
pub uninterp spec fn json_elements(v: serde_json::Value) -> Option<Seq<serde_json::Value>>;

/// Calls `serde_json::from_str` for a `Value`. Assumed: whether the text is
/// accepted, and the document read from it, depend on the text alone; the
/// document is named [`json_parse`].
#[verifier::external_body]
pub(crate) fn parse(text: &str) -> (r: Result<serde_json::Value, serde_json::Error>)
    ensures
        r matches Ok(v) ==> json_parse(text@) == Some(v),
        r is Err ==> json_parse(text@) is None,
{
    serde_json::from_str::<serde_json::Value>(text)
}

/// Indexes a `Value` by a string key (`v[key]`), which never panics on a
/// shared reference. Assumed: the result is [`json_member`] of the two.
#[verifier::external_body]
pub(crate) fn member<'a>(v: &'a serde_json::Value, key: &str) -> (r: &'a serde_json::Value)
    ensures
        *r == json_member(*v, key@),
{
    &v[key]
}

/// Calls `Value::as_str`. Assumed: the result is [`json_str`] of the value.
#[verifier::external_body]
pub(crate) fn as_str<'a>(v: &'a serde_json::Value) -> (r: Option<&'a str>)
    ensures
        r matches Some(s) ==> json_str(*v) == Some(s@),
        r is None ==> json_str(*v) is None,
{
    v.as_str()
}

/// Calls `Value::as_i64`. Assumed: the result is [`json_i64`] of the value.
#[verifier::external_body]
pub(crate) fn as_i64(v: &serde_json::Value) -> (r: Option<i64>)
    ensures
        r == json_i64(*v),
{
    v.as_i64()
}

/// Calls `Value::as_array`. Assumed: the result holds [`json_elements`] of
/// the value.
#[verifier::external_body]
pub(crate) fn as_array<'a>(v: &'a serde_json::Value) -> (r: Option<&'a Vec<serde_json::Value>>)
    ensures
        r matches Some(a) ==> json_elements(*v) == Some(a@),
        r is None ==> json_elements(*v) is None,
{
    v.as_array()
}

/// Calls `Value::clone`. Assumed: the copy equals the value it was made of.
#[verifier::external_body]
pub(crate) fn clone_value(v: &serde_json::Value) -> (r: serde_json::Value)
    ensures
        r == *v,
{
    v.clone()
}

} // verus!
