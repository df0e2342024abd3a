//! The parts of a JSON value that the resolvers read.
//!
//! Records carry free-form JSON in several places. Such a value is opaque to
//! the verifier; what is read from it is named here, and each accessor of
//! `serde_json` is given the contract that ties its result to that name.

use vstd::prelude::*;
use crate::text::str_view;

verus! {

/// `serde_json::Value`, declared so that records can hold it. Nothing of a
/// value is known but what the names below say.
#[verifier::external_type_specification]
#[verifier::external_body]
pub struct ExJsonValue(serde_json::Value);

/// The integer held by `v`, when `v` is a JSON number that fits an `i64`.
pub uninterp spec fn json_i64(v: serde_json::Value) -> Option<i64>;

/// The text held by `v`, when `v` is a JSON string.
pub uninterp spec fn json_str(v: serde_json::Value) -> Option<Seq<char>>;

/// The member of `v` under `key`, when `v` is a JSON object that has one.
pub uninterp spec fn json_member(v: serde_json::Value, key: Seq<char>) -> Option<serde_json::Value>;

/// `serde_json::Value::as_i64`: yields the integer of a number that is
/// representable as `i64`, and nothing for every other value.
pub assume_specification[ serde_json::Value::as_i64 ](v: &serde_json::Value) -> (r: Option<i64>)
    ensures
        r == json_i64(*v),
;

/// `serde_json::Value::as_str`: yields the text of a string value, and
/// nothing for every other value.
pub assume_specification<'a>[ serde_json::Value::as_str ](v: &'a serde_json::Value) -> (r: Option<
    &'a str,
>)
    ensures
        str_view(r) == json_str(*v),
;

/// `serde_json::Value::get` with a string index: looks `key` up in an object
/// and yields nothing when `v` is not an object or has no such member.
#[verifier::external_body]
pub(crate) fn member<'a>(v: &'a serde_json::Value, key: &str) -> (r: Option<&'a serde_json::Value>)
    ensures
        r is Some <==> json_member(*v, key@) is Some,
        r matches Some(m) ==> json_member(*v, key@) == Some(*m),
{
    v.get(key)
}

} // verus!
