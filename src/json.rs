//! The JSON value type of `serde_json`, carried through the library as an
//! opaque scalar, and the few operations on it that the logic needs.
use vstd::prelude::*;

verus! {

/// `serde_json::Value`, a JSON value; opaque to the proofs.
#[verifier::external_type_specification]
#[verifier::external_body]
pub struct ExJsonValue(serde_json::Value);

/// Relies on the derived `Clone` of `serde_json::Value`: a deep copy that is
/// equal to the value copied.
#[verifier::external_body]
pub(crate) fn copy_json(v: &serde_json::Value) -> (r: serde_json::Value)
    ensures
        r == *v,
{
    v.clone()
}

/// The JSON string value holding the text `s`.
pub uninterp spec fn json_string(s: Seq<char>) -> serde_json::Value;

/// The JSON number value of a signed integer.
pub uninterp spec fn json_int(n: i64) -> serde_json::Value;

/// The JSON number value of an unsigned integer.
pub uninterp spec fn json_u64(n: u64) -> serde_json::Value;

/// The text of a JSON string value; none for other values.
pub uninterp spec fn json_text(v: serde_json::Value) -> Option<Seq<char>>;

/// The JSON value that the text `s` writes; none when it is not valid JSON.
pub uninterp spec fn json_parse(s: Seq<char>) -> Option<serde_json::Value>;

/// Whether a JSON value is an object.
pub uninterp spec fn json_is_object(v: serde_json::Value) -> bool;

/// Whether a JSON value is an array.
pub uninterp spec fn json_is_array(v: serde_json::Value) -> bool;

/// Relies on `From<String>` for `serde_json::Value`: the string value.
pub assume_specification[ <serde_json::Value as core::convert::From<String>>::from ](
    f: String,
) -> (r: serde_json::Value)
    ensures
        r == json_string(f@),
;

/// Relies on `From<i64>` for `serde_json::Value`: the number value.
pub assume_specification[ <serde_json::Value as core::convert::From<i64>>::from ](
    f: i64,
) -> (r: serde_json::Value)
    ensures
        r == json_int(f),
;

/// Relies on `From<u64>` for `serde_json::Value`: the number value.
pub assume_specification[ <serde_json::Value as core::convert::From<u64>>::from ](
    f: u64,
) -> (r: serde_json::Value)
    ensures
        r == json_u64(f),
;

/// Relies on `serde_json::Value::as_str`: the text of a JSON string value.
pub assume_specification[ serde_json::Value::as_str ](v: &serde_json::Value) -> (r: Option<&str>)
    ensures
        r.is_some() == json_text(*v).is_some(),
        r.is_some() ==> json_text(*v) == Some(r.unwrap()@),
;

/// Relies on `serde_json::Value::is_object`.
pub assume_specification[ serde_json::Value::is_object ](v: &serde_json::Value) -> (r: bool)
    ensures
        r == json_is_object(*v),
;

/// Relies on `serde_json::Value::is_array`.
pub assume_specification[ serde_json::Value::is_array ](v: &serde_json::Value) -> (r: bool)
    ensures
        r == json_is_array(*v),
;

/// Relies on `serde_json::from_str`: the JSON value that `s` writes, if it
/// is valid JSON.
#[verifier::external_body]
pub(crate) fn parse_json_text(s: &str) -> (r: Option<serde_json::Value>)
    ensures
        r == json_parse(s@),
{
    serde_json::from_str(s).ok()
}

} // verus!
