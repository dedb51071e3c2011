//! JSON values, as `serde_json` represents them. The library carries them
//! through and asks `serde_json` about their contents.
use vstd::prelude::*;

verus! {

/// `serde_json::Value`, carried as an opaque value.
#[verifier::external_type_specification]
#[verifier::external_body]
pub struct ExJsonValue(serde_json::Value);

/// Names what `serde_json::Value::get` returns for a string key: the
/// member of that name when the value is an object that has one.
pub uninterp spec fn json_member(v: serde_json::Value, key: Seq<char>) -> Option<serde_json::Value>;

/// Names what `serde_json::Value::as_bool` returns: the boolean when the
/// value is one.
pub uninterp spec fn json_bool(v: serde_json::Value) -> Option<bool>;

/// Calls `serde_json::Value::get` with a string key. The result is named by
/// the value and the key.
#[verifier::external_body]
pub fn json_get<'a>(v: &'a serde_json::Value, key: &str) -> (r: Option<&'a serde_json::Value>)
    ensures
        match r {
            Some(m) => json_member(*v, key@) == Some(*m),
            None => json_member(*v, key@) is None,
        },
{
    v.get(key)
}

/// Calls `serde_json::Value::as_bool`. The result is named by the value.
#[verifier::external_body]
pub fn json_as_bool(v: &serde_json::Value) -> (r: Option<bool>)
    ensures
        r == json_bool(*v),
{
    v.as_bool()
}

/// `serde_json::Value`'s `Clone` is derived: the copy is the same value.
pub assume_specification[ <serde_json::Value as Clone>::clone ](v: &serde_json::Value) -> (r: serde_json::Value)
    ensures
        r == *v,
;


/// Names what `serde_json::Value::as_str` returns: the text when the value
/// is a string.
pub uninterp spec fn json_text(v: serde_json::Value) -> Option<Seq<char>>;

/// Calls `serde_json::Value::as_str`. The result is named by the value.
#[verifier::external_body]
pub fn json_as_str(v: &serde_json::Value) -> (r: Option<&str>)
    ensures
        match r {
            Some(s) => json_text(*v) == Some(s@),
            None => json_text(*v) is None,
        },
{
    v.as_str()
}


/// Names the compact JSON text that `serde_json::to_string` gives for a
/// value.
pub uninterp spec fn json_compact(v: serde_json::Value) -> Seq<char>;

/// Calls `serde_json::to_string` on a value; the text is named by the value
/// (an error, which a `Value` does not cause, would give the empty text).
#[verifier::external_body]
pub fn json_to_text(v: &serde_json::Value) -> (r: String)
    ensures
        r@ == json_compact(*v),
{
    serde_json::to_string(v).unwrap_or_default()
}

} // verus!
