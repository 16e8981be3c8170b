use vstd::prelude::*;

verus! {

#[verifier::external_type_specification]
#[verifier::external_body]
pub struct ExValue(serde_json::Value);

/// The member `key` of an object value; `None` for a missing key or a value
/// that is not an object.
pub uninterp spec fn member_of(v: serde_json::Value, key: Seq<char>) -> Option<serde_json::Value>;

/// The text of a string value; `None` for any other value.
pub uninterp spec fn str_of(v: serde_json::Value) -> Option<Seq<char>>;

/// The number of an integer value that fits an `i64`; `None` otherwise.
pub uninterp spec fn i64_of(v: serde_json::Value) -> Option<i64>;

/// The value of a boolean; `None` for any other value.
pub uninterp spec fn bool_of(v: serde_json::Value) -> Option<bool>;

/// The elements of an array value; `None` for any other value.
pub uninterp spec fn array_of(v: serde_json::Value) -> Option<Seq<serde_json::Value>>;

/// Relies on serde_json::Value::get: the member `key` of an object, cloned.
#[verifier::external_body]
pub(crate) fn member(v: &serde_json::Value, key: &str) -> (r: Option<serde_json::Value>)
    ensures
        r == member_of(*v, key@),
{
    v.get(key).cloned()
}

/// Relies on serde_json::Value::as_str: the text of a string value.
#[verifier::external_body]
pub(crate) fn as_string(v: &serde_json::Value) -> (r: Option<String>)
    ensures
        match r {
            Some(s) => str_of(*v) == Some(s@),
            None => str_of(*v) is None,
        },
{
    v.as_str().map(String::from)
}

/// Relies on serde_json::Value::as_bool: the value of a boolean.
#[verifier::external_body]
pub(crate) fn as_bool(v: &serde_json::Value) -> (r: Option<bool>)
    ensures
        r == bool_of(*v),
{
    v.as_bool()
}

/// Relies on serde_json::Value::as_i64: a number that fits an `i64`.
#[verifier::external_body]
pub(crate) fn as_i64(v: &serde_json::Value) -> (r: Option<i64>)
    ensures
        r == i64_of(*v),
{
    v.as_i64()
}

/// Relies on serde_json::Value::as_array: the elements of an array, cloned.
#[verifier::external_body]
pub(crate) fn as_array(v: &serde_json::Value) -> (r: Option<Vec<serde_json::Value>>)
    ensures
        match r {
            Some(items) => array_of(*v) == Some(items@),
            None => array_of(*v) is None,
        },
{
    v.as_array().cloned()
}

} // verus!
