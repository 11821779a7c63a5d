use vstd::prelude::*;

verus! {

/// The opaque structured-value format used on the wire. The core carries
/// such values through from the transport to the callables and back; it
/// never builds or inspects their structure itself beyond the few trusted
/// accessors below.
#[verifier::external_type_specification]
#[verifier::external_body]
pub struct ExValue(serde_json::Value);

/// Relies on serde_json::Value::get with a string index: the member of an
/// object under that key, or None when the value is no object or the key
/// is absent.
#[verifier::external_body]
pub(crate) fn json_get_field<'a>(v: &'a serde_json::Value, key: &str) -> Option<
    &'a serde_json::Value,
> {
    v.get(key)
}

/// Relies on serde_json::Value::get with a numeric index: the element of
/// an array at that position, or None when the value is no array or is
/// too short.
#[verifier::external_body]
pub(crate) fn json_get_index<'a>(v: &'a serde_json::Value, index: usize) -> Option<
    &'a serde_json::Value,
> {
    v.get(index)
}

/// Relies on serde_json::Value::as_str: the borrowed text when the value
/// is a string, None otherwise.
#[verifier::external_body]
pub(crate) fn json_as_str<'a>(v: &'a serde_json::Value) -> Option<&'a str> {
    v.as_str()
}

/// Relies on serde_json::Value::Bool: wraps a boolean as a structured
/// value.
#[verifier::external_body]
pub(crate) fn json_bool(b: bool) -> serde_json::Value {
    serde_json::Value::Bool(b)
}

} // verus!
