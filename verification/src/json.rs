//! Members of JSON objects.

use vstd::prelude::*;

verus! {

/// The unsigned number under a key of a JSON object. `None` where the bytes
/// are no JSON, where they are no object, where the key is missing, and where
/// its value is no number that 64 bits hold unsigned.
pub uninterp spec fn number_member(bytes: Seq<u8>, key: Seq<char>) -> Option<u64>;

/// The text under a key of a JSON object, or `None` in the same way.
pub uninterp spec fn text_member(bytes: Seq<u8>, key: Seq<char>) -> Option<Seq<char>>;

/// The bytes are a JSON text.
pub uninterp spec fn is_json(bytes: Seq<u8>) -> bool;

/// Whether bytes are a JSON text.
///
/// Calls `serde_json::from_slice`. Trusted: the result depends on the bytes
/// alone.
#[verifier::external_body]
pub(crate) fn check_json(bytes: &Vec<u8>) -> (r: bool)
    ensures
        r == is_json(bytes@),
{
    serde_json::from_slice::<serde_json::Value>(bytes).is_ok()
}

/// Reads the unsigned number under a key of a JSON object.
///
/// Calls `serde_json::from_slice`, `Value::get` and `Value::as_u64`. Trusted:
/// the result depends on the bytes and the key alone.
#[verifier::external_body]
pub(crate) fn read_number_member(bytes: &Vec<u8>, key: &str) -> (r: Option<u64>)
    ensures
        r == number_member(bytes@, key@),
{
    serde_json::from_slice::<serde_json::Value>(bytes).ok()?.get(key)?.as_u64()
}

/// Reads the text under a key of a JSON object.
///
/// Calls `serde_json::from_slice`, `Value::get` and `Value::as_str`. Trusted:
/// the result depends on the bytes and the key alone.
#[verifier::external_body]
pub(crate) fn read_text_member(bytes: &Vec<u8>, key: &str) -> (r: Option<String>)
    ensures
        match r {
            Some(s) => text_member(bytes@, key@) == Some(s@),
            None => text_member(bytes@, key@) is None,
        },
{
    let value = serde_json::from_slice::<serde_json::Value>(bytes).ok()?;
    Some(value.get(key)?.as_str()?.to_string())
}

} // verus!
