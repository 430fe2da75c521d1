//! Fields of the JSON that container CLIs print, read with `serde_json`.
//! Every reading starts from text; a text that is not JSON reads as `null`
//! (or as an empty array where an array is read).

use vstd::prelude::*;

verus! {

/// The number of elements of `text` read as a JSON array (0 when it is not one).
pub uninterp spec fn json_array_len_of(text: Seq<char>) -> nat;

/// The JSON text of element `i` of `text` read as a JSON array.
pub uninterp spec fn json_element_text_of(text: Seq<char>, i: int) -> Seq<char>;

/// Whether `text` holds a JSON array.
pub uninterp spec fn json_is_array_of(text: Seq<char>) -> bool;

/// The JSON text of field `key` of the value `text` holds (`null` when absent).
pub uninterp spec fn json_field_text_of(text: Seq<char>, key: Seq<char>) -> Seq<char>;

/// Field `key` of the value `text` holds, when it is a string.
pub uninterp spec fn json_str_of(text: Seq<char>, key: Seq<char>) -> Option<Seq<char>>;

/// Field `key` of the value `text` holds, when it is an unsigned integer.
pub uninterp spec fn json_u64_of(text: Seq<char>, key: Seq<char>) -> Option<u64>;

/// `serde_json::from_str::<Vec<Value>>` (no elements when it fails): the
/// number of elements, which the contract names.
#[verifier::external_body]
pub(crate) fn json_array_len(text: &str) -> (r: usize)
    ensures
        r == json_array_len_of(text@),
{
    serde_json::from_str::<Vec<serde_json::Value>>(text).unwrap_or_default().len()
}

/// `serde_json::from_str::<Vec<Value>>`, then element `i` written back as
/// JSON text (`Value::to_string`); the contract names the result.
#[verifier::external_body]
pub(crate) fn json_element_text(text: &str, i: usize) -> (r: String)
    requires
        i < json_array_len_of(text@),
    ensures
        r@ == json_element_text_of(text@, i as int),
{
    let v: Vec<serde_json::Value> = serde_json::from_str(text).unwrap_or_default();
    v[i].to_string()
}

/// `serde_json::from_str::<Value>` (`Null` when it fails), then `is_array`;
/// the contract names the result.
#[verifier::external_body]
pub(crate) fn json_is_array(text: &str) -> (r: bool)
    ensures
        r == json_is_array_of(text@),
{
    serde_json::from_str::<serde_json::Value>(text).unwrap_or_default().is_array()
}

/// `serde_json::from_str::<Value>` (`Null` when it fails), then field `key`
/// written back as JSON text; the contract names the result.
#[verifier::external_body]
pub(crate) fn json_field_text(text: &str, key: &str) -> (r: String)
    ensures
        r@ == json_field_text_of(text@, key@),
{
    serde_json::from_str::<serde_json::Value>(text).unwrap_or_default()[key].to_string()
}

/// `serde_json::from_str::<Value>` (`Null` when it fails), then
/// `[key].as_str()`; the contract names the result.
#[verifier::external_body]
pub(crate) fn json_str(text: &str, key: &str) -> (r: Option<String>)
    ensures
        r matches Some(s) ==> json_str_of(text@, key@) == Some(s@),
        r is None ==> json_str_of(text@, key@) is None,
{
    serde_json::from_str::<serde_json::Value>(text).unwrap_or_default()[key].as_str().map(|s| s.to_string())
}

/// `serde_json::from_str::<Value>` (`Null` when it fails), then
/// `[key].as_u64()`; the contract names the result.
#[verifier::external_body]
pub(crate) fn json_u64(text: &str, key: &str) -> (r: Option<u64>)
    ensures
        r == json_u64_of(text@, key@),
{
    serde_json::from_str::<serde_json::Value>(text).unwrap_or_default()[key].as_u64()
}

} // verus!
