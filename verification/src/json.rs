//! The few questions that the library asks of a decoded JSON document.

use serde_json::Value;
use vstd::prelude::*;

verus! {

/// `serde_json::Value`, a decoded JSON document. Nothing of its inside is seen
/// here: it is asked through the functions below, and handed on.
#[verifier::external_type_specification]
#[verifier::external_body]
pub struct ExValue(serde_json::Value);

/// The member of `doc` under `key`; the null value where `doc` is no object or
/// has no such member.
pub uninterp spec fn json_member(doc: Value, key: Seq<char>) -> Value;

/// The elements of `doc`, where it is an array.
pub uninterp spec fn json_items(doc: Value) -> Option<Seq<Value>>;

/// The characters of `doc`, where it is a string.
pub uninterp spec fn json_text(doc: Value) -> Option<Seq<char>>;

/// The bit pattern of `doc` as a double-precision number, where it is a number.
pub uninterp spec fn json_number_bits(doc: Value) -> Option<u64>;

/// Calls the indexing of a `serde_json::Value` by a string, `doc[key]`, which is
/// `<serde_json::Value as Index<&str>>::index`. The contract only names what
/// comes back: the member under `key`, and the null value where `doc` is no
/// object or has no such member. The call does not panic.
#[verifier::external_body]
pub(crate) fn member<'a>(doc: &'a Value, key: &str) -> (found: &'a Value)
    ensures
        *found == json_member(*doc, key@),
{
    &doc[key]
}

/// Calls `serde_json::Value::as_array`. The contract only names what comes
/// back: the vector of the elements where `doc` is an array, and nothing for any
/// other value.
#[verifier::external_body]
pub(crate) fn items<'a>(doc: &'a Value) -> (found: Option<&'a Vec<Value>>)
    ensures
        match found {
            Some(list) => json_items(*doc) == Some(list@),
            None => json_items(*doc) is None,
        },
{
    doc.as_array()
}

/// Calls `serde_json::Value::as_str`. The contract only names what comes back:
/// the text where `doc` is a string, and nothing for any other value.
#[verifier::external_body]
pub(crate) fn text<'a>(doc: &'a Value) -> (found: Option<&'a str>)
    ensures
        match found {
            Some(s) => json_text(*doc) == Some(s@),
            None => json_text(*doc) is None,
        },
{
    doc.as_str()
}

/// Calls `serde_json::Value::as_f64` and hands the number on as its bit
/// pattern. The contract only names what comes back: the pattern where `doc` is
/// a number, and nothing for any other value.
#[verifier::external_body]
pub(crate) fn number_bits(doc: &Value) -> (found: Option<u64>)
    ensures
        found == json_number_bits(*doc),
{
    match doc.as_f64() {
        Some(number) => Some(number.to_bits()),
        None => None,
    }
}

} // verus!
