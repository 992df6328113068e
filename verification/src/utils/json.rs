//! JSON documents, as `serde_json` reads and writes them.
//!
//! A document is held as a `serde_json::Value`. Nothing is known of a value
//! but what the functions below say of it: whether it is an object or an
//! array, and what its members or elements are.

use vstd::prelude::*;

verus! {

#[verifier::external_type_specification]
#[verifier::external_body]
pub struct ExValue(serde_json::Value);

#[verifier::external_type_specification]
#[verifier::external_body]
pub struct ExJsonError(serde_json::Error);

/// The document that a text stands for, or nothing where the text is no JSON.
pub uninterp spec fn json_document(text: Seq<char>) -> Option<serde_json::Value>;

/// The members of an object by key, or nothing where the value is no object.
pub uninterp spec fn json_members(value: serde_json::Value) -> Option<
    Map<Seq<char>, serde_json::Value>,
>;

/// The elements of an array in order, or nothing where the value is no array.
pub uninterp spec fn json_elements(value: serde_json::Value) -> Option<Seq<serde_json::Value>>;

/// The text of a JSON string that stands for the given characters: quoted,
/// with escapes where JSON asks for them.
pub uninterp spec fn json_string_text(s: Seq<char>) -> Seq<char>;

/// `serde_json::from_str` at `Value`: reads a whole text as one JSON
/// document. The contract only names the outcome: the same text gives the
/// same document, or fails, every time.
#[verifier::external_body]
pub(crate) fn parse_json(text: &str) -> (r: Result<serde_json::Value, serde_json::Error>)
    ensures
        match r {
            Ok(value) => json_document(text@) == Some(value),
            Err(_) => json_document(text@).is_none(),
        },
{
    serde_json::from_str::<serde_json::Value>(text)
}

/// `Value::is_object`: whether the value is a JSON object.
#[verifier::external_body]
pub(crate) fn json_is_object(value: &serde_json::Value) -> (r: bool)
    ensures
        r == json_members(*value).is_some(),
{
    value.is_object()
}

/// `Value::get` with a key: the member of an object under that key. There is
/// none where the value is no object or the object has no such key.
#[verifier::external_body]
pub(crate) fn json_get<'a>(value: &'a serde_json::Value, key: &str) -> (r: Option<&'a serde_json::Value>)
    ensures
        r == match json_members(*value) {
            Some(members) => if members.contains_key(key@) {
                Some(&members[key@])
            } else {
                None
            },
            None => None,
        },
{
    value.get(key)
}

/// `Value::as_array`: the elements of an array, or nothing where the value
/// is no array.
#[verifier::external_body]
pub(crate) fn json_as_array<'a>(value: &'a serde_json::Value) -> (r: Option<&'a Vec<serde_json::Value>>)
    ensures
        match r {
            Some(elements) => json_elements(*value) == Some(elements@),
            None => json_elements(*value).is_none(),
        },
{
    value.as_array()
}

/// `Value::to_string` of a JSON string: the characters as JSON text. The
/// contract only names the result.
#[verifier::external_body]
pub(crate) fn json_quote(s: &str) -> (r: String)
    ensures
        r@ == json_string_text(s@),
{
    serde_json::Value::String(s.to_owned()).to_string()
}

/// `Value::clone`: a copy of a document.
#[verifier::external_body]
pub(crate) fn json_clone(value: &serde_json::Value) -> (r: serde_json::Value)
    ensures
        r == *value,
{
    value.clone()
}

} // verus!
