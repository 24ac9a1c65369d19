//! Trusted boundary to the JSON collaborator. The engine never inspects a
//! JSON value: it only serializes outgoing bodies and parses incoming ones,
//! so the value type is carried through opaquely.
use vstd::prelude::*;
use vstd::utf8::encode_utf8;

verus! {

#[verifier::external_type_specification]
#[verifier::external_body]
pub struct ExValue(serde_json::Value);

/// The canonical text that serializing `v` produces, when serialization
/// succeeds.
pub uninterp spec fn json_text_of(v: serde_json::Value) -> Seq<char>;

/// The value that parsing `b` produces, or `None` when `b` is not valid JSON.
pub uninterp spec fn json_parse_of(b: Seq<u8>) -> Option<serde_json::Value>;

/// The value's nesting stays within the parser's recursion limit. The
/// serializer enforces no such limit, so only values within it are owed a
/// parse-back of their serialized text.
pub uninterp spec fn json_within_parse_depth(v: serde_json::Value) -> bool;

/// Relies on serde_json::to_string: the text produced is a function of the
/// value alone, and serde_json::from_slice parses it back to an equal value
/// for every value whose nesting the parser's recursion limit admits.
#[verifier::external_body]
pub(crate) fn json_to_string(v: &serde_json::Value) -> (r: Result<String, String>)
    ensures
        r matches Ok(s) ==> s@ == json_text_of(*v) && (json_within_parse_depth(*v)
            ==> json_parse_of(encode_utf8(s@)) == Some(*v)),
{
    serde_json::to_string(v).map_err(|e| e.to_string())
}

/// Relies on serde_json::from_slice: parsing is a function of the bytes alone;
/// it returns a value exactly when the bytes are valid JSON.
#[verifier::external_body]
pub(crate) fn json_from_slice(b: &[u8]) -> (r: Result<serde_json::Value, String>)
    ensures
        match r {
            Ok(v) => json_parse_of(b@) == Some(v),
            Err(_) => json_parse_of(b@) is None,
        },
{
    serde_json::from_slice::<serde_json::Value>(b).map_err(|e| e.to_string())
}

} // verus!
