//! The one piece of JSON that the crate leaves to `serde_json`: how a text is
//! written as a string literal.

use vstd::prelude::*;

verus! {

/// The JSON string literal of a text, as `serde_json` writes it: the text
/// between double quotes, with the escapes of the JSON grammar.
pub uninterp spec fn json_string_literal(text: Seq<char>) -> Seq<u8>;

/// Calls `serde_json::to_vec` on a string slice. It succeeds on every text:
/// a string slice is written by the serializer's `serialize_str`, whose only
/// failure is that of the writer, and the writer here is a byte vector, which
/// takes every write. The bytes are the JSON string literal of the text,
/// which depends on the text alone.
#[verifier::external_body]
pub(crate) fn json_string(text: &str) -> (encoded: Result<Vec<u8>, String>)
    ensures
        encoded is Ok,
        encoded matches Ok(bytes) ==> bytes@ == json_string_literal(text@),
{
    match serde_json::to_vec(text) {
        Ok(bytes) => Ok(bytes),
        Err(error) => Err(error.to_string()),
    }
}

} // verus!
