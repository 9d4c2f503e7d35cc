//! The byte-encoded answers that the host expects.

use vstd::prelude::*;

verus! {

/// The bytes that answer a rejection with `message`, where they can be
/// encoded.
pub uninterp spec fn rejection_encoding(message: Seq<char>) -> Option<Seq<u8>>;

/// The bytes that answer an acceptance which replaces the object by `object`,
/// where they can be encoded.
pub uninterp spec fn mutation_encoding(object: serde_json::Value) -> Option<Seq<u8>>;

/// Why no answer could be encoded.
#[derive(Debug)]
pub enum ResponseError {
    /// The patched pod could not be turned into a document.
    Object(serde_json::Error),
    /// The answer could not be written as bytes; the encoder's own words.
    Encoding(String),
}

/// Calls `kubewarden_policy_sdk::accept_request`: the encoded answer that
/// accepts the request as it is, or the encoder's error as text. Nothing is
/// claimed of the bytes.
#[verifier::external_body]
pub(crate) fn accept_response() -> (encoded: Result<Vec<u8>, String>) {
    kubewarden_policy_sdk::accept_request().map_err(|e| e.to_string())
}

/// Calls `kubewarden_policy_sdk::reject_request` with `message` and neither
/// code, audit annotations nor warnings. The outcome depends on the message
/// alone.
#[verifier::external_body]
pub(crate) fn reject_response(message: String) -> (encoded: Result<Vec<u8>, String>)
    ensures
        encoded is Ok <==> rejection_encoding(message@) is Some,
        encoded is Ok ==> rejection_encoding(message@) == Some(encoded->Ok_0@),
{
    kubewarden_policy_sdk::reject_request(Some(message), None, None, None).map_err(|e| e.to_string())
}

/// Calls `kubewarden_policy_sdk::mutate_request` with the replacement
/// object. The outcome depends on the object alone.
#[verifier::external_body]
pub(crate) fn mutate_response(object: serde_json::Value) -> (encoded: Result<Vec<u8>, String>)
    ensures
        encoded is Ok <==> mutation_encoding(object) is Some,
        encoded is Ok ==> mutation_encoding(object) == Some(encoded->Ok_0@),
{
    kubewarden_policy_sdk::mutate_request(object).map_err(|e| e.to_string())
}

} // verus!
