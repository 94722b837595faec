//! The calls into `serde_json` and the one into std's UTF-8 decoding.
//!
//! A JSON value is opaque here: it is carried from the caller to the encoder
//! and from the decoder to the caller, and no contract speaks of what is in it.

use vstd::prelude::*;

verus! {

/// The error of `serde_json`; carried through, never looked into.
#[verifier::external_type_specification]
#[verifier::external_body]
pub struct ExJsonError(serde_json::Error);

/// The text that `String::from_utf8_lossy` makes of `bytes`.
pub uninterp spec fn utf8_lossy(bytes: Seq<u8>) -> Seq<char>;

/// Whether `serde_json::from_slice` accepts `bytes` as one JSON value.
pub uninterp spec fn json_accepts(bytes: Seq<u8>) -> bool;

/// Calls `serde_json::to_vec` on a JSON value. Believed: it succeeds, as a
/// JSON value has nothing in it that cannot be written and a vector takes
/// every byte. Nothing is claimed of the bytes.
#[verifier::external_body]
pub(crate) fn encode(value: &serde_json::Value) -> (res: Result<Vec<u8>, serde_json::Error>)
    ensures
        res is Ok,
{
    serde_json::to_vec(value)
}

/// Calls `serde_json::from_slice` for a JSON value. Believed: it succeeds
/// exactly on the bytes that [`json_accepts`] names. Nothing is claimed of
/// the value.
#[verifier::external_body]
pub(crate) fn decode(bytes: &[u8]) -> (res: Result<serde_json::Value, serde_json::Error>)
    ensures
        res is Ok <==> json_accepts(bytes@),
{
    serde_json::from_slice(bytes)
}

/// The text that `serde_json::Error` displays. Nothing is claimed of it.
#[verifier::external_body]
pub(crate) fn error_words(error: &serde_json::Error) -> String {
    error.to_string()
}

/// Calls `String::from_utf8_lossy`. Believed: the result is what
/// [`utf8_lossy`] names.
#[verifier::external_body]
pub(crate) fn lossy_text(bytes: &[u8]) -> (res: String)
    ensures
        res@ == utf8_lossy(bytes@),
{
    String::from_utf8_lossy(bytes).into_owned()
}

} // verus!
