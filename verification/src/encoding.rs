//! Base64, the textual form of keys, nonces, ciphertexts and signatures.
use base64::Engine;
use vstd::prelude::*;

use crate::error::{outcome, ChatError, Messages};

verus! {

/// Decoded bytes, or the text of the decoder's error.
pub type Decoded = Result<Seq<u8>, Seq<char>>;

/// What `base64::engine::general_purpose::STANDARD` encodes `bytes` as.
pub uninterp spec fn base64_encoded(bytes: Seq<u8>) -> Seq<char>;

/// What `base64::engine::general_purpose::STANDARD` decodes `text` to: bytes, or
/// the text of its error.
pub uninterp spec fn base64_decoded(text: Seq<char>) -> Decoded;

/// Calls `encode` of `base64::engine::general_purpose::STANDARD`. The result
/// depends on the bytes alone, and the same engine decodes it back to them.
#[verifier::external_body]
pub(crate) fn base64_encode(bytes: &[u8]) -> (text: String)
    ensures
        text@ == base64_encoded(bytes@),
        base64_decoded(text@) == Decoded::Ok(bytes@),
{
    base64::engine::general_purpose::STANDARD.encode(bytes)
}

/// Calls `decode` of `base64::engine::general_purpose::STANDARD`. The bytes, or
/// the text of the `base64::DecodeError`, depend on the text alone.
#[verifier::external_body]
pub(crate) fn base64_decode(text: &str) -> (bytes: Result<Vec<u8>, String>)
    ensures
        match bytes {
            Ok(bytes) => base64_decoded(text@) == Decoded::Ok(bytes@),
            Err(reason) => base64_decoded(text@) == Decoded::Err(reason@),
        },
{
    base64::engine::general_purpose::STANDARD.decode(text).map_err(|e| e.to_string())
}

/// The bytes that a base64 text stands for, or an error that says what is wrong
/// with the text.
pub open spec fn decode_outcome(text: Seq<char>) -> Result<Seq<u8>, Messages> {
    match base64_decoded(text) {
        Ok(bytes) => Ok(bytes),
        Err(reason) => Err(seq![reason]),
    }
}

/// Decodes a base64 text.
pub fn decode(text: &str) -> (bytes: Result<Vec<u8>, ChatError>)
    ensures
        outcome(bytes) == decode_outcome(text@),
{
    match base64_decode(text) {
        Ok(bytes) => Ok(bytes),
        Err(reason) => Err(ChatError::new(reason)),
    }
}

/// The outcome of decoding the field `field` of a frame: a failure names the
/// field.
pub open spec fn decode_field_outcome(text: Seq<char>, field: Seq<char>) -> Result<
    Seq<u8>,
    Messages,
> {
    match decode_outcome(text) {
        Ok(bytes) => Ok(bytes),
        Err(messages) => Err(seq![field] + messages),
    }
}

/// Decodes the field `field` of a frame.
pub fn decode_field(text: &str, field: &str) -> (bytes: Result<Vec<u8>, ChatError>)
    ensures
        outcome(bytes) == decode_field_outcome(text@, field@),
{
    match decode(text) {
        Ok(bytes) => Ok(bytes),
        Err(error) => Err(error.context(field.to_string())),
    }
}

} // verus!
