//! The transport text: the printable form in which a payload travels.
//!
//! Turning bytes into text and back is the work of the `base64` crate, with
//! its standard alphabet and padding. Nothing here is proved of that crate:
//! its results are named, and the few facts stated of them are taken on
//! trust.

use vstd::prelude::*;
use base64::Engine;
use crate::error::CodecError;
use crate::standard::is_transport_symbol;

verus! {

#[verifier::external_type_specification]
#[verifier::external_body]
pub struct ExDecodeError(base64::DecodeError);

/// The text that `base64`'s standard engine gives for a payload.
pub uninterp spec fn transport_text(payload: Seq<u8>) -> Seq<char>;

/// The payload that `base64`'s standard engine reads from a text, if it
/// accepts the text.
pub uninterp spec fn transport_bytes(text: Seq<char>) -> Option<Seq<u8>>;

/// The text of a payload of this length fits in memory: `base64` computes
/// four characters for every three bytes begun, and panics if that number
/// is not a `usize`.
pub open spec fn encodable_len(len: nat) -> bool {
    4 * ((len + 2) / 3) <= usize::MAX
}

/// Calls `Engine::encode` on `base64::engine::general_purpose::STANDARD` and
/// hands the text out character by character.
///
/// Trusted: the text is the one named `transport_text`; the same engine
/// reads the payload back from it; and it is made of the 64 digits of the
/// standard alphabet and the padding symbol only.
#[verifier::external_body]
fn base64_encode(payload: &Vec<u8>) -> (text: Vec<char>)
    requires
        encodable_len(payload@.len()),
    ensures
        text@ == transport_text(payload@),
        transport_bytes(text@) == Some(payload@),
        forall|i: int| 0 <= i < text@.len() ==> is_transport_symbol(#[trigger] text@[i]),
{
    base64::engine::general_purpose::STANDARD.encode(payload).chars().collect()
}

/// Calls `Engine::decode` on `base64::engine::general_purpose::STANDARD`,
/// with the characters joined into one string.
///
/// Trusted: the outcome is the one named `transport_bytes`; and the engine,
/// which insists on canonical padding and on clear trailing bits, accepts a
/// text only if it is the text that it gives for the payload read.
#[verifier::external_body]
fn base64_decode(text: &Vec<char>) -> (r: Result<Vec<u8>, base64::DecodeError>)
    ensures
        match r {
            Ok(payload) => transport_bytes(text@) == Some(payload@) && transport_text(payload@)
                == text@,
            Err(_) => transport_bytes(text@) is None,
        },
{
    let joined: String = text.iter().collect();
    base64::engine::general_purpose::STANDARD.decode(joined)
}

/// The transport text of a payload.
pub fn to_transport_text(payload: &Vec<u8>) -> (text: Vec<char>)
    requires
        encodable_len(payload@.len()),
    ensures
        text@ == transport_text(payload@),
        transport_bytes(text@) == Some(payload@),
        forall|i: int| 0 <= i < text@.len() ==> is_transport_symbol(#[trigger] text@[i]),
{
    base64_encode(payload)
}

/// Settles what reading a transport text gave: the payload, or
/// `MalformedText` whatever the reason for which the text was rejected.
pub fn payload_or_malformed(read: Result<Vec<u8>, base64::DecodeError>) -> (r: Result<
    Vec<u8>,
    CodecError,
>)
    ensures
        match read {
            Ok(payload) => r == Ok::<Vec<u8>, CodecError>(payload),
            Err(_) => r == Err::<Vec<u8>, CodecError>(CodecError::MalformedText),
        },
{
    match read {
        Ok(payload) => Ok(payload),
        Err(_) => Err(CodecError::MalformedText),
    }
}

/// Reads the payload back from a transport text. Only the text of a payload
/// is accepted; any other is `MalformedText`.
pub fn from_transport_text(text: &Vec<char>) -> (r: Result<Vec<u8>, CodecError>)
    ensures
        match transport_bytes(text@) {
            Some(payload) => r is Ok && r->Ok_0@ == payload && transport_text(payload) == text@,
            None => r == Err::<Vec<u8>, CodecError>(CodecError::MalformedText),
        },
{
    payload_or_malformed(base64_decode(text))
}

} // verus!
