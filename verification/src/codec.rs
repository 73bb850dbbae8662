//! Trusted boundary to the outside decoders.
//!
//! The credential extractor leans on two decoding steps whose exact value
//! the library does not restate: base64 decoding, done by the `base64`
//! crate, and UTF-8 decoding, done by `String::from_utf8` and specified
//! here through vstd's UTF-8 model.

use vstd::prelude::*;
use vstd::utf8::decode_utf8;
use vstd::utf8::valid_utf8;

verus! {

/// What `base64::decode` returns on the given characters: the decoded
/// bytes, or `None` where the input is not valid base64. The result is a
/// function of the input alone.
pub uninterp spec fn base64_decode_of(s: Seq<char>) -> Option<Seq<u8>>;

/// Relies on `base64::decode` (standard alphabet, padding required): it
/// decodes the input to bytes, or reports a decode error, depending on the
/// input characters alone.
#[verifier::external_body]
pub(crate) fn decode_base64(s: &str) -> (r: Option<Vec<u8>>)
    ensures
        match (r, base64_decode_of(s@)) {
            (Some(v), Some(bytes)) => v@ == bytes,
            (None, None) => true,
            _ => false,
        },
{
    base64::decode(s).ok()
}

/// Relies on `String::from_utf8`: it succeeds exactly on valid UTF-8 and
/// returns the text those bytes encode.
#[verifier::external_body]
pub(crate) fn utf8_to_string(bytes: Vec<u8>) -> (r: Option<String>)
    ensures
        r is Some <==> valid_utf8(bytes@),
        match r {
            Some(s) => s@ == decode_utf8(bytes@),
            None => !valid_utf8(bytes@),
        },
{
    String::from_utf8(bytes).ok()
}

} // verus!
