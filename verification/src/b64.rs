//! Base64 encoding and decoding, through the `base64` crate's
//! standard-alphabet, padded engine — the configuration the data URIs
//! of this library carry.
//!
//! The encoding itself is not restated here: `b64_encoding` names the
//! text that the engine produces for given bytes, and decoding is
//! trusted to invert it.

use vstd::prelude::*;

verus! {

/// The base64 text that the standard-alphabet, padded engine produces
/// for `bytes`: a function of the bytes alone.
pub uninterp spec fn b64_encoding(bytes: Seq<u8>) -> Seq<char>;

/// Relies on base64's `Engine::encode` with the
/// `general_purpose::STANDARD` engine: the output is a deterministic
/// function of the input bytes.  `encode` panics when the output
/// length overflows `usize`, so inputs near that size are excluded.
#[verifier::external_body]
pub(crate) fn b64_encode(bytes: &Vec<u8>) -> (r: String)
    requires
        4 * ((bytes@.len() + 2) / 3) <= usize::MAX,
    ensures
        r@ == b64_encoding(bytes@),
{
    base64::Engine::encode(&base64::engine::general_purpose::STANDARD, bytes)
}

/// Relies on base64's `Engine::decode` with the same engine: decoding
/// the text that `Engine::encode` produced for some bytes yields
/// exactly those bytes back.
#[verifier::external_body]
pub(crate) fn b64_decode(text: &str) -> (r: Option<Vec<u8>>)
    ensures
        r is None ==> forall|bytes: Seq<u8>| text@ != b64_encoding(bytes),
        r matches Some(v) ==> forall|bytes: Seq<u8>|
            text@ == #[trigger] b64_encoding(bytes) ==> v@ == bytes,
{
    match base64::Engine::decode(&base64::engine::general_purpose::STANDARD, text) {
        Ok(v) => Some(v),
        Err(_) => None,
    }
}

} // verus!
