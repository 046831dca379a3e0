//! Base64 text of binary payloads, with the standard alphabet and
//! canonical padding, through the `base64` crate.

use base64::engine::general_purpose::STANDARD;
use base64::Engine;
use vstd::prelude::*;

verus! {

/// The text that the `base64` crate's `STANDARD` engine writes for `bytes`.
pub uninterp spec fn base64_standard_encoding(bytes: Seq<u8>) -> Seq<char>;

/// The bytes that the `base64` crate's `STANDARD` engine reads from `text`,
/// or `None` where it reports a decode error.
pub uninterp spec fn base64_standard_decoding(text: Seq<char>) -> Option<Seq<u8>>;

/// The payload is short enough that a buffer for its padded base64 text
/// (four characters for each started group of three bytes) can be
/// allocated: no allocation exceeds `isize::MAX` bytes.
pub open spec fn base64_encodable(bytes: Seq<u8>) -> bool {
    bytes.len() / 3 * 4 + 4 <= isize::MAX as int
}

/// Calls `base64::Engine::encode` on the `STANDARD` engine (standard
/// alphabet, padding written). Claimed: the result is the engine's text for
/// the bytes, and the same engine decodes that text back to the bytes (its
/// output is canonical, and canonical text is what its decoder accepts).
/// The engine panics when the text length overflows `usize` or its buffer
/// exceeds `isize::MAX` bytes, which the `requires` rules out.
#[verifier::external_body]
pub(crate) fn base64_encode(bytes: &[u8]) -> (res: String)
    requires
        base64_encodable(bytes@),
    ensures
        res@ == base64_standard_encoding(bytes@),
        base64_standard_decoding(res@) == Some(bytes@),
{
    STANDARD.encode(bytes)
}

/// Calls `base64::Engine::decode` on the `STANDARD` engine (standard
/// alphabet, canonical padding and no trailing bits required). Claimed: the
/// result is the engine's reading of the text, `None` for any decode error.
#[verifier::external_body]
pub(crate) fn base64_decode(text: &str) -> (res: Option<Vec<u8>>)
    ensures
        res is None <==> base64_standard_decoding(text@) is None,
        res matches Some(v) ==> base64_standard_decoding(text@) == Some(v@),
{
    STANDARD.decode(text).ok()
}

} // verus!
