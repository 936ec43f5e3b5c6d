//! Bytes as text.
use vstd::prelude::*;

use base64::Engine;

use crate::text::{is_white, trim, trimmed};

verus! {

/// What the base64 engine `STANDARD` makes of bytes.
pub uninterp spec fn base64_text(bytes: Seq<u8>) -> Seq<char>;

/// What the base64 engine `STANDARD` reads in a text: bytes, or the words of an
/// error.
pub uninterp spec fn base64_bytes(text: Seq<char>) -> Result<Seq<u8>, Seq<char>>;

/// What is read where these bytes are.
pub open spec fn read_as(bytes: Seq<u8>) -> Result<Seq<u8>, Seq<char>> {
    Ok(bytes)
}

/// Whether a character stands in base64: a letter, a digit, `+`, `/` or `=`.
pub open spec fn in_base64(c: char) -> bool {
    'A' <= c <= 'Z' || 'a' <= c <= 'z' || '0' <= c <= '9' || c == '+' || c == '/' || c == '='
}

/// Calls `Engine::encode` of `base64::engine::general_purpose::STANDARD`. The text
/// is a function of the bytes, is made of the characters of base64, and is read
/// back as these bytes.
#[verifier::external_body]
pub(crate) fn encode_base64(bytes: &[u8]) -> (r: String)
    ensures
        r@ == base64_text(bytes@),
        forall|i: int| 0 <= i < r@.len() ==> in_base64(#[trigger] r@[i]),
        base64_bytes(r@) == read_as(bytes@),
{
    base64::engine::general_purpose::STANDARD.encode(bytes)
}

/// Calls `Engine::decode` of `base64::engine::general_purpose::STANDARD`. The bytes,
/// or the words of the error, are a function of the text. It refuses bits that are left
/// over and padding that is not as it must be, so a text that is read is the very one that
/// is written for its bytes.
#[verifier::external_body]
pub(crate) fn decode_base64(text: &str) -> (r: Result<Vec<u8>, String>)
    ensures
        match r {
            Ok(b) => base64_bytes(text@) matches Ok(t) && t == b@ && base64_text(b@) == text@,
            Err(e) => base64_bytes(text@) matches Err(t) && t == e@,
        },
{
    base64::engine::general_purpose::STANDARD.decode(text).map_err(|e| e.to_string())
}

/// Reads base64 with white space around it. What is read is written as the same text
/// again, without the white space.
pub fn decode_trimmed(text: &str) -> (r: Result<Vec<u8>, String>)
    ensures
        match r {
            Ok(b) => base64_bytes(trimmed(text@)) matches Ok(t) && t == b@ && base64_text(b@)
                == trimmed(text@),
            Err(e) => base64_bytes(trimmed(text@)) matches Err(t) && t == e@,
        },
{
    let t = trim(text);
    decode_base64(t.as_str())
}

/// Writes bytes as base64, from which they can be read back.
pub fn encode(bytes: &[u8]) -> (r: String)
    ensures
        r@ == base64_text(bytes@),
        base64_bytes(trimmed(r@)) matches Ok(b) && b == bytes@,
{
    let r = encode_base64(bytes);
    proof {
        lemma_nothing_to_trim(r@);
    }
    r
}

/// A text without white space at its ends is left as it is.
pub proof fn lemma_nothing_to_trim(s: Seq<char>)
    requires
        s.len() > 0 ==> !is_white(s[0]) && !is_white(s.last()),
    ensures
        trimmed(s) == s,
{
}

} // verus!
