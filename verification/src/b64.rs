//! Keys, digests and signatures as text.

use vstd::prelude::*;
use vstd::string::StringSliceAdditionalSpecFns;

verus! {

/// The longest byte string that is written as text, and the longest text
/// that is read as bytes.
pub const MAX_BINARY_LEN: usize = 0x1000_0000;

/// The standard base64 text of a byte string, with padding.
pub uninterp spec fn base64_text(bytes: Seq<u8>) -> Seq<char>;

/// The bytes that a standard base64 text with padding stands for; `None` for
/// a text that is no such text.
pub uninterp spec fn base64_bytes(text: Seq<char>) -> Option<Seq<u8>>;

/// Calls `base64::encode`, which writes its input in the standard alphabet
/// with padding. It fails only where the length of the text would not fit
/// the machine's word, which the bound on the input rules out.
#[verifier::external_body]
fn encode(bytes: &[u8]) -> (r: String)
    requires
        bytes@.len() <= MAX_BINARY_LEN,
    ensures
        r@ == base64_text(bytes@),
{
    ::base64::encode(bytes)
}

/// Calls `base64::decode`, which reads text in the standard alphabet with
/// padding and refuses any other. It fails only where the length of the text
/// plus three would not fit the machine's word, which the bound on the input
/// rules out.
#[verifier::external_body]
fn decode(text: &str) -> (r: Option<Vec<u8>>)
    requires
        text.spec_bytes().len() <= MAX_BINARY_LEN,
    ensures
        match r {
            Some(bytes) => base64_bytes(text@) == Some(bytes@),
            None => base64_bytes(text@) is None,
        },
{
    ::base64::decode(text).ok()
}

/// Whether a byte string is short enough to be written as text.
pub open spec fn writable(bytes: Seq<u8>) -> bool {
    bytes.len() <= MAX_BINARY_LEN
}

/// The bytes that a text stands for, if it is base64 and not too long to be
/// read.
pub open spec fn binary_of(text: Seq<char>) -> Option<Seq<u8>> {
    if vstd::utf8::encode_utf8(text).len() <= MAX_BINARY_LEN {
        base64_bytes(text)
    } else {
        None
    }
}

/// Writes a byte string as base64 text; `None` for one that is too long.
pub fn to_text(bytes: &[u8]) -> (r: Option<String>)
    ensures
        match r {
            Some(text) => writable(bytes@) && text@ == base64_text(bytes@),
            None => !writable(bytes@),
        },
{
    if bytes.len() <= MAX_BINARY_LEN {
        Some(encode(bytes))
    } else {
        None
    }
}

/// Reads base64 text as a byte string; `None` for a text that is not base64
/// or is too long.
pub fn from_text(text: &str) -> (r: Option<Vec<u8>>)
    ensures
        match r {
            Some(bytes) => binary_of(text@) == Some(bytes@),
            None => binary_of(text@) is None,
        },
{
    if text.as_bytes().len() <= MAX_BINARY_LEN {
        decode(text)
    } else {
        None
    }
}

} // verus!
