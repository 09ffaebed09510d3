//! Base64 and UTF-8 conversions at the boundary of the core.
//!
//! Keys, KEM ciphertexts and encrypted bodies travel as base64 text; the
//! base64 crate does the actual encoding and decoding behind the trusted
//! wrappers of this module. What `base64::encode` returns is named by
//! `b64_encode_spec`, what `base64::decode` returns by `b64_decode_spec`;
//! the wrappers state the round trip between the two.

use vstd::prelude::*;
use vstd::utf8::{decode_utf8, valid_utf8};

verus! {

/// The text that `base64::encode` (standard alphabet, padded) produces for
/// the given bytes; a function of the bytes alone.
pub uninterp spec fn b64_encode_spec(bytes: Seq<u8>) -> Seq<char>;

/// The bytes that `base64::decode` (standard alphabet, padded) recovers from
/// the given text, or `None` where the text is not valid base64; a function
/// of the text alone.
pub uninterp spec fn b64_decode_spec(text: Seq<char>) -> Option<Seq<u8>>;

/// A character of the standard base64 alphabet, padding included.
pub open spec fn is_base64_char(c: char) -> bool {
    let u = c as u32;
    (65 <= u && u <= 90) || (97 <= u && u <= 122) || (48 <= u && u <= 57) || u == 43 || u == 47
        || u == 61
}

/// Relies on `base64::encode`: standard alphabet with padding, so the output
/// holds only alphabet characters, takes four characters for every started
/// group of three input bytes, and `base64::decode` recovers exactly the
/// input bytes from it.
#[verifier::external_body]
pub(crate) fn b64_encode(bytes: &Vec<u8>) -> (r: String)
    requires
        bytes@.len() <= usize::MAX / 4,
    ensures
        r@ == b64_encode_spec(bytes@),
        r@.len() == 4 * ((bytes@.len() + 2) / 3),
        b64_decode_spec(r@) == Some(bytes@),
        forall|i: int| 0 <= i < r@.len() ==> is_base64_char(#[trigger] r@[i]),
{
    base64::encode(bytes.as_slice())
}

/// Relies on `base64::decode`: succeeds exactly on valid standard-alphabet
/// base64 text and recovers the encoded bytes.
#[verifier::external_body]
pub(crate) fn b64_decode(text: &str) -> (r: Option<Vec<u8>>)
    ensures
        match r {
            Some(v) => b64_decode_spec(text@) == Some(v@),
            None => b64_decode_spec(text@) is None,
        },
{
    base64::decode(text).ok()
}

/// Relies on `String::from_utf8`: succeeds exactly on valid UTF-8 and yields
/// the text those bytes encode.
#[verifier::external_body]
pub(crate) fn string_from_utf8(bytes: Vec<u8>) -> (r: Option<String>)
    ensures
        r is Some <==> valid_utf8(bytes@),
        r matches Some(s) ==> s@ == decode_utf8(bytes@),
{
    String::from_utf8(bytes).ok()
}

} // verus!
