//! Bytes as text.

use crate::text;
use vstd::prelude::*;

verus! {

/// The base64 character of a six-bit number.
pub open spec fn base64_char(v: int) -> char {
    if v < 26 {
        (65 + v) as u8 as char
    } else if v < 52 {
        (71 + v) as u8 as char
    } else if v < 62 {
        (v - 4) as u8 as char
    } else if v == 62 {
        '+'
    } else {
        '/'
    }
}

/// Bytes in base64: each three as four characters, and what is left filled up with `=`.
pub open spec fn base64(b: Seq<u8>) -> Seq<char>
    decreases b.len(),
{
    if b.len() == 0 {
        Seq::empty()
    } else if b.len() == 1 {
        seq![base64_char(b[0] as int / 4), base64_char(b[0] as int % 4 * 16), '=', '=']
    } else if b.len() == 2 {
        seq![
            base64_char(b[0] as int / 4),
            base64_char(b[0] as int % 4 * 16 + b[1] as int / 16),
            base64_char(b[1] as int % 16 * 4),
            '=',
        ]
    } else {
        seq![
            base64_char(b[0] as int / 4),
            base64_char(b[0] as int % 4 * 16 + b[1] as int / 16),
            base64_char(b[1] as int % 16 * 4 + b[2] as int / 64),
            base64_char(b[2] as int % 64),
        ] + base64(b.skip(3))
    }
}

/// `base64::Engine::encode` with `base64::engine::general_purpose::STANDARD`: the bytes in
/// base64, with the standard alphabet and with padding.
#[verifier::external_body]
pub(crate) fn to_base64(bytes: &[u8]) -> (r: String)
    ensures
        r@ == base64(bytes@),
{
    base64::Engine::encode(&base64::engine::general_purpose::STANDARD, bytes)
}

/// A data URL that holds bytes of the type `mime`.
pub open spec fn data_url_of(mime: Seq<char>, bytes: Seq<u8>) -> Seq<char> {
    "data:"@ + mime + ";base64,"@ + base64(bytes)
}

/// A data URL that holds bytes of the type `mime`.
pub fn data_url(mime: &str, bytes: &[u8]) -> (r: String)
    ensures
        r@ == data_url_of(mime@, bytes@),
{
    text::cat4("data:", mime, ";base64,", to_base64(bytes).as_str())
}

/// `String::from_utf8` of the standard library: the text that the bytes encode, if they are valid
/// UTF-8, and an error if they are not.
#[verifier::external_body]
pub(crate) fn decode(bytes: Vec<u8>) -> (r: Option<String>)
    ensures
        r is Some <==> vstd::utf8::valid_utf8(bytes@),
        r matches Some(s) ==> s@ == vstd::utf8::decode_utf8(bytes@),
{
    String::from_utf8(bytes).ok()
}

}
