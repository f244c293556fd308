//! Web utilities: URL percent-encoding.

use vstd::prelude::*;

verus! {

/// Unreserved bytes, kept verbatim by the encoding: letters, digits,
/// `-`, `.`, `_`, `~`.
pub open spec fn url_unreserved(b: u8) -> bool {
    (0x30 <= b <= 0x39) || (0x41 <= b <= 0x5A) || (0x61 <= b <= 0x7A) || b == 0x2D || b == 0x2E
        || b == 0x5F || b == 0x7E
}

/// Upper-case hexadecimal digit of a nibble.
pub open spec fn hex_upper(x: u8) -> char {
    if x < 10 {
        ((0x30 + x) as u8) as char
    } else {
        ((0x37 + x) as u8) as char
    }
}

/// Percent-encoding of a byte sequence: every byte is kept when
/// unreserved, and written `%XY` in upper-case hexadecimal otherwise.
pub open spec fn url_enc_spec(bs: Seq<u8>) -> Seq<char>
    decreases bs.len(),
{
    if bs.len() == 0 {
        Seq::empty()
    } else {
        let head: Seq<char> = if url_unreserved(bs[0]) {
            seq![bs[0] as char]
        } else {
            seq!['%', hex_upper(bs[0] / 16), hex_upper(bs[0] % 16)]
        };
        head + url_enc_spec(bs.drop_first())
    }
}

/// Relies on `urlencoding::encode`: percent-encodes every byte of the
/// UTF-8 form except alphanumerics and `-`, `.`, `_`, `~`, with
/// upper-case hexadecimal escapes.
#[verifier::external_body]
pub fn url_encode(s: &str) -> (r: String)
    ensures
        r@ == url_enc_spec(vstd::utf8::encode_utf8(s@)),
{
    urlencoding::encode(s).into_owned()
}

} // verus!
