//! Characters and strings: conversions, case mapping, whitespace.
//!
//! Case mapping and lossy UTF-8 decoding are Unicode-table functions
//! of the standard library; they stand behind trusted wrappers whose
//! results are named by uninterpreted functions.  Everything else here
//! is verified.

use vstd::prelude::*;
use vstd::utf8::decode_utf8;
use vstd::utf8::valid_utf8;

verus! {

/// What `str::to_lowercase` returns for these characters.
pub uninterp spec fn lower_of(s: Seq<char>) -> Seq<char>;

/// What `str::to_uppercase` returns for these characters.
pub uninterp spec fn upper_of(s: Seq<char>) -> Seq<char>;

/// What `char::to_uppercase` yields for this character.
pub uninterp spec fn char_upper_of(c: char) -> Seq<char>;

/// What `char::to_lowercase` yields for this character.
pub uninterp spec fn char_lower_of(c: char) -> Seq<char>;

/// What `String::from_utf8_lossy` decodes these bytes to.
pub uninterp spec fn lossy_of(bs: Seq<u8>) -> Seq<char>;

/// Relies on `FromIterator<char> for String`: collecting characters
/// yields the string of exactly those characters.
#[verifier::external_body]
pub fn chars_to_string(v: &Vec<char>) -> (r: String)
    ensures
        r@ == v@,
{
    v.iter().collect()
}

/// Relies on `str::chars`: iterating a string yields its characters.
#[verifier::external_body]
pub fn string_to_chars(s: &str) -> (r: Vec<char>)
    ensures
        r@ == s@,
{
    s.chars().collect()
}

/// Relies on `str::to_lowercase`: the result is a function of the
/// characters alone, and an empty string stays empty.
#[verifier::external_body]
pub fn str_lower(s: &str) -> (r: String)
    ensures
        r@ == lower_of(s@),
        s@.len() == 0 ==> r@.len() == 0,
{
    s.to_lowercase()
}

/// Relies on `str::to_uppercase`: the result is a function of the
/// characters alone, and an empty string stays empty.
#[verifier::external_body]
pub fn str_upper(s: &str) -> (r: String)
    ensures
        r@ == upper_of(s@),
        s@.len() == 0 ==> r@.len() == 0,
{
    s.to_uppercase()
}

/// Relies on `char::to_uppercase`: the uppercase mapping of one
/// character, one or more characters long.
#[verifier::external_body]
pub fn char_upper(c: char) -> (r: Vec<char>)
    ensures
        r@ == char_upper_of(c),
        r@.len() >= 1,
{
    c.to_uppercase().collect()
}

/// Relies on `char::to_lowercase`: the lowercase mapping of one
/// character, one or more characters long.
#[verifier::external_body]
pub fn char_lower(c: char) -> (r: Vec<char>)
    ensures
        r@ == char_lower_of(c),
        r@.len() >= 1,
{
    c.to_lowercase().collect()
}

/// Relies on `String::from_utf8_lossy`: well-formed UTF-8 decodes to
/// exactly its scalar values; ill-formed sequences are replaced.
#[verifier::external_body]
pub fn bytes_lossy(v: &Vec<u8>) -> (r: String)
    ensures
        r@ == lossy_of(v@),
        valid_utf8(v@) ==> r@ == decode_utf8(v@),
{
    String::from_utf8_lossy(v).into_owned()
}

/// The characters `str::trim` and `str::split_whitespace` cut on:
/// the Unicode `White_Space` property.
pub open spec fn is_ws_char(c: char) -> bool {
    let u = c as u32;
    u == 0x20 || (0x09 <= u <= 0x0D) || u == 0x85 || u == 0xA0 || u == 0x1680 || (0x2000 <= u
        <= 0x200A) || u == 0x2028 || u == 0x2029 || u == 0x202F || u == 0x205F || u == 0x3000
}

/// Exec twin of `is_ws_char`.
pub fn is_ws(c: char) -> (r: bool)
    ensures
        r == is_ws_char(c),
{
    let u = c as u32;
    u == 0x20 || (0x09 <= u && u <= 0x0D) || u == 0x85 || u == 0xA0 || u == 0x1680 || (0x2000 <= u
        && u <= 0x200A) || u == 0x2028 || u == 0x2029 || u == 0x202F || u == 0x205F || u == 0x3000
}

/// Index of the first non-whitespace character at or after `i`.
pub open spec fn skip_ws_spec(s: Seq<char>, i: int) -> int
    decreases s.len() - i,
{
    if 0 <= i < s.len() && is_ws_char(s[i]) {
        skip_ws_spec(s, i + 1)
    } else {
        i
    }
}

/// Index just past the last non-whitespace character before `j`.
pub open spec fn rskip_ws_spec(s: Seq<char>, j: int) -> int
    decreases j,
{
    if 0 < j <= s.len() && is_ws_char(s[j - 1]) {
        rskip_ws_spec(s, j - 1)
    } else {
        j
    }
}

/// `rskip_ws_spec` never moves past its bound.
pub proof fn lemma_rskip_ws_le(s: Seq<char>, j: int)
    ensures
        rskip_ws_spec(s, j) <= j,
    decreases j,
{
    if 0 < j <= s.len() && is_ws_char(s[j - 1]) {
        lemma_rskip_ws_le(s, j - 1);
    }
}

/// Trimmed span of `s`: what `str::trim` keeps.
pub open spec fn trim_spec(s: Seq<char>) -> Seq<char> {
    let a = skip_ws_spec(s, 0);
    let b = rskip_ws_spec(s, s.len() as int);
    if a <= b {
        s.subrange(a, b)
    } else {
        Seq::empty()
    }
}

} // verus!
