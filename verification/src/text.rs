use vstd::prelude::*;
use vstd::utf8::{decode_utf8, valid_utf8};

verus! {

/// Compares two string slices with `<str as PartialEq>::eq`. Claimed: the
/// result says whether the two hold the same characters.
#[verifier::external_body]
pub(crate) fn str_eq(a: &str, b: &str) -> (r: bool)
    ensures
        r == (a@ == b@),
{
    a == b
}

/// The Unicode `White_Space` property of a character, which
/// `char::is_whitespace` reports and `str::trim_end` removes: the 25 code
/// points U+0009 to U+000D, U+0020, U+0085, U+00A0, U+1680, U+2000 to
/// U+200A, U+2028, U+2029, U+202F, U+205F and U+3000.
pub open spec fn is_white_space(c: char) -> bool {
    let u = c as u32;
    ||| 0x09 <= u <= 0x0d
    ||| u == 0x20
    ||| u == 0x85
    ||| u == 0xa0
    ||| u == 0x1680
    ||| 0x2000 <= u <= 0x200a
    ||| u == 0x2028
    ||| u == 0x2029
    ||| u == 0x202f
    ||| u == 0x205f
    ||| u == 0x3000
}

/// A text with its trailing `White_Space` characters removed.
pub open spec fn trim_end_spec(s: Seq<char>) -> Seq<char>
    decreases s.len(),
{
    if s.len() > 0 && is_white_space(s.last()) {
        trim_end_spec(s.drop_last())
    } else {
        s
    }
}

/// Calls `str::trim_end`. Claimed: the result is the text without its
/// trailing `White_Space` characters.
#[verifier::external_body]
pub(crate) fn trim_end(s: &str) -> (r: &str)
    ensures
        r@ == trim_end_spec(s@),
        r@.len() > 0 ==> !is_white_space(r@.last()),
        r@ == s@.subrange(0, r@.len() as int),
        forall|i: int| r@.len() <= i < s@.len() ==> is_white_space(#[trigger] s@[i]),
{
    s.trim_end()
}

/// Calls `std::str::from_utf8`. Claimed: it succeeds exactly on valid UTF-8,
/// and then yields the characters that the bytes encode.
#[verifier::external_body]
pub(crate) fn utf8_str(bytes: &[u8]) -> (r: Option<&str>)
    ensures
        r is Some <==> valid_utf8(bytes@),
        r matches Some(s) ==> s@ == decode_utf8(bytes@),
{
    std::str::from_utf8(bytes).ok()
}

/// The text that a byte range holds: its UTF-8 decoding, or nothing when it
/// is not valid UTF-8.
pub open spec fn utf8_or_empty(bytes: Seq<u8>) -> Seq<char> {
    if valid_utf8(bytes) {
        decode_utf8(bytes)
    } else {
        Seq::empty()
    }
}

/// The text of `source[start..end]`, or the empty text when those bytes are
/// not valid UTF-8.
pub fn text_of_range(source: &[u8], start: usize, end: usize) -> (r: String)
    requires
        start <= end <= source@.len(),
    ensures
        r@ == utf8_or_empty(source@.subrange(start as int, end as int)),
{
    let bytes = vstd::slice::slice_subrange(source, start, end);
    match utf8_str(bytes) {
        Some(s) => s.to_owned(),
        None => String::new(),
    }
}

} // verus!
