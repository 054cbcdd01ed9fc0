//! Case and kinds of characters beyond ASCII, as the standard library has them.

use crate::text;
use vstd::prelude::*;

verus! {

/// Whether every character is an ASCII one.
pub open spec fn is_ascii(s: Seq<char>) -> bool {
    forall|i: int| 0 <= i < s.len() ==> (#[trigger] s[i] as u32) < 128
}

/// An ASCII small letter as its capital; any other character as it is.
pub open spec fn upper_char(c: char) -> char {
    if 'a' <= c && c <= 'z' {
        (c as u32 - 32) as char
    } else {
        c
    }
}

/// The text with its ASCII small letters as capitals.
pub open spec fn raised(s: Seq<char>) -> Seq<char> {
    s.map_values(|c: char| upper_char(c))
}

/// What `str::to_lowercase` returns.
pub uninterp spec fn lowercase(s: Seq<char>) -> Seq<char>;

/// What `str::to_uppercase` returns.
pub uninterp spec fn uppercase(s: Seq<char>) -> Seq<char>;

/// What `char::is_uppercase` returns.
pub uninterp spec fn uppercase_letter(c: char) -> bool;

/// What `char::is_alphanumeric` returns.
pub uninterp spec fn letter_or_number(c: char) -> bool;

/// `str::to_lowercase`: a function of the text; of an ASCII text, its capitals as small letters.
#[verifier::external_body]
pub(crate) fn to_lowercase(s: &str) -> (r: String)
    ensures
        r@ == lowercase(s@),
        is_ascii(s@) ==> r@ == text::lowered(s@),
{
    s.to_lowercase()
}

/// `str::to_uppercase`: a function of the text; of an ASCII text, its small letters as capitals.
#[verifier::external_body]
pub(crate) fn to_uppercase(s: &str) -> (r: String)
    ensures
        r@ == uppercase(s@),
        is_ascii(s@) ==> r@ == raised(s@),
{
    s.to_uppercase()
}

/// `char::is_uppercase`: a function of the character; of ASCII characters, those from `A` to `Z`.
#[verifier::external_body]
pub(crate) fn is_uppercase(c: char) -> (r: bool)
    ensures
        r == uppercase_letter(c),
        (c as u32) < 128 ==> r == ('A' <= c && c <= 'Z'),
{
    c.is_uppercase()
}

/// `char::is_alphanumeric`: a function of the character; of ASCII characters, the letters and the
/// digits.
#[verifier::external_body]
pub(crate) fn is_alphanumeric(c: char) -> (r: bool)
    ensures
        r == letter_or_number(c),
        (c as u32) < 128 ==> r == (('A' <= c && c <= 'Z') || ('a' <= c && c <= 'z') || ('0' <= c
            && c <= '9')),
{
    c.is_alphanumeric()
}

} // verus!
