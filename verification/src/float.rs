//! Floating-point numbers, which are held as the numerals that stand for them.
//!
//! The float itself stands between the two calls that each function here makes: one reads it from
//! the numeral, the other writes it.

use serde_json::Number;
use vstd::prelude::*;

verus! {

/// What `Display` writes of the finite float that a numeral is read as; nothing if it is read as
/// none.
pub uninterp spec fn display_text(s: Seq<char>) -> Option<Seq<char>>;

/// What `Debug` writes of the finite float that a numeral is read as; nothing if it is read as
/// none.
pub uninterp spec fn debug_text(s: Seq<char>) -> Option<Seq<char>>;

/// What `serde_json::Number` writes of the finite float that a numeral is read as; nothing if it
/// is read as none.
pub uninterp spec fn number_text(s: Seq<char>) -> Option<Seq<char>>;

/// Whether the text is there and is the one that is meant.
pub open spec fn is_text(r: Option<String>, expected: Option<Seq<char>>) -> bool {
    match expected {
        Some(t) => r is Some && (r->0)@ == t,
        None => r is None,
    }
}

/// `Display` of the finite float that `str::parse` reads: a function of the numeral, which is
/// named, not described.
#[verifier::external_body]
pub(crate) fn display(s: &str) -> (r: Option<String>)
    ensures
        is_text(r, display_text(s@)),
{
    Number::from_f64(s.parse().ok()?)?.as_f64().map(|f| f.to_string())
}

/// `Debug` of the finite float that `str::parse` reads: a function of the numeral, which is
/// named, not described.
#[verifier::external_body]
pub(crate) fn debug(s: &str) -> (r: Option<String>)
    ensures
        is_text(r, debug_text(s@)),
{
    Number::from_f64(s.parse().ok()?)?.as_f64().map(|f| format!("{:?}", f))
}

/// `Display` of the `serde_json::Number` that `Number::from_f64` makes of the float that
/// `str::parse` reads; it makes one of a finite float only. A function of the numeral, which is
/// named, not described.
#[verifier::external_body]
pub(crate) fn number(s: &str) -> (r: Option<String>)
    ensures
        is_text(r, number_text(s@)),
{
    Number::from_f64(s.parse().ok()?).map(|n| n.to_string())
}

} // verus!
