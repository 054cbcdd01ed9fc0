//! Regular expressions, as the `regex` crate has them.

use crate::text;
use vstd::prelude::*;

verus! {

/// What `regex::Regex::find_iter` finds: the matches of the pattern in the text, from left to
/// right; nothing if `regex::Regex::new` does not take the pattern.
pub uninterp spec fn regex_finds(pattern: Seq<char>, s: Seq<char>) -> Option<Seq<Seq<char>>>;

/// What `regex::Regex::is_match` returns: whether the pattern matches somewhere in the text;
/// nothing if `regex::Regex::new` does not take the pattern.
pub uninterp spec fn regex_matches(pattern: Seq<char>, s: Seq<char>) -> Option<bool>;

/// What `regex::Regex::replace_all` returns: the text with the matches of the pattern replaced;
/// nothing if `regex::Regex::new` does not take the pattern.
pub uninterp spec fn regex_replaced(
    pattern: Seq<char>,
    s: Seq<char>,
    replacement: Seq<char>,
) -> Option<Seq<char>>;

/// `regex::Regex::find_iter` on the regex of the pattern: a function of the pattern and the text.
#[verifier::external_body]
pub(crate) fn find_all(pattern: &str, s: &str) -> (r: Option<Vec<String>>)
    ensures
        match regex_finds(pattern@, s@) {
            Some(found) => r is Some && text::texts((r->0)@) == found,
            None => r is None,
        },
{
    let re = regex::Regex::new(pattern).ok()?;
    Some(re.find_iter(s).map(|m| m.as_str().to_string()).collect())
}

/// `regex::Regex::is_match` on the regex of the pattern, for each of the texts: a function of the
/// pattern and the text. A pattern that is not taken is taken for no text.
#[verifier::external_body]
pub(crate) fn match_each(pattern: &str, texts: &Vec<String>) -> (r: Option<Vec<bool>>)
    ensures
        match r {
            Some(found) => found@.len() == texts@.len() && forall|i: int|
                0 <= i < texts@.len() ==> regex_matches(pattern@, (#[trigger] texts@[i])@) == Some(
                    found@[i],
                ),
            None => forall|s: Seq<char>| #[trigger] regex_matches(pattern@, s) is None,
        },
{
    let re = regex::Regex::new(pattern).ok()?;
    Some(texts.iter().map(|s| re.is_match(s)).collect())
}

/// `regex::Regex::replace_all` on the regex of the pattern: a function of the pattern, the text
/// and the replacement.
#[verifier::external_body]
pub(crate) fn replace_all(pattern: &str, s: &str, replacement: &str) -> (r: Option<String>)
    ensures
        match regex_replaced(pattern@, s@, replacement@) {
            Some(replaced) => r is Some && (r->0)@ == replaced,
            None => r is None,
        },
{
    let re = regex::Regex::new(pattern).ok()?;
    Some(re.replace_all(s, replacement).to_string())
}

/// The characters that stand for something else in a regular expression.
pub open spec fn is_meta(c: char) -> bool {
    ||| c == '\\'
    ||| c == '.'
    ||| c == '+'
    ||| c == '*'
    ||| c == '?'
    ||| c == '('
    ||| c == ')'
    ||| c == '|'
    ||| c == '['
    ||| c == ']'
    ||| c == '{'
    ||| c == '}'
    ||| c == '^'
    ||| c == '$'
    ||| c == '#'
    ||| c == '&'
    ||| c == '-'
    ||| c == '~'
}

/// The text with a backslash in front of each meta character.
pub open spec fn escaped(s: Seq<char>) -> Seq<char>
    decreases s.len(),
{
    if s.len() == 0 {
        s
    } else if is_meta(s.last()) {
        escaped(s.drop_last()) + seq!['\\', s.last()]
    } else {
        escaped(s.drop_last()).push(s.last())
    }
}

/// `regex::escape`: the text with a backslash in front of each meta character.
#[verifier::external_body]
pub(crate) fn escape(s: &str) -> (r: String)
    ensures
        r@ == escaped(s@),
{
    regex::escape(s)
}

} // verus!
