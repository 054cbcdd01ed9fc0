//! Search backends: words of files, lists of symbols, paths, and tags.

pub mod ctags;
pub mod double;
pub mod file_words;
pub mod fuzzy;
pub mod laws;
pub mod list;
pub mod order;
pub mod paths;
pub mod pattern;
pub mod unicode;

use crate::handlers;
use crate::json;
use crate::json::{Json, Jv};
use crate::text;
use order::Ranked;
use vstd::prelude::*;
use vstd::utf8::*;

verus! {

/// How many bytes a text takes.
pub open spec fn bytes_of(s: Seq<char>) -> nat {
    encode_utf8(s).len()
}

/// How many bytes the text takes.
pub(crate) fn byte_len(s: &str) -> (r: usize)
    ensures
        r == bytes_of(s@),
{
    s.as_bytes().len()
}

/// A text that is ordered by its number of bytes: the shorter goes first.
#[derive(Debug)]
pub struct ByLength {
    pub text: String,
}

impl View for ByLength {
    type V = Seq<char>;

    open spec fn view(&self) -> Seq<char> {
        self.text@
    }
}

impl Ranked for ByLength {
    open spec fn before(a: Seq<char>, b: Seq<char>) -> bool {
        bytes_of(a) < bytes_of(b)
    }

    proof fn lemma_before(a: Seq<char>, b: Seq<char>, c: Seq<char>) {
    }

    fn precedes(&self, other: &Self) -> (r: bool) {
        byte_len(self.text.as_str()) < byte_len(other.text.as_str())
    }
}

/// The texts, the shorter first; those of the same length stay as they stand.
pub open spec fn by_length(s: Seq<Seq<char>>) -> Seq<Seq<char>> {
    order::sorted::<ByLength>(s)
}

/// Sort the texts by their number of bytes.
pub(crate) fn sort_by_length(v: Vec<String>) -> (r: Vec<String>)
    ensures
        text::texts(r@) == by_length(text::texts(v@)),
{
    let mut items: Vec<ByLength> = Vec::new();
    let mut i: usize = 0;
    while i < v.len()
        invariant
            i <= v@.len(),
            items@.len() == i,
            forall|j: int| 0 <= j < i ==> (#[trigger] items@[j])@ == v@[j]@,
        decreases v@.len() - i,
    {
        items.push(ByLength { text: v[i].clone() });
        i = i + 1;
    }
    let ghost all = text::texts(v@);
    assert(order::views(items@) =~= all);
    let places = order::order(&items);
    let mut r: Vec<String> = Vec::new();
    let mut k: usize = 0;
    while k < places.len()
        invariant
            all == text::texts(v@),
            k <= places@.len(),
            r@.len() == k,
            forall|j: int| 0 <= j < places@.len() ==> #[trigger] places@[j] < v@.len(),
            forall|j: int| 0 <= j < k ==> (#[trigger] r@[j])@ == all[places@[j] as int],
        decreases places@.len() - k,
    {
        r.push(v[places[k]].clone());
        k = k + 1;
    }
    assert(text::texts(r@) =~= by_length(all));
    r
}

/// A candidate for completion.
pub open spec fn candidate(
    key: Seq<char>,
    icon: Seq<char>,
    annotation: Seq<char>,
    backend: Seq<char>,
) -> Jv {
    handlers::obj(
        seq![
            ("key"@, Jv::Str(key)),
            ("icon"@, Jv::Str(icon)),
            ("label"@, Jv::Str(key)),
            ("displayLabel"@, Jv::Str(key)),
            ("annotation"@, Jv::Str(annotation)),
            ("backend"@, Jv::Str(backend)),
        ],
    )
}

/// A candidate for completion.
pub(crate) fn make_candidate(key: &str, icon: &str, annotation: &str, backend: &str) -> (r: Json)
    ensures
        r@ == candidate(key@, icon@, annotation@, backend@),
{
    let mut members: Vec<(String, Json)> = Vec::new();
    members.push(json::field("key", Json::str(key)));
    members.push(json::field("icon", Json::str(icon)));
    members.push(json::field("label", Json::str(key)));
    members.push(json::field("displayLabel", Json::str(key)));
    members.push(json::field("annotation", Json::str(annotation)));
    members.push(json::field("backend", Json::str(backend)));
    assert(json::entry_models(members@) =~= seq![
        ("key"@, Jv::Str(key@)),
        ("icon"@, Jv::Str(icon@)),
        ("label"@, Jv::Str(key@)),
        ("displayLabel"@, Jv::Str(key@)),
        ("annotation"@, Jv::Str(annotation@)),
        ("backend"@, Jv::Str(backend@)),
    ]);
    Json::from_members(members)
}

/// Whether a text starts with a prefix.
pub(crate) fn begins(s: &str, prefix: &str) -> (r: bool)
    ensures
        r == text::starts_with(s@, prefix@),
{
    let all = text::to_chars(s);
    let start = text::to_chars(prefix);
    text::has_prefix(all.as_slice(), start.as_slice())
}

/// The text without its dashes.
pub open spec fn without_dashes(s: Seq<char>) -> Seq<char> {
    s.filter(|c: char| c != '-')
}

/// The text without its dashes.
pub(crate) fn remove_dashes(s: &str) -> (r: String)
    ensures
        r@ == without_dashes(s@),
{
    let chars = text::to_chars(s);
    let ghost keep = |c: char| c != '-';
    let mut r = String::new();
    let mut i: usize = 0;
    assert(s@.take(0).filter(keep) =~= Seq::<char>::empty()) by {
        reveal(Seq::filter);
    }
    while i < chars.len()
        invariant
            chars@ == s@,
            keep == (|c: char| c != '-'),
            i <= chars@.len(),
            r@ == s@.take(i as int).filter(keep),
        decreases chars@.len() - i,
    {
        proof {
            let next = s@.take(i + 1);
            assert(next.drop_last() =~= s@.take(i as int));
            assert(next.last() == chars@[i as int]);
            reveal(Seq::filter);
        }
        if chars[i] != '-' {
            r.push(chars[i]);
        }
        i = i + 1;
    }
    assert(s@.take(i as int) =~= s@);
    r
}

} // verus!
