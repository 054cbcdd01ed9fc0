//! File path search backend: the entries of a directory that match a prefix.

use crate::json;
use crate::json::{Json, Jv};
use crate::search;
use crate::search::order;
use crate::search::order::Ranked;
use crate::search::unicode;
use crate::text;
use std::cmp::Ordering;
use vstd::prelude::*;

verus! {

/// Maximum number of path candidates.
pub const MAX_NUMBER: usize = 300;

/// An entry of a directory.
#[derive(Debug)]
pub struct PathEntry {
    pub name: String,
    pub is_dir: bool,
}

impl View for PathEntry {
    type V = (Seq<char>, bool);

    open spec fn view(&self) -> (Seq<char>, bool) {
        (self.name@, self.is_dir)
    }
}

/// Whether a symbol matches a prefix: it starts with it, with or without its dashes, or holds it.
pub open spec fn symbol_matches(prefix: Seq<char>, symbol: Seq<char>) -> bool {
    ||| text::starts_with(symbol, prefix)
    ||| text::starts_with(search::without_dashes(symbol), prefix)
    ||| text::occurs(symbol, prefix)
}

/// Match a symbol against a prefix.
pub fn match_symbol(prefix: &str, symbol: &str) -> (r: bool)
    ensures
        r == symbol_matches(prefix@, symbol@),
{
    if search::begins(symbol, prefix) {
        return true;
    }
    let bare = search::remove_dashes(symbol);
    if search::begins(bare.as_str(), prefix) {
        return true;
    }
    let all = text::to_chars(symbol);
    let part = text::to_chars(prefix);
    text::contains(all.as_slice(), part.as_slice())
}

/// The first entries that match a prefix in any case, at most so many as the limit says.
pub open spec fn first_matches(prefix: Seq<char>, entries: Seq<(Seq<char>, bool)>) -> Seq<
    (Seq<char>, bool),
>
    decreases entries.len(),
{
    if entries.len() == 0 {
        Seq::empty()
    } else {
        let before = first_matches(prefix, entries.drop_last());
        let entry = entries.last();
        if before.len() < MAX_NUMBER && symbol_matches(
            unicode::lowercase(prefix),
            unicode::lowercase(entry.0),
        ) {
            before.push(entry)
        } else {
            before
        }
    }
}

/// What the order of two entries depends on: whether each starts with the prefix, whether it is a
/// directory, and its name.
pub open spec fn file_order(a: (bool, bool, Seq<char>), b: (bool, bool, Seq<char>)) -> Ordering {
    if a.0 && !b.0 {
        Ordering::Less
    } else if !a.0 && b.0 {
        Ordering::Greater
    } else if a.1 && !b.1 {
        Ordering::Less
    } else if !a.1 && b.1 {
        Ordering::Greater
    } else if text::less(a.2, b.2) {
        Ordering::Less
    } else if a.2 == b.2 {
        Ordering::Equal
    } else {
        Ordering::Greater
    }
}

fn order_of(a: (bool, bool, &str), b: (bool, bool, &str)) -> (r: Ordering)
    ensures
        r == file_order((a.0, a.1, a.2@), (b.0, b.1, b.2@)),
{
    if a.0 && !b.0 {
        return Ordering::Less;
    }
    if !a.0 && b.0 {
        return Ordering::Greater;
    }
    if a.1 && !b.1 {
        return Ordering::Less;
    }
    if !a.1 && b.1 {
        return Ordering::Greater;
    }
    if text::str_less(a.2, b.2) {
        Ordering::Less
    } else if text::str_eq(a.2, b.2) {
        Ordering::Equal
    } else {
        Ordering::Greater
    }
}

/// The text that a value holds under a key; empty where there is none.
pub open spec fn key_of(v: Jv) -> Seq<char> {
    crate::handlers::member_text(v, "key"@)
}

/// Whether a candidate is a directory.
pub open spec fn is_dir(v: Jv) -> bool {
    json::member(v, "icon"@) == Some(Jv::Str("dir"@))
}

/// What the order of a candidate depends on.
pub open spec fn sort_key(prefix: Seq<char>, v: Jv) -> (bool, bool, Seq<char>) {
    (text::starts_with(key_of(v), prefix), is_dir(v), key_of(v))
}

fn check_dir(v: &Json) -> (r: bool)
    ensures
        r == is_dir(v@),
{
    match v.get("icon") {
        Some(icon) => match icon.as_str() {
            Some(s) => text::str_eq(s, "dir"),
            None => false,
        },
        None => false,
    }
}

/// Sort files: prefix matches first, dirs before files, then alphabetical.
pub fn sort_files(prefix: &str, a: &Json, b: &Json) -> (r: Ordering)
    ensures
        r == file_order(sort_key(prefix@, a@), sort_key(prefix@, b@)),
{
    let a_key = crate::handlers::get_text(a, "key");
    let b_key = crate::handlers::get_text(b, "key");
    let a_starts = search::begins(a_key.as_str(), prefix);
    let b_starts = search::begins(b_key.as_str(), prefix);
    order_of((a_starts, check_dir(a), a_key.as_str()), (b_starts, check_dir(b), b_key.as_str()))
}

/// An entry that was found, and whether it starts with the prefix.
#[derive(Debug)]
pub struct FoundPath {
    pub starts: bool,
    pub is_dir: bool,
    pub name: String,
}

impl View for FoundPath {
    type V = (bool, bool, Seq<char>);

    open spec fn view(&self) -> (bool, bool, Seq<char>) {
        (self.starts, self.is_dir, self.name@)
    }
}

impl Ranked for FoundPath {
    open spec fn before(a: (bool, bool, Seq<char>), b: (bool, bool, Seq<char>)) -> bool {
        file_order(a, b) == Ordering::Less
    }

    proof fn lemma_before(
        a: (bool, bool, Seq<char>),
        b: (bool, bool, Seq<char>),
        c: (bool, bool, Seq<char>),
    ) {
        broadcast use text::less_transitive;

        text::lemma_less_irreflexive(a.2);
        text::lemma_less_total(a.2, b.2);
        text::lemma_less_total(b.2, c.2);
        text::lemma_less_total(a.2, c.2);
    }

    fn precedes(&self, other: &Self) -> (r: bool) {
        match order_of(
            (self.starts, self.is_dir, self.name.as_str()),
            (other.starts, other.is_dir, other.name.as_str()),
        ) {
            Ordering::Less => true,
            _ => false,
        }
    }
}

/// What the order of the entries depends on.
pub open spec fn marked(prefix: Seq<char>, entries: Seq<(Seq<char>, bool)>) -> Seq<
    (bool, bool, Seq<char>),
> {
    Seq::new(
        entries.len(),
        |i: int| (text::starts_with(entries[i].0, prefix), entries[i].1, entries[i].0),
    )
}

/// The candidate for a path.
pub open spec fn path_candidate(name: Seq<char>, dir: bool) -> Jv {
    if dir {
        search::candidate(name, "dir"@, "DIR"@, "path"@)
    } else {
        search::candidate(name, "file"@, "FILE"@, "path"@)
    }
}

/// The candidates in order.
pub open spec fn path_candidates(prefix: Seq<char>, entries: Seq<(Seq<char>, bool)>) -> Seq<Jv> {
    let found = order::sorted::<FoundPath>(marked(prefix, first_matches(prefix, entries)));
    Seq::new(found.len(), |i: int| path_candidate(found[i].2, found[i].1))
}

/// Search for files/dirs among the entries of a directory, matching a prefix.
///
/// Returns candidates sorted: prefix matches first, dirs before files, then alphabetical.
pub fn search_paths(entries: &Vec<PathEntry>, prefix: &str) -> (r: Vec<Json>)
    ensures
        json::models(r@) == path_candidates(prefix@, order::views(entries@)),
{
    let ghost all = order::views(entries@);
    let prefix_lower = unicode::to_lowercase(prefix);
    let mut found: Vec<FoundPath> = Vec::new();
    let mut i: usize = 0;
    assert(all.take(0) =~= Seq::<(Seq<char>, bool)>::empty());
    while i < entries.len() && found.len() < MAX_NUMBER
        invariant
            all == order::views(entries@),
            prefix_lower@ == unicode::lowercase(prefix@),
            i <= entries@.len(),
            order::views(found@) == marked(prefix@, first_matches(prefix@, all.take(i as int))),
        decreases entries@.len() - i,
    {
        proof {
            assert(all.take(i + 1).drop_last() =~= all.take(i as int));
            assert(all.take(i + 1).last() == all[i as int]);
        }
        let name = entries[i].name.as_str();
        let name_lower = unicode::to_lowercase(name);
        if match_symbol(prefix_lower.as_str(), name_lower.as_str()) {
            let ghost before = order::views(found@);
            let ghost first = first_matches(prefix@, all.take(i as int));
            assert(before.len() == first.len());
            assert(first_matches(prefix@, all.take(i + 1)) == first.push(all[i as int]));
            let starts = search::begins(name, prefix);
            found.push(FoundPath { starts, is_dir: entries[i].is_dir, name: name.to_string() });
            let ghost entry = all[i as int];
            let ghost mark = (starts, entry.1, entry.0);
            assert(order::views(found@) =~= before.push(mark));
            assert(marked(prefix@, first.push(entry)) =~= marked(prefix@, first).push(mark));
        }
        i = i + 1;
    }
    proof {
        lemma_full(prefix@, all, i as int);
        assert(all.take(all.len() as int) =~= all);
    }
    let places = order::order(&found);
    let ghost s = order::views(found@);
    let ghost out = path_candidates(prefix@, all);
    let mut r: Vec<Json> = Vec::new();
    let mut k: usize = 0;
    while k < places.len()
        invariant
            s == order::views(found@),
            out.len() == places@.len(),
            k <= places@.len(),
            r@.len() == k,
            forall|j: int| 0 <= j < places@.len() ==> #[trigger] places@[j] < found@.len(),
            forall|j: int|
                0 <= j < places@.len() ==> out[j] == path_candidate(
                    s[#[trigger] places@[j] as int].2,
                    s[places@[j] as int].1,
                ),
            forall|j: int| 0 <= j < k ==> (#[trigger] r@[j])@ == out[j],
        decreases places@.len() - k,
    {
        let item = &found[places[k]];
        let name = item.name.as_str();
        let c = if item.is_dir {
            search::make_candidate(name, "dir", "DIR", "path")
        } else {
            search::make_candidate(name, "file", "FILE", "path")
        };
        r.push(c);
        k = k + 1;
    }
    assert(json::models(r@) =~= out);
    r
}

/// Once the limit is reached, further entries change nothing.
proof fn lemma_full(prefix: Seq<char>, entries: Seq<(Seq<char>, bool)>, i: int)
    requires
        0 <= i <= entries.len(),
        i < entries.len() ==> first_matches(prefix, entries.take(i)).len() >= MAX_NUMBER,
    ensures
        first_matches(prefix, entries.take(entries.len() as int)) == first_matches(
            prefix,
            entries.take(i),
        ),
    decreases entries.len() - i,
{
    if i < entries.len() {
        assert(entries.take(i + 1).drop_last() =~= entries.take(i));
        lemma_full(prefix, entries, i + 1);
    }
}

/// The order in which the candidates come back is the one in which they are compared: none goes
/// before one that stands in front of it.
pub proof fn law_candidates_in_order(
    prefix: Seq<char>,
    entries: Seq<(Seq<char>, bool)>,
    k: int,
    l: int,
)
    requires
        0 <= k < l < path_candidates(prefix, entries).len(),
    ensures
        file_order(
            sort_key(prefix, path_candidates(prefix, entries)[l]),
            sort_key(prefix, path_candidates(prefix, entries)[k]),
        ) != Ordering::Less,
{
    let all = marked(prefix, first_matches(prefix, entries));
    let i = order::law_sorted_from::<FoundPath>(all, k);
    let j = order::law_sorted_from::<FoundPath>(all, l);
    order::law_sorted_in_order::<FoundPath>(all, k, l);
    lemma_sort_key(prefix, all[i].2, all[i].1);
    lemma_sort_key(prefix, all[j].2, all[j].1);
}

proof fn lemma_sort_key(prefix: Seq<char>, name: Seq<char>, dir: bool)
    ensures
        sort_key(prefix, path_candidate(name, dir)) == (
            text::starts_with(name, prefix),
            dir,
            name,
        ),
{
    reveal_strlit("key");
    reveal_strlit("icon");
    reveal_strlit("label");
    reveal_strlit("displayLabel");
    reveal_strlit("annotation");
    reveal_strlit("backend");
    reveal_strlit("dir");
    reveal_strlit("file");
    let (icon, annotation) = if dir {
        ("dir"@, "DIR"@)
    } else {
        ("file"@, "FILE"@)
    };
    let members = seq![
        ("key"@, Jv::Str(name)),
        ("icon"@, Jv::Str(icon)),
        ("label"@, Jv::Str(name)),
        ("displayLabel"@, Jv::Str(name)),
        ("annotation"@, Jv::Str(annotation)),
        ("backend"@, Jv::Str("path"@)),
    ];
    assert(json::distinct_keys(members)) by {
        assert("key"@.len() == 3 && "icon"@.len() == 4 && "label"@.len() == 5
            && "displayLabel"@.len() == 12 && "annotation"@.len() == 10 && "backend"@.len() == 7);
    }
    crate::jsonrpc::lemma_object_member(members, 0);
    crate::jsonrpc::lemma_object_member(members, 1);
    assert("dir"@.len() == 3 && "file"@.len() == 4);
}

/// A search finds no more candidates than the limit says.
pub proof fn law_candidates_bounded(prefix: Seq<char>, entries: Seq<(Seq<char>, bool)>)
    ensures
        path_candidates(prefix, entries).len() <= MAX_NUMBER,
{
    lemma_first_matches(prefix, entries);
}

proof fn lemma_first_matches(prefix: Seq<char>, entries: Seq<(Seq<char>, bool)>)
    ensures
        first_matches(prefix, entries).len() <= MAX_NUMBER,
    decreases entries.len(),
{
    if entries.len() > 0 {
        lemma_first_matches(prefix, entries.drop_last());
    }
}

} // verus!
