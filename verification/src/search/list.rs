//! Generic symbol list search backend: lists of symbols that can be replaced, searched by prefix
//! or by their characters in order.

use crate::search;
use crate::search::order;
use crate::search::order::Ranked;
use crate::search::pattern;
use crate::search::unicode;
use crate::table;
use crate::table::Table;
use crate::text;
use vstd::prelude::*;

verus! {

/// The symbols of one backend, the shorter first, and how many of them a search may find.
#[derive(Debug)]
pub struct BackendData {
    pub symbols: Vec<String>,
    pub max_number: usize,
}

/// The mathematical value of a [`BackendData`].
pub struct Backend {
    pub symbols: Seq<Seq<char>>,
    pub max_number: nat,
}

impl View for BackendData {
    type V = Backend;

    open spec fn view(&self) -> Backend {
        Backend { symbols: text::texts(self.symbols@), max_number: self.max_number as nat }
    }
}

/// A search list backend that holds symbol lists per named backend.
pub struct SearchList {
    pub backends: Table<BackendData>,
}

/// Whether a character of the prefix is looked for.
pub open spec fn is_searched(c: char) -> bool {
    unicode::letter_or_number(c) || c == '-' || c == '_'
}

/// The pattern that the characters lead to: each of them, with anything behind it.
pub open spec fn spread(s: Seq<char>) -> Seq<char>
    decreases s.len(),
{
    if s.len() == 0 {
        Seq::empty()
    } else if is_searched(s.last()) {
        spread(s.drop_last()) + seq![s.last(), '.', '*']
    } else {
        spread(s.drop_last())
    }
}

/// The pattern for a prefix, which matches from the start of a symbol.
pub open spec fn fuzzy_pattern(prefix: Seq<char>) -> Seq<char> {
    seq!['^'] + spread(pattern::escaped(prefix))
}

/// Whether a symbol matches a prefix: it starts with it, with or without its dashes, or the
/// pattern of the prefix matches it from its start.
pub open spec fn symbol_matches(prefix: Seq<char>, fuzzy: Option<bool>, symbol: Seq<char>) -> bool {
    ||| text::starts_with(symbol, prefix)
    ||| text::starts_with(search::without_dashes(symbol), prefix)
    ||| fuzzy == Some(true)
}

/// Whether a search for the prefix may find the symbol.
pub open spec fn is_match(prefix: Seq<char>, symbol: Seq<char>) -> bool {
    symbol_matches(prefix, pattern::regex_matches(fuzzy_pattern(prefix), symbol), symbol)
}

/// The first symbols that match a prefix, at most so many.
pub open spec fn first_matches(prefix: Seq<char>, symbols: Seq<Seq<char>>, max_number: nat) -> Seq<
    Seq<char>,
>
    decreases symbols.len(),
{
    if symbols.len() == 0 {
        Seq::empty()
    } else {
        let before = first_matches(prefix, symbols.drop_last(), max_number);
        let symbol = symbols.last();
        if before.len() < max_number && is_match(prefix, symbol) {
            before.push(symbol)
        } else {
            before
        }
    }
}

/// A symbol that was found, and whether it starts with the prefix.
#[derive(Debug)]
pub struct FoundSymbol {
    pub symbol: String,
    pub starts: bool,
}

impl View for FoundSymbol {
    type V = (Seq<char>, bool);

    open spec fn view(&self) -> (Seq<char>, bool) {
        (self.symbol@, self.starts)
    }
}

impl Ranked for FoundSymbol {
    open spec fn before(a: (Seq<char>, bool), b: (Seq<char>, bool)) -> bool {
        (a.1 && !b.1) || (a.1 == b.1 && search::bytes_of(a.0) < search::bytes_of(b.0))
    }

    proof fn lemma_before(a: (Seq<char>, bool), b: (Seq<char>, bool), c: (Seq<char>, bool)) {
    }

    fn precedes(&self, other: &Self) -> (r: bool) {
        (self.starts && !other.starts) || (self.starts == other.starts && search::byte_len(
            self.symbol.as_str(),
        ) < search::byte_len(other.symbol.as_str()))
    }
}

/// The symbols, each with whether it starts with the prefix.
pub open spec fn marked(prefix: Seq<char>, symbols: Seq<Seq<char>>) -> Seq<(Seq<char>, bool)> {
    Seq::new(symbols.len(), |i: int| (symbols[i], text::starts_with(symbols[i], prefix)))
}

/// The symbols alone.
pub open spec fn symbols_alone(s: Seq<(Seq<char>, bool)>) -> Seq<Seq<char>> {
    Seq::new(s.len(), |i: int| s[i].0)
}

/// What a backend finds for a prefix: of the first symbols that match it, those that start with it
/// first, and the shorter before the longer.
pub open spec fn found(backend: Backend, prefix: Seq<char>) -> Seq<Seq<char>> {
    let first = first_matches(prefix, backend.symbols, backend.max_number);
    symbols_alone(order::sorted::<FoundSymbol>(marked(prefix, first)))
}

fn make_pattern(prefix: &str) -> (r: String)
    ensures
        r@ == fuzzy_pattern(prefix@),
{
    let escaped = pattern::escape(prefix);
    let chars = text::to_chars(escaped.as_str());
    let mut r = String::new();
    r.push('^');
    let mut i: usize = 0;
    assert(chars@.take(0) =~= Seq::<char>::empty());
    assert(r@ =~= seq!['^'] + spread(chars@.take(0)));
    while i < chars.len()
        invariant
            i <= chars@.len(),
            r@ == seq!['^'] + spread(chars@.take(i as int)),
        decreases chars@.len() - i,
    {
        let c = chars[i];
        proof {
            assert(chars@.take(i + 1).drop_last() =~= chars@.take(i as int));
            assert(chars@.take(i + 1).last() == c);
        }
        if unicode::is_alphanumeric(c) || c == '-' || c == '_' {
            let ghost before = r@;
            r.push(c);
            r.push('.');
            r.push('*');
            assert(r@ =~= before + seq![c, '.', '*']);
            assert(r@ =~= seq!['^'] + spread(chars@.take(i + 1)));
        }
        i = i + 1;
    }
    assert(chars@.take(i as int) =~= chars@);
    r
}

/// Match a symbol against a prefix using multiple strategies.
pub fn match_symbol(prefix: &str, fuzzy: Option<bool>, symbol: &str) -> (r: bool)
    ensures
        r == symbol_matches(prefix@, fuzzy, symbol@),
{
    if search::begins(symbol, prefix) {
        return true;
    }
    let bare = search::remove_dashes(symbol);
    if search::begins(bare.as_str(), prefix) {
        return true;
    }
    match fuzzy {
        Some(matched) => matched,
        None => false,
    }
}

/// The symbols, those that start with the prefix first, and the shorter before the longer.
pub fn rank_symbols(prefix: &str, symbols: Vec<String>) -> (r: Vec<String>)
    ensures
        text::texts(r@) == symbols_alone(
            order::sorted::<FoundSymbol>(marked(prefix@, text::texts(symbols@))),
        ),
{
    let ghost all = text::texts(symbols@);
    let mut items: Vec<FoundSymbol> = Vec::new();
    let mut i: usize = 0;
    while i < symbols.len()
        invariant
            all == text::texts(symbols@),
            i <= symbols@.len(),
            items@.len() == i,
            forall|j: int| 0 <= j < i ==> (#[trigger] items@[j])@ == marked(prefix@, all)[j],
        decreases symbols@.len() - i,
    {
        let starts = search::begins(symbols[i].as_str(), prefix);
        items.push(FoundSymbol { symbol: symbols[i].clone(), starts });
        i = i + 1;
    }
    let ghost s = marked(prefix@, all);
    assert(order::views(items@) =~= s);
    let places = order::order(&items);
    let mut r: Vec<String> = Vec::new();
    let mut k: usize = 0;
    while k < places.len()
        invariant
            s == order::views(items@),
            k <= places@.len(),
            r@.len() == k,
            forall|j: int| 0 <= j < places@.len() ==> #[trigger] places@[j] < items@.len(),
            forall|j: int| 0 <= j < k ==> (#[trigger] r@[j])@ == s[places@[j] as int].0,
        decreases places@.len() - k,
    {
        r.push(items[places[k]].symbol.clone());
        k = k + 1;
    }
    assert(text::texts(r@) =~= symbols_alone(order::sorted::<FoundSymbol>(s)));
    r
}

impl SearchList {
    pub fn new() -> (r: Self)
        ensures
            r.backends@ == Seq::<(Seq<char>, Backend)>::empty(),
    {
        SearchList { backends: Table::new() }
    }

    /// Update the symbol list for a backend.
    pub fn update(&mut self, backend_name: &str, symbols: Vec<String>, max_number: usize)
        ensures
            final(self).backends@ == table::put(
                old(self).backends@,
                backend_name@,
                Backend {
                    symbols: search::by_length(text::texts(symbols@)),
                    max_number: max_number as nat,
                },
            ),
    {
        let sorted = search::sort_by_length(symbols);
        self.backends.insert(
            backend_name.to_string(),
            BackendData { symbols: sorted, max_number },
        );
    }

    /// Search for symbols matching prefix in the given backend.
    pub fn search(&self, backend_name: &str, prefix: &str) -> (r: Vec<String>)
        ensures
            text::texts(r@) == (match table::lookup(self.backends@, backend_name@) {
                Some(backend) => found(backend, prefix@),
                None => Seq::empty(),
            }),
    {
        let data = match self.backends.get(backend_name) {
            Some(d) => d,
            None => {
                let r: Vec<String> = Vec::new();
                assert(text::texts(r@) =~= Seq::<Seq<char>>::empty());
                return r;
            },
        };
        let fuzzy = make_pattern(prefix);
        let matched = pattern::match_each(fuzzy.as_str(), &data.symbols);
        let ghost all = text::texts(data.symbols@);
        let ghost max = data.max_number as nat;
        let mut first: Vec<String> = Vec::new();
        let mut i: usize = 0;
        assert(all.take(0) =~= Seq::<Seq<char>>::empty());
        assert(text::texts(first@) =~= Seq::<Seq<char>>::empty());
        while i < data.symbols.len()
            invariant
                all == text::texts(data.symbols@),
                max == data.max_number,
                fuzzy@ == fuzzy_pattern(prefix@),
                match matched {
                    Some(found) => found@.len() == data.symbols@.len() && forall|i: int|
                        0 <= i < data.symbols@.len() ==> pattern::regex_matches(
                            fuzzy@,
                            (#[trigger] data.symbols@[i])@,
                        ) == Some(found@[i]),
                    None => forall|s: Seq<char>| #[trigger]
                        pattern::regex_matches(fuzzy@, s) is None,
                },
                i <= data.symbols@.len(),
                text::texts(first@) == first_matches(prefix@, all.take(i as int), max),
            decreases data.symbols@.len() - i,
        {
            let symbol = data.symbols[i].as_str();
            proof {
                assert(all.take(i + 1).drop_last() =~= all.take(i as int));
                assert(all.take(i + 1).last() == all[i as int]);
                assert(data.symbols@[i as int]@ == symbol@);
            }
            let hit: Option<bool> = match &matched {
                Some(found) => Some(found[i]),
                None => None,
            };
            if first.len() < data.max_number && match_symbol(prefix, hit, symbol) {
                let ghost before = text::texts(first@);
                first.push(symbol.to_string());
                assert(text::texts(first@) =~= before.push(symbol@));
            }
            i = i + 1;
        }
        assert(all.take(i as int) =~= all);
        rank_symbols(prefix, first)
    }
}

impl Default for SearchList {
    fn default() -> (r: Self)
        ensures
            r.backends@ == Seq::<(Seq<char>, Backend)>::empty(),
    {
        SearchList::new()
    }
}

/// The symbols that match a prefix.
pub open spec fn matching(prefix: Seq<char>, symbols: Seq<Seq<char>>) -> Seq<Seq<char>> {
    symbols.filter(|s: Seq<char>| is_match(prefix, s))
}

/// The first matches are the first of those that match.
proof fn lemma_first_matches(prefix: Seq<char>, symbols: Seq<Seq<char>>, max_number: nat)
    ensures
        ({
            let all = matching(prefix, symbols);
            first_matches(prefix, symbols, max_number) == all.take(
                if all.len() < max_number {
                    all.len() as int
                } else {
                    max_number as int
                },
            )
        }),
    decreases symbols.len(),
{
    reveal(Seq::filter);
    let all = matching(prefix, symbols);
    let first = first_matches(prefix, symbols, max_number);
    if symbols.len() > 0 {
        lemma_first_matches(prefix, symbols.drop_last(), max_number);
        let before = matching(prefix, symbols.drop_last());
        if is_match(prefix, symbols.last()) {
            assert(all == before.push(symbols.last()));
        } else {
            assert(all == before);
        }
    }
    if all.len() < max_number {
        assert(first =~= all.take(all.len() as int));
    } else {
        assert(first =~= all.take(max_number as int));
    }
}

/// How often a symbol matches: as often as it stands there, or never.
proof fn lemma_matching_count(prefix: Seq<char>, symbols: Seq<Seq<char>>, x: Seq<char>)
    ensures
        matching(prefix, symbols).to_multiset().count(x) == if is_match(prefix, x) {
            symbols.to_multiset().count(x)
        } else {
            0
        },
    decreases symbols.len(),
{
    broadcast use vstd::multiset::group_multiset_axioms;

    reveal(Seq::filter);
    let all = matching(prefix, symbols);
    if symbols.len() == 0 {
        assert(all =~= symbols);
        symbols.to_multiset_ensures();
        assert(symbols.to_multiset().len() == 0);
        assert(!symbols.contains(x));
    } else {
        let front = symbols.drop_last();
        lemma_matching_count(prefix, front, x);
        vstd::seq_lib::to_multiset_build(front, symbols.last());
        assert(front.push(symbols.last()) =~= symbols);
        if is_match(prefix, symbols.last()) {
            vstd::seq_lib::to_multiset_build(matching(prefix, front), symbols.last());
            assert(all == matching(prefix, front).push(symbols.last()));
        } else {
            assert(all == matching(prefix, front));
        }
    }
}

/// A search finds no more symbols than its backend allows.
pub proof fn law_found_bounded(backend: Backend, prefix: Seq<char>)
    ensures
        found(backend, prefix).len() <= backend.max_number,
{
    lemma_first_matches(prefix, backend.symbols, backend.max_number);
}

/// Once a backend has got its symbols, a search finds as many as match, up to the limit, and finds
/// none more often than it matches.
pub proof fn law_found_of_update(symbols: Seq<Seq<char>>, max_number: nat, prefix: Seq<char>)
    ensures
        ({
            let backend = Backend { symbols: search::by_length(symbols), max_number };
            let all = matching(prefix, symbols);
            &&& found(backend, prefix).len() == if all.len() < max_number {
                all.len()
            } else {
                max_number
            }
            &&& found(backend, prefix).to_multiset().subset_of(all.to_multiset())
        }),
{
    broadcast use vstd::multiset::group_multiset_axioms;

    let backend = Backend { symbols: search::by_length(symbols), max_number };
    let all = matching(prefix, symbols);
    let ordered = matching(prefix, backend.symbols);
    order::law_sorted_same_items::<search::ByLength>(symbols);
    assert forall|x: Seq<char>| ordered.to_multiset().count(x) == all.to_multiset().count(x) by {
        lemma_matching_count(prefix, symbols, x);
        lemma_matching_count(prefix, backend.symbols, x);
    }
    assert(ordered.to_multiset() =~= all.to_multiset());
    vstd::seq_lib::to_multiset_len(ordered);
    vstd::seq_lib::to_multiset_len(all);
    lemma_first_matches(prefix, backend.symbols, max_number);
    let first = first_matches(prefix, backend.symbols, max_number);
    let marks = marked(prefix, first);
    order::lemma_rank_places::<FoundSymbol>(marks);
    order::lemma_same_items(
        first,
        found(backend, prefix),
        |i: int| order::rank::<FoundSymbol>(marks, i) as int,
    );
    let rest = ordered.skip(first.len() as int);
    assert(ordered =~= first + rest);
    vstd::seq_lib::lemma_multiset_commutative(first, rest);
}

/// Of the symbols that a search finds, none that starts with the prefix stands behind one that
/// does not, and of two that both do or both do not, the longer does not stand first.
pub proof fn law_found_in_order(backend: Backend, prefix: Seq<char>, k: int, l: int)
    requires
        0 <= k < l < found(backend, prefix).len(),
    ensures
        ({
            let a = found(backend, prefix)[k];
            let b = found(backend, prefix)[l];
            &&& text::starts_with(b, prefix) ==> text::starts_with(a, prefix)
            &&& text::starts_with(a, prefix) == text::starts_with(b, prefix) ==> search::bytes_of(
                a,
            ) <= search::bytes_of(b)
        }),
{
    let first = first_matches(prefix, backend.symbols, backend.max_number);
    let all = marked(prefix, first);
    let i = order::law_sorted_from::<FoundSymbol>(all, k);
    let j = order::law_sorted_from::<FoundSymbol>(all, l);
    order::law_sorted_in_order::<FoundSymbol>(all, k, l);
}

} // verus!
