//! What the search backends owe, said of what they search and what they find.

use crate::handlers;
use crate::json::Jv;
use crate::search;
use crate::search::ctags;
use crate::search::ctags::Tag;
use crate::search::double;
use crate::search::file_words;
use crate::search::file_words::Mode;
use crate::search::fuzzy;
use crate::search::list;
use crate::search::order;
use crate::search::paths;
use crate::search::pattern;
use crate::search::unicode;
use crate::table;
use crate::text;
use vstd::prelude::*;

verus! {

// ---------------------------------------------------------------------------
// Candidates
// ---------------------------------------------------------------------------

/// Whether a value is a candidate: its key is also what is shown.
pub open spec fn shows_candidate(
    v: Jv,
    key: Seq<char>,
    icon: Seq<char>,
    annotation: Seq<char>,
    backend: Seq<char>,
) -> bool {
    handlers::made_of(
        v,
        seq![
            ("key"@, Jv::Str(key)),
            ("icon"@, Jv::Str(icon)),
            ("label"@, Jv::Str(key)),
            ("displayLabel"@, Jv::Str(key)),
            ("annotation"@, Jv::Str(annotation)),
            ("backend"@, Jv::Str(backend)),
        ],
    )
}

/// A candidate carries its key, icon, annotation and backend.
pub proof fn law_candidate(
    key: Seq<char>,
    icon: Seq<char>,
    annotation: Seq<char>,
    backend: Seq<char>,
)
    ensures
        shows_candidate(
            search::candidate(key, icon, annotation, backend),
            key,
            icon,
            annotation,
            backend,
        ),
{
    reveal_strlit("key");
    reveal_strlit("icon");
    reveal_strlit("label");
    reveal_strlit("displayLabel");
    reveal_strlit("annotation");
    reveal_strlit("backend");
    assert("key"@.len() == 3 && "icon"@.len() == 4 && "label"@.len() == 5 && "displayLabel"@.len()
        == 12 && "annotation"@.len() == 10 && "backend"@.len() == 7);
    handlers::lemma_made_of(
        seq![
            ("key"@, Jv::Str(key)),
            ("icon"@, Jv::Str(icon)),
            ("label"@, Jv::Str(key)),
            ("displayLabel"@, Jv::Str(key)),
            ("annotation"@, Jv::Str(annotation)),
            ("backend"@, Jv::Str(backend)),
        ],
    );
}

/// Taking the dashes out of two texts together takes them out of each; a dash leaves nothing, and
/// another character stays.
pub proof fn law_without_dashes(a: Seq<char>, b: Seq<char>, c: char)
    ensures
        search::without_dashes(a + b) == search::without_dashes(a) + search::without_dashes(b),
        search::without_dashes(seq![c]) == (if c == '-' {
            Seq::empty()
        } else {
            seq![c]
        }),
{
    let keep = |c: char| c != '-';
    Seq::filter_distributes_over_add(a, b, keep);
    reveal(Seq::filter);
    assert(seq![c].drop_last() =~= Seq::<char>::empty());
    assert(Seq::<char>::empty().filter(keep) =~= Seq::<char>::empty());
}

// ---------------------------------------------------------------------------
// Symbols
// ---------------------------------------------------------------------------

/// A symbol matches a prefix exactly where it starts with it, starts with it once its dashes are
/// out, or is matched by the pattern of the prefix.
pub proof fn law_symbol_matches(prefix: Seq<char>, symbol: Seq<char>)
    ensures
        list::is_match(prefix, symbol) <==> ({
            ||| exists|rest: Seq<char>| symbol == prefix + rest
            ||| exists|rest: Seq<char>| search::without_dashes(symbol) == prefix + rest
            ||| pattern::regex_matches(list::fuzzy_pattern(prefix), symbol) == Some(true)
        }),
{
    lemma_starts_with(symbol, prefix);
    lemma_starts_with(search::without_dashes(symbol), prefix);
}

proof fn lemma_starts_with(s: Seq<char>, prefix: Seq<char>)
    ensures
        text::starts_with(s, prefix) <==> exists|rest: Seq<char>| s == prefix + rest,
{
    if text::starts_with(s, prefix) {
        assert(s =~= prefix + s.skip(prefix.len() as int));
    }
    if exists|rest: Seq<char>| s == prefix + rest {
        let rest = choose|rest: Seq<char>| s == prefix + rest;
        assert(s.take(prefix.len() as int) =~= prefix);
    }
}

/// The pattern of a prefix starts at the start, and takes each searched character of the escaped
/// prefix with anything behind it; other characters leave nothing.
pub proof fn law_pattern(a: Seq<char>, b: Seq<char>, c: char)
    ensures
        list::fuzzy_pattern(a) == seq!['^'] + list::spread(pattern::escaped(a)),
        list::spread(a + b) == list::spread(a) + list::spread(b),
        list::spread(seq![c]) == (if unicode::letter_or_number(c) || c == '-' || c == '_' {
            seq![c, '.', '*']
        } else {
            Seq::empty()
        }),
{
    lemma_spread_concat(a, b);
    assert(seq![c].drop_last() =~= Seq::<char>::empty());
    assert(list::spread(Seq::<char>::empty()) =~= Seq::<char>::empty());
    assert(list::spread(seq![c]) =~= (if unicode::letter_or_number(c) || c == '-' || c == '_' {
        seq![c, '.', '*']
    } else {
        Seq::empty()
    }));
}

proof fn lemma_spread_concat(a: Seq<char>, b: Seq<char>)
    ensures
        list::spread(a + b) == list::spread(a) + list::spread(b),
    decreases b.len(),
{
    if b.len() == 0 {
        assert(a + b =~= a);
    } else {
        assert((a + b).drop_last() =~= a + b.drop_last());
        assert((a + b).last() == b.last());
        lemma_spread_concat(a, b.drop_last());
    }
    assert(list::spread(a + b) =~= list::spread(a) + list::spread(b));
}

// ---------------------------------------------------------------------------
// Paths
// ---------------------------------------------------------------------------

/// Whether an entry matches a prefix, in any case: it starts with it, with or without its dashes,
/// or holds it somewhere.
pub open spec fn entry_matches(prefix: Seq<char>, name: Seq<char>) -> bool {
    let part = unicode::lowercase(prefix);
    let whole = unicode::lowercase(name);
    ||| exists|front: Seq<char>, rest: Seq<char>| whole == #[trigger] ((front + part) + rest)
    ||| exists|rest: Seq<char>| search::without_dashes(whole) == part + rest
}

proof fn lemma_entry_matches(prefix: Seq<char>, name: Seq<char>)
    ensures
        paths::symbol_matches(unicode::lowercase(prefix), unicode::lowercase(name))
            == entry_matches(prefix, name),
{
    let part = unicode::lowercase(prefix);
    let whole = unicode::lowercase(name);
    lemma_starts_with(whole, part);
    lemma_starts_with(search::without_dashes(whole), part);
    if text::starts_with(whole, part) {
        let rest = choose|rest: Seq<char>| whole == part + rest;
        assert(Seq::<char>::empty() + part =~= part);
        assert(whole == (Seq::<char>::empty() + part) + rest);
    }
    if text::occurs(whole, part) {
        let i = choose|i: int| text::occurs_at(whole, part, i);
        assert(whole =~= (whole.take(i) + part) + whole.skip(i + part.len()));
    }
    if exists|front: Seq<char>, rest: Seq<char>| whole == #[trigger] ((front + part) + rest) {
        let (front, rest) = choose|front: Seq<char>, rest: Seq<char>|
            whole == #[trigger] ((front + part) + rest);
        let i = front.len() as int;
        assert(whole.subrange(i, i + part.len()) =~= part);
        assert(text::occurs_at(whole, part, i));
    }
}

/// The entries that match a prefix, in order.
pub open spec fn matching_entries(prefix: Seq<char>, entries: Seq<(Seq<char>, bool)>) -> Seq<
    (Seq<char>, bool),
> {
    entries.filter(|e: (Seq<char>, bool)| entry_matches(prefix, e.0))
}

proof fn lemma_first_entries(prefix: Seq<char>, entries: Seq<(Seq<char>, bool)>)
    ensures
        ({
            let all = matching_entries(prefix, entries);
            paths::first_matches(prefix, entries) == all.take(
                if all.len() < 300 {
                    all.len() as int
                } else {
                    300
                },
            )
        }),
    decreases entries.len(),
{
    reveal(Seq::filter);
    let all = matching_entries(prefix, entries);
    let first = paths::first_matches(prefix, entries);
    if entries.len() > 0 {
        lemma_first_entries(prefix, entries.drop_last());
        lemma_entry_matches(prefix, entries.last().0);
        let before = matching_entries(prefix, entries.drop_last());
        if entry_matches(prefix, entries.last().0) {
            assert(all == before.push(entries.last()));
            if before.len() < 300 {
                assert(before.take(before.len() as int) =~= before);
                assert(first =~= all.take(all.len() as int));
            } else {
                assert(first =~= all.take(300));
            }
        } else {
            assert(all == before);
        }
    } else {
        assert(first =~= all.take(0));
    }
}

/// Each of the first three hundred entries that match is offered, and nothing else is: a
/// directory as a directory, a file as a file.
pub proof fn law_paths_offered(prefix: Seq<char>, entries: Seq<(Seq<char>, bool)>, i: int)
    ensures
        ({
            let all = matching_entries(prefix, entries);
            let offered = paths::path_candidates(prefix, entries);
            &&& offered.len() == if all.len() < 300 {
                all.len()
            } else {
                300
            }
            &&& 0 <= i < offered.len() ==> exists|k: int|
                0 <= k < offered.len() && shows_entry(#[trigger] offered[k], all[i])
            &&& 0 <= i < offered.len() ==> exists|k: int|
                0 <= k < offered.len() && shows_entry(offered[i], #[trigger] all[k])
        }),
{
    let all = matching_entries(prefix, entries);
    let first = paths::first_matches(prefix, entries);
    let offered = paths::path_candidates(prefix, entries);
    lemma_first_entries(prefix, entries);
    let marks = paths::marked(prefix, first);
    if 0 <= i < offered.len() {
        order::lemma_rank_places::<paths::FoundPath>(marks);
        let k = order::rank::<paths::FoundPath>(marks, i) as int;
        lemma_shows_entry(all[i]);
        assert(shows_entry(offered[k], all[i]));
        let j = order::law_sorted_from::<paths::FoundPath>(marks, i);
        lemma_shows_entry(all[j]);
        assert(shows_entry(offered[i], all[j]));
    }
}

/// Whether a value is what is offered of an entry.
pub open spec fn shows_entry(v: Jv, entry: (Seq<char>, bool)) -> bool {
    if entry.1 {
        shows_candidate(v, entry.0, "dir"@, "DIR"@, "path"@)
    } else {
        shows_candidate(v, entry.0, "file"@, "FILE"@, "path"@)
    }
}

proof fn lemma_shows_entry(entry: (Seq<char>, bool))
    ensures
        shows_entry(paths::path_candidate(entry.0, entry.1), entry),
{
    law_candidate(entry.0, "dir"@, "DIR"@, "path"@);
    law_candidate(entry.0, "file"@, "FILE"@, "path"@);
}

/// Of two candidates the earlier starts with the prefix where the later does; of two alike in
/// that, it is a directory where the later is one; and of two alike in both, it does not stand
/// behind the later in the alphabet.
pub proof fn law_paths_in_order(prefix: Seq<char>, entries: Seq<(Seq<char>, bool)>, k: int, l: int)
    requires
        0 <= k < l < paths::path_candidates(prefix, entries).len(),
    ensures
        exists|a: (Seq<char>, bool), b: (Seq<char>, bool)|
            {
                let starts_a = text::starts_with(a.0, prefix);
                let starts_b = text::starts_with(b.0, prefix);
                &&& #[trigger] shows_entry(paths::path_candidates(prefix, entries)[k], a)
                &&& #[trigger] shows_entry(paths::path_candidates(prefix, entries)[l], b)
                &&& starts_b ==> starts_a
                &&& starts_a == starts_b && b.1 ==> a.1
                &&& starts_a == starts_b && a.1 == b.1 ==> !text::less(b.0, a.0)
            },
{
    let first = paths::first_matches(prefix, entries);
    let marks = paths::marked(prefix, first);
    let i = order::law_sorted_from::<paths::FoundPath>(marks, k);
    let j = order::law_sorted_from::<paths::FoundPath>(marks, l);
    order::law_sorted_in_order::<paths::FoundPath>(marks, k, l);
    lemma_shows_entry(first[i]);
    lemma_shows_entry(first[j]);
    assert(shows_entry(paths::path_candidates(prefix, entries)[k], first[i]));
    assert(shows_entry(paths::path_candidates(prefix, entries)[l], first[j]));
}

// ---------------------------------------------------------------------------
// Words
// ---------------------------------------------------------------------------

/// The words of a text are those among the tokens that the pattern of a word finds in it.
pub proof fn law_words_of(content: Seq<char>, tokens: Seq<Seq<char>>)
    ensures
        pattern::regex_finds(r"[\w|-]+"@, content) == Some(tokens) ==> file_words::words_of(content)
            == file_words::words_among(tokens),
{
}

/// A token counts as a word exactly where it takes more than three bytes and is no number, and it
/// is cleaned of everything but letters, numbers, dashes and underscores.
pub proof fn law_token(token: Seq<char>, a: Seq<char>, b: Seq<char>, c: char)
    ensures
        file_words::is_word(token) <==> search::bytes_of(token) >= 4 && exists|i: int|
            0 <= i < token.len() && !text::is_digit(#[trigger] token[i]),
        file_words::cleaned(a + b) == file_words::cleaned(a) + file_words::cleaned(b),
        file_words::cleaned(seq![c]) == (if unicode::letter_or_number(c) || c == '-' || c == '_' {
            seq![c]
        } else {
            Seq::empty()
        }),
{
    let keep = |c: char| file_words::in_word(c);
    Seq::filter_distributes_over_add(a, b, keep);
    reveal(Seq::filter);
    assert(seq![c].drop_last() =~= Seq::<char>::empty());
    assert(Seq::<char>::empty().filter(keep) =~= Seq::<char>::empty());
}

/// What two lists of words complete a prefix to is what the first does, and then what the second
/// does; a word alone gives its own completion, or nothing.
pub proof fn law_completions_concat(
    prefix: Seq<char>,
    a: Seq<Seq<char>>,
    b: Seq<Seq<char>>,
    word: Seq<char>,
)
    ensures
        file_words::completions(prefix, a + b) == file_words::completions(prefix, a)
            + file_words::completions(prefix, b),
        file_words::completions(prefix, seq![word]) == (match file_words::completed(prefix, word) {
            Some(s) => seq![s],
            None => Seq::empty(),
        }),
{
    lemma_completions_concat(prefix, a, b);
    assert(seq![word].drop_last() =~= Seq::<Seq<char>>::empty());
    assert(file_words::completions(prefix, Seq::empty()) =~= Seq::<Seq<char>>::empty());
}

proof fn lemma_completions_concat(prefix: Seq<char>, a: Seq<Seq<char>>, b: Seq<Seq<char>>)
    ensures
        file_words::completions(prefix, a + b) == file_words::completions(prefix, a)
            + file_words::completions(prefix, b),
    decreases b.len(),
{
    if b.len() == 0 {
        assert(a + b =~= a);
    } else {
        assert((a + b).drop_last() =~= a + b.drop_last());
        assert((a + b).last() == b.last());
        lemma_completions_concat(prefix, a, b.drop_last());
    }
    assert(file_words::completions(prefix, a + b) =~= file_words::completions(prefix, a)
        + file_words::completions(prefix, b));
}

/// A word that starts with a prefix in any case completes it: to the word in capitals where the
/// prefix is all capitals, and else to the prefix as it was given, with what is left of the word.
/// No other word completes it.
pub proof fn law_completed(prefix: Seq<char>, front: Seq<char>, rest: Seq<char>, word: Seq<char>)
    ensures
        (forall|tail: Seq<char>| unicode::lowercase(word) != unicode::lowercase(prefix) + tail)
            ==> file_words::completed(prefix, word) is None,
        (exists|tail: Seq<char>| unicode::lowercase(word) == unicode::lowercase(prefix) + tail) && (
        forall|i: int| 0 <= i < prefix.len() ==> unicode::uppercase_letter(#[trigger] prefix[i]))
            ==> file_words::completed(prefix, word) == Some(unicode::uppercase(word)),
        (exists|tail: Seq<char>| unicode::lowercase(word) == unicode::lowercase(prefix) + tail) && (
        exists|i: int| 0 <= i < prefix.len() && !unicode::uppercase_letter(#[trigger] prefix[i]))
            && word == front + rest && search::bytes_of(front) == search::bytes_of(prefix)
            ==> file_words::completed(prefix, word) == Some(prefix + rest),
{
    lemma_starts_with(unicode::lowercase(word), unicode::lowercase(prefix));
    if word == front + rest {
        lemma_behind_bytes(front, rest);
    }
}

proof fn lemma_behind_bytes(front: Seq<char>, rest: Seq<char>)
    ensures
        file_words::behind_bytes(front + rest, search::bytes_of(front) as int) == Some(rest),
    decreases front.len(),
{
    if front.len() == 0 {
        assert(front + rest =~= rest);
        assert(search::bytes_of(front) == 0);
    } else {
        let whole = front + rest;
        assert(whole[0] == front[0]);
        assert(whole.skip(1) =~= front.skip(1) + rest);
        lemma_behind_bytes(front.skip(1), rest);
        assert(vstd::utf8::encode_utf8(front) == vstd::utf8::encode_scalar(front[0] as u32)
            + vstd::utf8::encode_utf8(front.drop_first()));
        assert(front.drop_first() =~= front.skip(1));
        assert(vstd::utf8::encode_scalar(front[0] as u32).len() > 0);
    }
}

/// Which words are alike enough is decided word by word, in their order, each with its own
/// likeness.
pub proof fn law_alike(
    prefix: Seq<char>,
    a: Seq<Seq<char>>,
    b: Seq<Seq<char>>,
    word: Seq<char>,
    threshold: fuzzy::Threshold,
)
    ensures
        file_words::alike(prefix, a + b, threshold) == file_words::alike(prefix, a, threshold)
            + file_words::alike(prefix, b, threshold),
        ({
            let ratio = fuzzy::likeness(unicode::lowercase(prefix), unicode::lowercase(word));
            file_words::alike(prefix, seq![word], threshold) == (if fuzzy::reaches(
                ratio,
                threshold,
            ) {
                seq![(word, ratio)]
            } else {
                Seq::empty()
            })
        }),
{
    lemma_alike_concat(prefix, a, b, threshold);
    assert(seq![word].drop_last() =~= Seq::<Seq<char>>::empty());
    assert(file_words::alike(prefix, Seq::empty(), threshold).len() == 0);
}

proof fn lemma_alike_concat(
    prefix: Seq<char>,
    a: Seq<Seq<char>>,
    b: Seq<Seq<char>>,
    threshold: fuzzy::Threshold,
)
    ensures
        file_words::alike(prefix, a + b, threshold) == file_words::alike(prefix, a, threshold)
            + file_words::alike(prefix, b, threshold),
    decreases b.len(),
{
    if b.len() == 0 {
        assert(a + b =~= a);
    } else {
        assert((a + b).drop_last() =~= a + b.drop_last());
        assert((a + b).last() == b.last());
        lemma_alike_concat(prefix, a, b.drop_last(), threshold);
    }
    assert(file_words::alike(prefix, a + b, threshold) =~= file_words::alike(prefix, a, threshold)
        + file_words::alike(prefix, b, threshold));
}

/// A search by prefix finds every completion, no more and none more often, and the shorter stand
/// before the longer.
pub proof fn law_found_by_prefix(prefix: Seq<char>, words: Seq<Seq<char>>, mode: Mode, k: int, l: int)
    requires
        !mode.fuzzy,
    ensures
        ({
            let found = file_words::found(prefix, words, mode);
            &&& found.to_multiset() == file_words::completions(prefix, words).to_multiset()
            &&& 0 <= k < l < found.len() ==> search::bytes_of(found[k]) <= search::bytes_of(
                found[l],
            )
        }),
{
    let all = file_words::completions(prefix, words);
    order::law_sorted_same_items::<search::ByLength>(all);
    if 0 <= k < l < all.len() {
        order::law_sorted_in_order::<search::ByLength>(all, k, l);
    }
}

/// A search by likeness finds every word that is alike enough, and nothing else.
pub proof fn law_found_by_likeness(prefix: Seq<char>, words: Seq<Seq<char>>, mode: Mode, i: int)
    requires
        mode.fuzzy,
    ensures
        ({
            let found = file_words::found(prefix, words, mode);
            let all = file_words::alike(prefix, words, mode.threshold);
            &&& found.len() == all.len()
            &&& 0 <= i < all.len() ==> found.contains(all[i].0)
            &&& 0 <= i < all.len() ==> exists|k: int|
                0 <= k < all.len() && found[i] == (#[trigger] all[k]).0
        }),
{
    let found = file_words::found(prefix, words, mode);
    let all = file_words::alike(prefix, words, mode.threshold);
    if 0 <= i < all.len() {
        order::lemma_rank_places::<fuzzy::Scored>(all);
        let k = order::rank::<fuzzy::Scored>(all, i) as int;
        assert(found[k] == all[i].0);
        let j = order::law_sorted_from::<fuzzy::Scored>(all, i);
        assert(found[i] == all[j].0);
    }
}

/// Where the whole prefix finds something, that is what is found; where it finds nothing and has
/// no pieces, nothing is.
pub proof fn law_whole_prefix_first(prefix: Seq<char>, words: Seq<Seq<char>>, mode: Mode)
    ensures
        file_words::found(prefix, words, mode).len() > 0 || !prefix.contains('-')
            && !prefix.contains('_') ==> file_words::found_all(prefix, words, mode)
            == file_words::found(prefix, words, mode),
{
}

/// Where the whole prefix finds nothing, what its last piece finds counts, with the rest of the
/// prefix in front: the piece behind the last dash, and where that finds nothing, or there is none,
/// the piece behind the last underscore.
pub proof fn law_last_piece_next(
    front: Seq<char>,
    piece: Seq<char>,
    words: Seq<Seq<char>>,
    mode: Mode,
    separator: char,
    i: int,
)
    requires
        separator == '-' || separator == '_' && !(front + seq!['_'] + piece).contains('-'),
        piece.len() > 0,
        !piece.contains(separator),
        file_words::found(front + seq![separator] + piece, words, mode).len() == 0,
        file_words::found(piece, words, mode).len() > 0,
    ensures
        ({
            let all = file_words::found_all(front + seq![separator] + piece, words, mode);
            let found = file_words::found(piece, words, mode);
            &&& all.len() == found.len()
            &&& 0 <= i < found.len() ==> all[i] == front + seq![separator] + found[i]
        }),
{
    let prefix = front + seq![separator] + piece;
    lemma_last_piece(front, piece, separator);
    assert(prefix[front.len() as int] == separator);
    assert(prefix.contains(separator));
    assert(prefix.last() == piece.last());
    assert(piece.contains(piece.last())) by {
        assert(piece[piece.len() - 1] == piece.last());
    }
    assert(prefix.take(prefix.len() - piece.len()) =~= front + seq![separator]);
}

proof fn lemma_last_piece(front: Seq<char>, piece: Seq<char>, separator: char)
    requires
        !piece.contains(separator),
    ensures
        file_words::last_piece(front + seq![separator] + piece, separator) == piece,
    decreases piece.len(),
{
    let whole = front + seq![separator] + piece;
    if piece.len() == 0 {
        assert(whole.last() == separator);
        assert(file_words::last_piece(whole, separator) =~= piece);
    } else {
        let shorter = piece.drop_last();
        assert(whole.drop_last() =~= front + seq![separator] + shorter);
        assert(whole.last() == piece.last());
        assert(piece[piece.len() - 1] != separator) by {
            if piece[piece.len() - 1] == separator {
                assert(piece.contains(separator));
            }
        }
        assert(!shorter.contains(separator)) by {
            if shorter.contains(separator) {
                let k = choose|k: int| 0 <= k < shorter.len() && shorter[k] == separator;
                assert(piece[k] == separator);
            }
        }
        lemma_last_piece(front, shorter, separator);
        assert(shorter.push(piece.last()) =~= piece);
    }
}

/// The first words that were found become candidates, in order, as many as are wanted.
pub proof fn law_word_candidates(words: Seq<Seq<char>>, max_number: nat, i: int)
    ensures
        ({
            let all = file_words::word_candidates(words, max_number);
            &&& all.len() == if words.len() <= max_number {
                words.len()
            } else {
                max_number
            }
            &&& 0 <= i < all.len() ==> shows_candidate(
                all[i],
                words[i],
                "search"@,
                "Search Word"@,
                "search-file-words"@,
            )
        }),
{
    if 0 <= i < words.len() {
        law_candidate(words[i], "search"@, "Search Word"@, "search-file-words"@);
    }
}

/// A file that is indexed has the words of its text, and no other file is touched.
pub proof fn law_file_indexed(
    files: Seq<(Seq<char>, Seq<Seq<char>>)>,
    filepath: Seq<char>,
    content: Seq<char>,
    other: Seq<char>,
)
    ensures
        table::lookup(file_words::indexed(files, filepath, content), filepath) == Some(
            file_words::words_of(content),
        ),
        other != filepath ==> table::lookup(file_words::indexed(files, filepath, content), other)
            == table::lookup(files, other),
{
    table::law_lookup_put(files, filepath, file_words::words_of(content), filepath);
    table::law_lookup_put(files, filepath, file_words::words_of(content), other);
}

/// Of several files to index, one that could be read and is not indexed yet adds its words; one
/// that is indexed, or could not be read, changes nothing.
pub proof fn law_files_indexed(
    files: Seq<(Seq<char>, Seq<Seq<char>>)>,
    loaded: Seq<file_words::LoadedFile>,
    file: file_words::LoadedFile,
)
    ensures
        ({
            let before = file_words::indexed_all(files, loaded);
            let after = file_words::indexed_all(files, loaded.push(file));
            &&& file.content is None || table::lookup(before, file.filepath@) is Some ==> after
                == before
            &&& file.content is Some && table::lookup(before, file.filepath@) is None
                ==> table::lookup(after, file.filepath@) == Some(
                file_words::words_of(file.content->0@),
            )
        }),
        file_words::indexed_all(files, Seq::empty()) == files,
{
    let all = loaded.push(file);
    assert(all.drop_last() =~= loaded);
    assert(all.last() == file);
    if file.content is Some {
        law_file_indexed(
            file_words::indexed_all(files, loaded),
            file.filepath@,
            file.content->0@,
            file.filepath@,
        );
    }
}

// ---------------------------------------------------------------------------
// Tags
// ---------------------------------------------------------------------------

/// The pieces of a text without a separator are the text itself, and a separator between two
/// texts parts their pieces.
pub proof fn law_pieces(a: Seq<char>, b: Seq<char>, separator: char)
    ensures
        !a.contains(separator) ==> ctags::pieces(a, separator) == seq![a],
        ctags::pieces(a + seq![separator] + b, separator) == ctags::pieces(a, separator)
            + ctags::pieces(b, separator),
{
    lemma_pieces_one(a, separator);
    lemma_pieces_concat(a, b, separator);
}

proof fn lemma_pieces_one(a: Seq<char>, separator: char)
    ensures
        ctags::pieces(a, separator).len() > 0,
        !a.contains(separator) ==> ctags::pieces(a, separator) == seq![a],
    decreases a.len(),
{
    if a.len() == 0 {
        assert(a =~= Seq::<char>::empty());
    } else {
        let shorter = a.drop_last();
        lemma_pieces_one(shorter, separator);
        if !a.contains(separator) {
            assert(a[a.len() - 1] != separator);
            assert(!shorter.contains(separator)) by {
                if shorter.contains(separator) {
                    let k = choose|k: int| 0 <= k < shorter.len() && shorter[k] == separator;
                    assert(a[k] == separator);
                }
            }
            assert(shorter.push(a.last()) =~= a);
            assert(ctags::pieces(a, separator) =~= seq![a]);
        }
    }
}

proof fn lemma_pieces_concat(a: Seq<char>, b: Seq<char>, separator: char)
    ensures
        ctags::pieces(a + seq![separator] + b, separator) == ctags::pieces(a, separator)
            + ctags::pieces(b, separator),
    decreases b.len(),
{
    let whole = a + seq![separator] + b;
    lemma_pieces_one(a, separator);
    lemma_pieces_one(b, separator);
    if b.len() == 0 {
        assert(whole.drop_last() =~= a);
        assert(whole.last() == separator);
        assert(ctags::pieces(whole, separator) =~= ctags::pieces(a, separator) + ctags::pieces(
            b,
            separator,
        ));
    } else {
        let shorter = b.drop_last();
        assert(whole.drop_last() =~= a + seq![separator] + shorter);
        assert(whole.last() == b.last());
        lemma_pieces_concat(a, shorter, separator);
        lemma_pieces_one(shorter, separator);
        let front = ctags::pieces(a, separator);
        let back = ctags::pieces(shorter, separator);
        assert((front + back).last() == back.last());
        assert((front + back).drop_last() =~= front + back.drop_last());
        assert(ctags::pieces(whole, separator) =~= front + ctags::pieces(b, separator));
    }
}

/// A line of name, file and address, apart from each other by tabs, is a tag of these and of
/// nothing else.
pub proof fn law_bare_tag(name: Seq<char>, file: Seq<char>, address: Seq<char>)
    requires
        !name.contains('\t'),
        !file.contains('\t'),
    ensures
        ctags::bare_tag(name + seq!['\t'] + file + seq!['\t'] + address) == Some(
            Tag {
                name,
                file,
                address,
                kind: Seq::empty(),
                typeref: Seq::empty(),
                scope: Seq::empty(),
                extras: Seq::empty(),
            },
        ),
        ctags::bare_tag(name) is None,
        ctags::bare_tag(name + seq!['\t'] + file) is None,
{
    let rest = file + seq!['\t'] + address;
    assert(name + seq!['\t'] + file + seq!['\t'] + address =~= name + seq!['\t'] + rest);
    lemma_split_once(name, rest, '\t');
    lemma_split_once(file, address, '\t');
    lemma_split_once(name, file, '\t');
    name.index_of_first_ensures('\t');
    file.index_of_first_ensures('\t');
}

proof fn lemma_split_once(a: Seq<char>, b: Seq<char>, separator: char)
    requires
        !a.contains(separator),
    ensures
        ctags::split_once(a + seq![separator] + b, separator) == Some((a, b)),
{
    let s = a + seq![separator] + b;
    s.index_of_first_ensures(separator);
    assert(s[a.len() as int] == separator);
    assert(s.contains(separator));
    let i = s.index_of_first(separator)->0;
    if i < a.len() {
        assert(a[i] == separator);
    }
    assert(s.take(i) =~= a);
    assert(s.skip(i + 1) =~= b);
}

/// A line whose last mark stands between a tag and further fields is that tag with those fields;
/// a line without a mark is the tag alone.
pub proof fn law_tag_line(head: Seq<char>, tail: Seq<char>)
    requires
        !tail.contains('"'),
    ensures
        !head.contains('"') ==> ctags::tag_of(head) == ctags::bare_tag(head),
        ctags::bare_tag(head) is None ==> ctags::tag_of(head + seq![';', '"'] + tail) is None,
        ctags::bare_tag(head) is Some ==> ctags::tag_of(head + seq![';', '"'] + tail) == Some(
            ctags::with_fields(ctags::bare_tag(head)->0, ctags::pieces(tail, '\t').skip(1)),
        ),
{
    lemma_no_mark(head);
    lemma_last_mark(head, tail);
    let line = head + seq![';', '"'] + tail;
    assert(line.take(head.len() as int) =~= head);
    assert(line.skip(head.len() as int + 2) =~= tail);
}

proof fn lemma_no_mark(s: Seq<char>)
    ensures
        !s.contains('"') ==> ctags::last_mark(s) is None,
    decreases s.len(),
{
    if s.len() >= 2 && !s.contains('"') {
        assert(s[s.len() - 1] != '"');
        let shorter = s.drop_last();
        assert(!shorter.contains('"')) by {
            if shorter.contains('"') {
                let k = choose|k: int| 0 <= k < shorter.len() && shorter[k] == '"';
                assert(s[k] == '"');
            }
        }
        lemma_no_mark(shorter);
    }
}

proof fn lemma_last_mark(head: Seq<char>, tail: Seq<char>)
    requires
        !tail.contains('"'),
    ensures
        ctags::last_mark(head + seq![';', '"'] + tail) == Some(head.len() as int),
    decreases tail.len(),
{
    let line = head + seq![';', '"'] + tail;
    if tail.len() == 0 {
        assert(line[line.len() - 2] == ';' && line[line.len() - 1] == '"');
    } else {
        let shorter = tail.drop_last();
        assert(line.drop_last() =~= head + seq![';', '"'] + shorter);
        assert(line[line.len() - 1] == tail[tail.len() - 1]);
        assert(tail[tail.len() - 1] != '"') by {
            if tail[tail.len() - 1] == '"' {
                assert(tail.contains('"'));
            }
        }
        assert(!shorter.contains('"')) by {
            if shorter.contains('"') {
                let k = choose|k: int| 0 <= k < shorter.len() && shorter[k] == '"';
                assert(tail[k] == '"');
            }
        }
        lemma_last_mark(head, shorter);
    }
}

/// Further fields add to a tag one after the other.
pub proof fn law_fields_in_turn(tag: Tag, a: Seq<Seq<char>>, b: Seq<Seq<char>>, field: Seq<char>)
    ensures
        ctags::with_fields(tag, a + b) == ctags::with_fields(ctags::with_fields(tag, a), b),
        ctags::with_fields(tag, seq![field]) == ctags::with_field(tag, field),
        ctags::with_fields(tag, Seq::empty()) == tag,
    decreases b.len(),
{
    if b.len() == 0 {
        assert(a + b =~= a);
    } else {
        assert((a + b).drop_last() =~= a + b.drop_last());
        assert((a + b).last() == b.last());
        law_fields_in_turn(tag, a, b.drop_last(), field);
    }
    assert(seq![field].drop_last() =~= Seq::<Seq<char>>::empty());
    assert(ctags::with_fields(tag, Seq::empty()) == tag);
}

/// A field with a key sets what the key names and nothing else; a field without one is the kind;
/// an empty field, and one with another key, says nothing.
pub proof fn law_field(tag: Tag, key: Seq<char>, value: Seq<char>)
    requires
        !key.contains(':'),
    ensures
        ({
            let after = ctags::with_field(tag, key + seq![':'] + value);
            &&& key == "kind"@ ==> after == (Tag { kind: value, ..tag })
            &&& key == "typeref"@ ==> after == (Tag { typeref: value, ..tag })
            &&& key == "scope"@ ==> after == (Tag { scope: value, ..tag })
            &&& key == "extras"@ ==> after == (Tag { extras: value, ..tag })
            &&& key != "kind"@ && key != "typeref"@ && key != "scope"@ && key != "extras"@ ==> after
                == tag
        }),
        key.len() > 0 ==> ctags::with_field(tag, key) == (Tag { kind: key, ..tag }),
        key.len() == 0 ==> ctags::with_field(tag, key) == tag,
{
    reveal_strlit("kind");
    reveal_strlit("typeref");
    reveal_strlit("scope");
    reveal_strlit("extras");
    assert("kind"@.len() == 4 && "typeref"@.len() == 7 && "scope"@.len() == 5 && "extras"@.len()
        == 6);
    lemma_split_once(key, value, ':');
    key.index_of_first_ensures(':');
}

/// An annotation holds the mark of a reference, the kind, the type behind a slash and the scope
/// behind an at sign, as far as they are there.
pub proof fn law_annotation(
    kind: Seq<char>,
    extras: Seq<char>,
    typeref: Seq<char>,
    scope: Seq<char>,
)
    ensures
        ({
            let referred = exists|front: Seq<char>, rest: Seq<char>|
                extras == #[trigger] ((front + "reference"@) + rest);
            let mark = if referred {
                seq!['<', 'R', '>']
            } else {
                Seq::empty()
            };
            let what = if kind.len() == 0 || typeref.len() == 0 {
                kind + typeref
            } else {
                kind + seq!['/'] + typeref
            };
            let place = if scope.len() == 0 {
                Seq::empty()
            } else {
                seq!['@'] + scope
            };
            ctags::annotation_of(kind, extras, typeref, scope) == mark + what + place
        }),
{
    reveal_strlit("<R>");
    reveal_strlit("/");
    reveal_strlit("@");
    reveal_strlit("");
    let word = "reference"@;
    if text::occurs(extras, word) {
        let i = choose|i: int| text::occurs_at(extras, word, i);
        assert(extras =~= (extras.take(i) + word) + extras.skip(i + word.len()));
    }
    if exists|front: Seq<char>, rest: Seq<char>| extras == #[trigger] ((front + word) + rest) {
        let (front, rest) = choose|front: Seq<char>, rest: Seq<char>|
            extras == #[trigger] ((front + word) + rest);
        let i = front.len() as int;
        assert(extras.subrange(i, i + word.len()) =~= word);
        assert(text::occurs_at(extras, word, i));
    }
    let referred = text::occurs(extras, word);
    let mark = if referred {
        seq!['<', 'R', '>']
    } else {
        Seq::empty()
    };
    let what = if kind.len() == 0 || typeref.len() == 0 {
        kind + typeref
    } else {
        kind + seq!['/'] + typeref
    };
    let place = if scope.len() == 0 {
        Seq::empty()
    } else {
        seq!['@'] + scope
    };
    assert("<R>"@ =~= seq!['<', 'R', '>']);
    assert("/"@ =~= seq!['/']);
    assert("@"@ =~= seq!['@']);
    assert(""@ =~= Seq::<char>::empty());
    assert(ctags::annotation_of(kind, extras, typeref, scope) =~= mark + what + place);
}

/// A tag is offered under its name, with its kind as the icon, the word text where it has none,
/// and the annotation of its parts; the type is named without the word that announces it.
pub proof fn law_tag_candidate(tag: Tag)
    ensures
        ({
            let typeref = if exists|rest: Seq<char>| tag.typeref == "typename:"@ + rest {
                tag.typeref.skip(9)
            } else {
                tag.typeref
            };
            let annotation = ctags::annotation_of(
                tag.kind,
                tag.extras,
                ctags::shortened(typeref),
                ctags::shortened(tag.scope),
            );
            &&& shows_candidate(
                ctags::tag_candidate(tag),
                tag.name,
                if tag.kind.len() > 0 {
                    tag.kind
                } else {
                    "text"@
                },
                annotation,
                "ctags"@,
            )
            &&& handlers::made_of(
                ctags::tag_definition(tag),
                seq![
                    ("name"@, Jv::Str(tag.name)),
                    ("file"@, Jv::Str(tag.file)),
                    ("address"@, Jv::Str(tag.address)),
                    ("annotation"@, Jv::Str(annotation)),
                ],
            )
        }),
{
    reveal_strlit("typename:");
    reveal_strlit("name");
    reveal_strlit("file");
    reveal_strlit("address");
    reveal_strlit("annotation");
    assert("typename:"@.len() == 9);
    lemma_starts_with(tag.typeref, "typename:"@);
    law_candidate(
        tag.name,
        if tag.kind.len() > 0 {
            tag.kind
        } else {
            "text"@
        },
        ctags::tag_annotation(tag),
        "ctags"@,
    );
    assert("name"@.len() == 4 && "file"@.len() == 4 && "address"@.len() == 7 && "annotation"@.len()
        == 10);
    assert("name"@[0] == 'n' && "file"@[0] == 'f');
    handlers::lemma_made_of(
        seq![
            ("name"@, Jv::Str(tag.name)),
            ("file"@, Jv::Str(tag.file)),
            ("address"@, Jv::Str(tag.address)),
            ("annotation"@, Jv::Str(ctags::tag_annotation(tag))),
        ],
    );
}

/// The tags of two lists of lines are those of the first and then those of the second; a line
/// gives its own tag, or none.
pub proof fn law_tags_concat(a: Seq<Seq<char>>, b: Seq<Seq<char>>, line: Seq<char>)
    ensures
        ctags::tags_of(a + b) == ctags::tags_of(a) + ctags::tags_of(b),
        ctags::tags_of(seq![line]) == (match ctags::tag_of(line) {
            Some(tag) => seq![tag],
            None => Seq::empty(),
        }),
    decreases b.len(),
{
    if b.len() == 0 {
        assert(a + b =~= a);
    } else {
        assert((a + b).drop_last() =~= a + b.drop_last());
        assert((a + b).last() == b.last());
        law_tags_concat(a, b.drop_last(), line);
    }
    assert(ctags::tags_of(a + b) =~= ctags::tags_of(a) + ctags::tags_of(b));
    assert(seq![line].drop_last() =~= Seq::<Seq<char>>::empty());
    assert(ctags::tags_of(Seq::empty()).len() == 0);
}

/// A line ends at a newline, and a carriage return before that belongs to its end; a last line
/// without a newline is a line where it is not empty.
pub proof fn law_lines(line: Seq<char>, rest: Seq<char>)
    requires
        !line.contains('\n'),
    ensures
        ctags::lines(line + seq!['\n'] + rest) == seq![
            if line.len() > 0 && line.last() == '\r' {
                line.drop_last()
            } else {
                line
            },
        ] + ctags::lines(rest),
        ctags::lines(line) == (if line.len() > 0 {
            seq![line]
        } else {
            Seq::empty()
        }),
{
    let s = line + seq!['\n'] + rest;
    lemma_pieces_one(line, '\n');
    lemma_pieces_one(rest, '\n');
    lemma_pieces_concat(line, rest, '\n');
    let front = ctags::pieces(line, '\n');
    let back = ctags::pieces(rest, '\n');
    let all = ctags::pieces(s, '\n');
    assert(all == seq![line] + back);
    assert(all.last() == back.last());
    assert(ctags::lines(s) =~= seq![ctags::without_return(line)] + ctags::lines(rest)) by {
        assert forall|i: int| 0 < i < all.len() implies all[i] == back[i - 1] by {}
    }
    assert(ctags::lines(line) =~= (if line.len() > 0 {
        seq![line]
    } else {
        Seq::empty()
    }));
}

/// Where `readtags` succeeded, each tag of its output gives a candidate, or a definition, in
/// order; where it failed there are none.
pub proof fn law_tags_offered(output: Seq<char>, i: int)
    ensures
        ctags::completions(false, output).len() == 0,
        ctags::definitions(false, output).len() == 0,
        ({
            let tags = ctags::tags_of(ctags::lines(output));
            &&& ctags::completions(true, output).len() == tags.len()
            &&& ctags::definitions(true, output).len() == tags.len()
            &&& 0 <= i < tags.len() ==> ctags::completions(true, output)[i] == ctags::tag_candidate(
                tags[i],
            ) && ctags::definitions(true, output)[i] == ctags::tag_definition(tags[i])
        }),
{
}

/// `readtags` gets the symbol last: as a prefix of any case for completions, and as it is for a
/// definition.
pub proof fn law_readtags_args(symbol: Seq<char>)
    ensures
        ctags::completion_args(symbol) == seq![
            "-t"@,
            "tags"@,
            "-Q"@,
            r#"(not (or (and $extras ((string->regexp "(^|,) ?(anonymous|reference)(,|$)" :case-fold false) $extras)) (or (and $extras ((string->regexp "(^|,) ?(inputFile)(,|$)" :case-fold false) $extras)) (and $kind ((string->regexp "^(file|F)$" :case-fold false) $kind))) false))"#@,
            "-S"@,
            r#"(<or> (if (and $name &name) (<> (length $name) (length &name)) 0) (if (and $name &name) (<> $name &name) 0))"#@,
            "-p"@,
            "-i"@,
            "-"@,
            symbol,
        ],
        ctags::definition_args(symbol) == seq![
            "-t"@,
            "tags"@,
            "-Q"@,
            r#"(not (or (and $extras ((string->regexp "(^|,) ?(anonymous|reference)(,|$)" :case-fold false) $extras)) (or (and $extras ((string->regexp "(^|,) ?(inputFile)(,|$)" :case-fold false) $extras)) (and $kind ((string->regexp "^(file|F)$" :case-fold false) $kind))) false))"#@,
            "-e"@,
            "-"@,
            symbol,
        ],
{
}

/// Of two words that were found by likeness, the later is not more alike than the earlier.
pub proof fn law_likeness_in_order(
    prefix: Seq<char>,
    words: Seq<Seq<char>>,
    mode: Mode,
    k: int,
    l: int,
)
    requires
        mode.fuzzy,
        0 <= k < l < file_words::found(prefix, words, mode).len(),
    ensures
        ({
            let all = file_words::alike(prefix, words, mode.threshold);
            exists|i: int, j: int|
                {
                    &&& 0 <= i < all.len() && 0 <= j < all.len()
                    &&& (#[trigger] all[i]).0 == file_words::found(prefix, words, mode)[k]
                    &&& (#[trigger] all[j]).0 == file_words::found(prefix, words, mode)[l]
                    &&& !double::greater(all[j].1, all[i].1)
                }
        }),
{
    let all = file_words::alike(prefix, words, mode.threshold);
    let i = order::law_sorted_from::<fuzzy::Scored>(all, k);
    let j = order::law_sorted_from::<fuzzy::Scored>(all, l);
    order::law_sorted_in_order::<fuzzy::Scored>(all, k, l);
    assert(all[i].0 == file_words::found(prefix, words, mode)[k]);
    assert(all[j].0 == file_words::found(prefix, words, mode)[l]);
}

/// How much alike two texts are depends on their lengths and their longest common subsequence
/// alone, and two empty texts are fully alike.
pub proof fn law_likeness(a: Seq<char>, b: Seq<char>, c: Seq<char>, d: Seq<char>)
    ensures
        fuzzy::likeness(Seq::empty(), Seq::empty()) == double::rounded(100, 1, 0),
        a.len() + b.len() > 0 && a.len() + b.len() == c.len() + d.len() && fuzzy::lcs(a, b)
            == fuzzy::lcs(c, d) ==> fuzzy::likeness(a, b) == fuzzy::likeness(c, d),
        a.len() + b.len() > 0 ==> ({
            let part = double::rounded(fuzzy::lcs(a, b), 1, 0);
            let whole = double::rounded(a.len() + b.len(), 1, 0);
            let quotient = double::rounded(part.0, whole.0, part.1 + 1 - whole.1);
            fuzzy::likeness(a, b) == double::rounded(quotient.0 * 100, 1, quotient.1)
        }),
{
}

/// The name of an anonymous scope is shortened wherever it stands as a part of its own; a text that
/// cannot be searched stays as it is.
pub proof fn law_shortened(s: Seq<char>)
    ensures
        match pattern::regex_replaced(r"(^|:)(__anon[^:]+)(:|$)"@, s, "${1}__anon${3}"@) {
            Some(replaced) => ctags::shortened(s) == replaced,
            None => ctags::shortened(s) == s,
        },
{
}

/// A likeness that equals the threshold reaches it, one that is greater does too, and a threshold
/// that is no number is never reached.
pub proof fn law_threshold(threshold: fuzzy::Threshold, ratio: (nat, int))
    ensures
        threshold.denominator > 0 ==> ({
            let bound = double::rounded(
                threshold.numerator as nat,
                threshold.denominator as nat,
                0,
            );
            &&& fuzzy::reaches(bound, threshold)
            &&& double::greater(ratio, bound) ==> fuzzy::reaches(ratio, threshold)
            &&& double::greater(bound, ratio) ==> !fuzzy::reaches(ratio, threshold)
        }),
        threshold.denominator == 0 ==> !fuzzy::reaches(ratio, threshold),
{
}

} // verus!
