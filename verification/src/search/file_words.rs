//! File word search backend: the words of open files, found by prefix or by likeness.

use crate::json;
use crate::json::{Json, Jv};
use crate::search;
use crate::search::double::Double;
use crate::search::fuzzy;
use crate::search::fuzzy::{Scored, Threshold};
use crate::search::order;
use crate::search::pattern;
use crate::search::unicode;
use crate::table;
use crate::table::Table;
use crate::text;
use vstd::hash_set::StringHashSet;
use vstd::prelude::*;
use vstd::utf8::*;

verus! {

/// Word extraction regex: matches word-like tokens, with dashes and bars in them.
pub const WORD_PATTERN: &'static str = r"[\w|-]+";

// ---------------------------------------------------------------------------
// Words
// ---------------------------------------------------------------------------

/// Whether a token is worth keeping: more than three bytes, and not a number.
pub open spec fn is_word(token: Seq<char>) -> bool {
    search::bytes_of(token) > 3 && !text::all_digits(token)
}

/// Whether a character belongs to a word.
pub open spec fn in_word(c: char) -> bool {
    unicode::letter_or_number(c) || c == '-' || c == '_'
}

/// The token without what does not belong to a word.
pub open spec fn cleaned(token: Seq<char>) -> Seq<char> {
    token.filter(|c: char| in_word(c))
}

/// The words with one more at the end, if it is new.
pub open spec fn with_word(words: Seq<Seq<char>>, word: Seq<char>) -> Seq<Seq<char>> {
    if words.contains(word) {
        words
    } else {
        words.push(word)
    }
}

/// The words among the tokens, each once.
pub open spec fn words_among(tokens: Seq<Seq<char>>) -> Seq<Seq<char>>
    decreases tokens.len(),
{
    if tokens.len() == 0 {
        Seq::empty()
    } else {
        let before = words_among(tokens.drop_last());
        let token = tokens.last();
        if is_word(token) && cleaned(token).len() > 0 {
            with_word(before, cleaned(token))
        } else {
            before
        }
    }
}

/// The words of a text.
pub open spec fn words_of(content: Seq<char>) -> Seq<Seq<char>> {
    match pattern::regex_finds(WORD_PATTERN@, content) {
        Some(tokens) => words_among(tokens),
        None => Seq::empty(),
    }
}

fn clean(token: &str) -> (r: String)
    ensures
        r@ == cleaned(token@),
{
    let chars = text::to_chars(token);
    let ghost keep = |c: char| in_word(c);
    let mut r = String::new();
    let mut i: usize = 0;
    assert(token@.take(0).filter(keep) =~= Seq::<char>::empty()) by {
        reveal(Seq::filter);
    }
    while i < chars.len()
        invariant
            chars@ == token@,
            keep == (|c: char| in_word(c)),
            i <= chars@.len(),
            r@ == token@.take(i as int).filter(keep),
        decreases chars@.len() - i,
    {
        let c = chars[i];
        proof {
            let next = token@.take(i + 1);
            assert(next.drop_last() =~= token@.take(i as int));
            assert(next.last() == c);
            reveal(Seq::filter);
        }
        if unicode::is_alphanumeric(c) || c == '-' || c == '_' {
            r.push(c);
        }
        i = i + 1;
    }
    assert(token@.take(i as int) =~= token@);
    r
}

fn check_word(token: &str) -> (r: bool)
    ensures
        r == is_word(token@),
{
    let chars = text::to_chars(token);
    search::byte_len(token) > 3 && !text::check_digits(chars.as_slice())
}

/// Words with a set of them at hand.
struct Collected {
    words: Vec<String>,
    known: StringHashSet,
}

impl Collected {
    spec fn wf(self) -> bool {
        forall|w: Seq<char>|
            self.known@.contains(w) <==> #[trigger] text::texts(self.words@).contains(w)
    }

    fn new() -> (r: Self)
        ensures
            r.wf(),
            text::texts(r.words@) == Seq::<Seq<char>>::empty(),
    {
        let r = Collected { words: Vec::new(), known: StringHashSet::new() };
        assert(text::texts(r.words@) =~= Seq::<Seq<char>>::empty());
        r
    }

    fn add_word(&mut self, word: String)
        requires
            old(self).wf(),
        ensures
            final(self).wf(),
            text::texts(final(self).words@) == with_word(text::texts(old(self).words@), word@),
    {
        let ghost before = text::texts(self.words@);
        assert(self.known@.contains(word@) <==> before.contains(word@));
        if self.known.insert(word.clone()) {
            self.words.push(word);
            let ghost after = text::texts(self.words@);
            assert(after =~= before.push(word@));
            assert forall|w: Seq<char>| self.known@.contains(w) <==> #[trigger] after.contains(
                w,
            ) by {
                assert(before.contains(w) ==> after.contains(w)) by {
                    if before.contains(w) {
                        let i = choose|i: int| 0 <= i < before.len() && before[i] == w;
                        assert(after[i] == w);
                    }
                }
                assert(after[before.len() as int] == word@);
                assert(self.known@.contains(w) <==> before.contains(w) || w == word@) by {
                    assert(old(self).known@.contains(w) <==> before.contains(w));
                }
            }
        } else {
            assert(self.known@ =~= old(self).known@);
        }
    }
}

/// The words among the tokens, each once: more than three bytes, and not numbers.
pub fn collect_words(tokens: &Vec<String>) -> (r: Vec<String>)
    ensures
        text::texts(r@) == words_among(text::texts(tokens@)),
{
    let ghost all = text::texts(tokens@);
    let mut c = Collected::new();
    let mut i: usize = 0;
    assert(all.take(0) =~= Seq::<Seq<char>>::empty());
    while i < tokens.len()
        invariant
            all == text::texts(tokens@),
            i <= tokens@.len(),
            c.wf(),
            text::texts(c.words@) == words_among(all.take(i as int)),
        decreases tokens@.len() - i,
    {
        proof {
            assert(all.take(i + 1).drop_last() =~= all.take(i as int));
            assert(all.take(i + 1).last() == all[i as int]);
        }
        if check_word(tokens[i].as_str()) {
            let word = clean(tokens[i].as_str());
            if !word.as_str().is_empty() {
                c.add_word(word);
            }
        }
        i = i + 1;
    }
    assert(all.take(i as int) =~= all);
    c.words
}

/// Extract words from content using regex.
pub fn extract_words(content: &str) -> (r: Vec<String>)
    ensures
        text::texts(r@) == words_of(content@),
{
    match pattern::find_all(WORD_PATTERN, content) {
        Some(tokens) => collect_words(&tokens),
        None => {
            let r: Vec<String> = Vec::new();
            assert(text::texts(r@) =~= Seq::<Seq<char>>::empty());
            r
        },
    }
}

// ---------------------------------------------------------------------------
// Searching
// ---------------------------------------------------------------------------

/// Whether every character is a capital.
pub open spec fn all_capitals(s: Seq<char>) -> bool {
    forall|i: int| 0 <= i < s.len() ==> unicode::uppercase_letter(#[trigger] s[i])
}

/// What is left of a text behind its first `n` bytes, if a character ends there.
pub open spec fn behind_bytes(s: Seq<char>, n: int) -> Option<Seq<char>>
    decreases s.len(),
{
    if n == 0 {
        Some(s)
    } else if s.len() == 0 || encode_scalar(s[0] as u32).len() > n {
        None
    } else {
        behind_bytes(s.skip(1), n - encode_scalar(s[0] as u32).len())
    }
}

/// What a word completes a prefix to. A word that starts as the prefix does, in any case, is
/// taken: as capitals if the prefix is made of capitals, else with the prefix as it was given.
/// There is nothing if the word has no character that ends where the prefix ends.
pub open spec fn completed(prefix: Seq<char>, word: Seq<char>) -> Option<Seq<char>> {
    if text::starts_with(unicode::lowercase(word), unicode::lowercase(prefix)) {
        if all_capitals(prefix) {
            Some(unicode::uppercase(word))
        } else {
            match behind_bytes(word, search::bytes_of(prefix) as int) {
                Some(rest) => Some(prefix + rest),
                None => None,
            }
        }
    } else {
        None
    }
}

/// What the words complete a prefix to, in the order of the words.
pub open spec fn completions(prefix: Seq<char>, words: Seq<Seq<char>>) -> Seq<Seq<char>>
    decreases words.len(),
{
    if words.len() == 0 {
        Seq::empty()
    } else {
        let before = completions(prefix, words.drop_last());
        match completed(prefix, words.last()) {
            Some(s) => before.push(s),
            None => before,
        }
    }
}

/// The words that are alike enough to a text, in the order of the words, with their likeness.
pub open spec fn alike(prefix: Seq<char>, words: Seq<Seq<char>>, threshold: Threshold) -> Seq<
    (Seq<char>, (nat, int)),
>
    decreases words.len(),
{
    if words.len() == 0 {
        Seq::empty()
    } else {
        let before = alike(prefix, words.drop_last(), threshold);
        let ratio = fuzzy::likeness(
            unicode::lowercase(prefix),
            unicode::lowercase(words.last()),
        );
        if fuzzy::reaches(ratio, threshold) {
            before.push((words.last(), ratio))
        } else {
            before
        }
    }
}

/// The words of scored words.
pub open spec fn words_alone(s: Seq<(Seq<char>, (nat, int))>) -> Seq<Seq<char>> {
    Seq::new(s.len(), |i: int| s[i].0)
}

/// How words are searched.
pub struct Mode {
    pub fuzzy: bool,
    pub threshold: Threshold,
}

/// The words that a prefix leads to: by likeness, the most alike first, or by prefix, the shortest
/// first.
pub open spec fn found(prefix: Seq<char>, words: Seq<Seq<char>>, mode: Mode) -> Seq<Seq<char>> {
    if mode.fuzzy {
        words_alone(order::sorted::<Scored>(alike(prefix, words, mode.threshold)))
    } else {
        search::by_length(completions(prefix, words))
    }
}

/// What stands behind the last separator.
pub open spec fn last_piece(s: Seq<char>, separator: char) -> Seq<char>
    decreases s.len(),
{
    if s.len() == 0 || s.last() == separator {
        Seq::empty()
    } else {
        last_piece(s.drop_last(), separator).push(s.last())
    }
}

/// The texts with the same beginning in front of each.
pub open spec fn fronted(front: Seq<char>, s: Seq<Seq<char>>) -> Seq<Seq<char>> {
    Seq::new(s.len(), |i: int| front + s[i])
}

/// What was found, or, if that is nothing and the prefix has pieces, what the last piece leads to,
/// with the other pieces in front.
pub open spec fn found_or_piece(
    so_far: Seq<Seq<char>>,
    prefix: Seq<char>,
    words: Seq<Seq<char>>,
    mode: Mode,
    separator: char,
) -> Seq<Seq<char>> {
    if so_far.len() == 0 && prefix.contains(separator) && prefix.last() != separator {
        let piece = last_piece(prefix, separator);
        fronted(prefix.take(prefix.len() - piece.len()), found(piece, words, mode))
    } else {
        so_far
    }
}

/// All words that a prefix leads to.
pub open spec fn found_all(prefix: Seq<char>, words: Seq<Seq<char>>, mode: Mode) -> Seq<Seq<char>> {
    let whole = found(prefix, words, mode);
    let dashed = found_or_piece(whole, prefix, words, mode, '-');
    found_or_piece(dashed, prefix, words, mode, '_')
}

/// The candidates of the first words, at most so many.
pub open spec fn word_candidates(words: Seq<Seq<char>>, max_number: nat) -> Seq<Jv> {
    Seq::new(
        if words.len() <= max_number {
            words.len()
        } else {
            max_number
        },
        |i: int|
            search::candidate(words[i], "search"@, "Search Word"@, "search-file-words"@),
    )
}

fn check_capitals(s: &str) -> (r: bool)
    ensures
        r == all_capitals(s@),
{
    let chars = text::to_chars(s);
    let mut i: usize = 0;
    while i < chars.len()
        invariant
            chars@ == s@,
            i <= chars@.len(),
            forall|j: int| 0 <= j < i ==> unicode::uppercase_letter(#[trigger] chars@[j]),
        decreases chars@.len() - i,
    {
        if !unicode::is_uppercase(chars[i]) {
            return false;
        }
        i = i + 1;
    }
    true
}

fn skip_bytes(s: &str, n: usize) -> (r: Option<String>)
    ensures
        match behind_bytes(s@, n as int) {
            Some(rest) => r is Some && (r->0)@ == rest,
            None => r is None,
        },
{
    let chars = text::to_chars(s);
    let mut i: usize = 0;
    let mut left: usize = n;
    assert(s@.skip(0) =~= s@);
    while left > 0
        invariant
            chars@ == s@,
            i <= chars@.len(),
            behind_bytes(s@, n as int) == behind_bytes(s@.skip(i as int), left as int),
        decreases chars@.len() - i,
    {
        if i >= chars.len() {
            return None;
        }
        assert(s@.skip(i as int)[0] == s@[i as int]);
        let width: usize = text::utf8_width(chars[i]);
        if width > left {
            return None;
        }
        assert(s@.skip(i as int).skip(1) =~= s@.skip(i + 1));
        left = left - width;
        i = i + 1;
    }
    let rest = vstd::slice::slice_subrange(chars.as_slice(), i, chars.len());
    assert(rest@ =~= s@.skip(i as int));
    Some(text::from_chars(rest))
}

/// What a word completes a prefix to.
pub fn complete_word(prefix: &str, word: &str) -> (r: Option<String>)
    ensures
        match completed(prefix@, word@) {
            Some(s) => r is Some && (r->0)@ == s,
            None => r is None,
        },
{
    let prefix_lower = unicode::to_lowercase(prefix);
    let word_lower = unicode::to_lowercase(word);
    if !search::begins(word_lower.as_str(), prefix_lower.as_str()) {
        return None;
    }
    if check_capitals(prefix) {
        return Some(unicode::to_uppercase(word));
    }
    match skip_bytes(word, search::byte_len(prefix)) {
        Some(rest) => Some(text::concat(prefix, rest.as_str())),
        None => None,
    }
}

fn by_prefix(prefix: &str, words: &Vec<String>) -> (r: Vec<String>)
    ensures
        text::texts(r@) == search::by_length(completions(prefix@, text::texts(words@))),
{
    let ghost all = text::texts(words@);
    let mut r: Vec<String> = Vec::new();
    let mut i: usize = 0;
    assert(all.take(0) =~= Seq::<Seq<char>>::empty());
    assert(text::texts(r@) =~= Seq::<Seq<char>>::empty());
    while i < words.len()
        invariant
            all == text::texts(words@),
            i <= words@.len(),
            text::texts(r@) == completions(prefix@, all.take(i as int)),
        decreases words@.len() - i,
    {
        proof {
            assert(all.take(i + 1).drop_last() =~= all.take(i as int));
            assert(all.take(i + 1).last() == all[i as int]);
        }
        match complete_word(prefix, words[i].as_str()) {
            Some(s) => {
                let ghost before = text::texts(r@);
                r.push(s);
                assert(text::texts(r@) =~= before.push(s@));
            },
            None => {},
        }
        i = i + 1;
    }
    assert(all.take(i as int) =~= all);
    search::sort_by_length(r)
}

fn by_likeness(prefix: &str, words: &Vec<String>, threshold: &Threshold) -> (r: Vec<String>)
    ensures
        text::texts(r@) == words_alone(
            order::sorted::<Scored>(alike(prefix@, text::texts(words@), *threshold)),
        ),
{
    let ghost all = text::texts(words@);
    let prefix_lower = unicode::to_lowercase(prefix);
    let mut scored: Vec<Scored> = Vec::new();
    let mut i: usize = 0;
    assert(all.take(0) =~= Seq::<Seq<char>>::empty());
    assert(order::views(scored@) =~= Seq::<(Seq<char>, (nat, int))>::empty());
    while i < words.len()
        invariant
            all == text::texts(words@),
            prefix_lower@ == unicode::lowercase(prefix@),
            i <= words@.len(),
            order::views(scored@) == alike(prefix@, all.take(i as int), *threshold),
        decreases words@.len() - i,
    {
        proof {
            assert(all.take(i + 1).drop_last() =~= all.take(i as int));
            assert(all.take(i + 1).last() == all[i as int]);
        }
        let word_lower = unicode::to_lowercase(words[i].as_str());
        let ratio: Double = fuzzy::fuzzy_ratio(prefix_lower.as_str(), word_lower.as_str());
        if fuzzy::at_least(&ratio, threshold) {
            let ghost before = order::views(scored@);
            scored.push(Scored { word: words[i].clone(), ratio });
            assert(order::views(scored@) =~= before.push((all[i as int], ratio@)));
        }
        i = i + 1;
    }
    assert(all.take(i as int) =~= all);
    let places = order::order(&scored);
    let ghost s = order::views(scored@);
    let mut r: Vec<String> = Vec::new();
    let mut k: usize = 0;
    while k < places.len()
        invariant
            s == order::views(scored@),
            k <= places@.len(),
            r@.len() == k,
            forall|j: int| 0 <= j < places@.len() ==> #[trigger] places@[j] < scored@.len(),
            forall|j: int| 0 <= j < k ==> (#[trigger] r@[j])@ == s[places@[j] as int].0,
        decreases places@.len() - k,
    {
        r.push(scored[places[k]].word.clone());
        k = k + 1;
    }
    assert(text::texts(r@) =~= words_alone(order::sorted::<Scored>(s)));
    r
}

/// The words of one file.
#[derive(Debug)]
pub struct Words {
    pub words: Vec<String>,
}

impl View for Words {
    type V = Seq<Seq<char>>;

    open spec fn view(&self) -> Seq<Seq<char>> {
        text::texts(self.words@)
    }
}

/// The words with more of them, each once.
pub open spec fn with_words(words: Seq<Seq<char>>, more: Seq<Seq<char>>) -> Seq<Seq<char>>
    decreases more.len(),
{
    if more.len() == 0 {
        words
    } else {
        with_word(with_words(words, more.drop_last()), more.last())
    }
}

/// The words of all files, each once.
pub open spec fn all_words(files: Seq<(Seq<char>, Seq<Seq<char>>)>) -> Seq<Seq<char>>
    decreases files.len(),
{
    if files.len() == 0 {
        Seq::empty()
    } else {
        with_words(all_words(files.drop_last()), files.last().1)
    }
}

/// A file to index: its path, and its text if it could be read.
#[derive(Debug)]
pub struct LoadedFile {
    pub filepath: String,
    pub content: Option<String>,
}

/// The files with the words of a text under a path.
pub open spec fn indexed(
    files: Seq<(Seq<char>, Seq<Seq<char>>)>,
    filepath: Seq<char>,
    content: Seq<char>,
) -> Seq<(Seq<char>, Seq<Seq<char>>)> {
    table::put(files, filepath, words_of(content))
}

/// The files with those that are new and could be read.
pub open spec fn indexed_all(
    files: Seq<(Seq<char>, Seq<Seq<char>>)>,
    loaded: Seq<LoadedFile>,
) -> Seq<(Seq<char>, Seq<Seq<char>>)>
    decreases loaded.len(),
{
    if loaded.len() == 0 {
        files
    } else {
        let before = indexed_all(files, loaded.drop_last());
        let file = loaded.last();
        match file.content {
            Some(content) => if table::lookup(before, file.filepath@) is None {
                indexed(before, file.filepath@, content@)
            } else {
                before
            },
            None => before,
        }
    }
}

/// Search file words backend.
pub struct SearchFileWords {
    /// Per-file words.
    pub files: Table<Words>,
    /// Configuration.
    pub max_number: usize,
    pub fuzzy_match: bool,
    pub fuzzy_threshold: Threshold,
}

impl SearchFileWords {
    /// The words of each file.
    pub open spec fn indexed_files(self) -> Seq<(Seq<char>, Seq<Seq<char>>)> {
        self.files@
    }

    /// How words are searched.
    pub open spec fn mode(self) -> Mode {
        Mode { fuzzy: self.fuzzy_match, threshold: self.fuzzy_threshold }
    }

    pub fn new(max_number: usize, fuzzy_match: bool, fuzzy_threshold: Threshold) -> (r: Self)
        ensures
            r.indexed_files() == Seq::<(Seq<char>, Seq<Seq<char>>)>::empty(),
            r.max_number == max_number,
            r.fuzzy_match == fuzzy_match,
            r.fuzzy_threshold == fuzzy_threshold,
    {
        SearchFileWords { files: Table::new(), max_number, fuzzy_match, fuzzy_threshold }
    }

    /// Index a file's content, extracting words.
    pub fn index_file(&mut self, filepath: &str, content: &str)
        ensures
            final(self).indexed_files() == indexed(
                old(self).indexed_files(),
                filepath@,
                content@,
            ),
            final(self).mode() == old(self).mode(),
            final(self).max_number == old(self).max_number,
    {
        let words = Words { words: extract_words(content) };
        self.files.insert(filepath.to_string(), words);
    }

    /// Index a file with what was read from disk, if it could be read.
    pub fn load_file(&mut self, filepath: &str, content: Option<&str>)
        ensures
            final(self).indexed_files() == (match content {
                Some(content) => indexed(old(self).indexed_files(), filepath@, content@),
                None => old(self).indexed_files(),
            }),
            final(self).mode() == old(self).mode(),
            final(self).max_number == old(self).max_number,
    {
        match content {
            Some(content) => self.index_file(filepath, content),
            None => {},
        }
    }

    /// Whether a file is indexed.
    pub fn is_indexed(&self, filepath: &str) -> (r: bool)
        ensures
            r == table::lookup(self.indexed_files(), filepath@) is Some,
    {
        self.files.contains_key(filepath)
    }

    /// Index multiple files: those that are not indexed yet.
    pub fn index_files(&mut self, loaded: &Vec<LoadedFile>)
        ensures
            final(self).indexed_files() == indexed_all(old(self).indexed_files(), loaded@),
            final(self).mode() == old(self).mode(),
            final(self).max_number == old(self).max_number,
    {
        let mut i: usize = 0;
        assert(loaded@.take(0) =~= Seq::<LoadedFile>::empty());
        while i < loaded.len()
            invariant
                i <= loaded@.len(),
                self.indexed_files() == indexed_all(
                    old(self).indexed_files(),
                    loaded@.take(i as int),
                ),
                self.mode() == old(self).mode(),
                self.max_number == old(self).max_number,
            decreases loaded@.len() - i,
        {
            proof {
                assert(loaded@.take(i + 1).drop_last() =~= loaded@.take(i as int));
                assert(loaded@.take(i + 1).last() == loaded@[i as int]);
            }
            let file = &loaded[i];
            if !self.is_indexed(file.filepath.as_str()) {
                match &file.content {
                    Some(content) => self.index_file(file.filepath.as_str(), content.as_str()),
                    None => {},
                }
            }
            i = i + 1;
        }
        assert(loaded@.take(i as int) =~= loaded@);
    }

    /// Close a file, removing its words.
    pub fn close_file(&mut self, filepath: &str)
        ensures
            final(self).indexed_files() == table::removed(old(self).indexed_files(), filepath@),
            final(self).mode() == old(self).mode(),
            final(self).max_number == old(self).max_number,
    {
        let _ = self.files.remove(filepath);
    }

    fn words(&self) -> (r: Vec<String>)
        ensures
            text::texts(r@) == all_words(self.indexed_files()),
    {
        let ghost all = self.files@;
        let mut c = Collected::new();
        let mut i: usize = 0;
        assert(all.take(0) =~= Seq::<(Seq<char>, Seq<Seq<char>>)>::empty());
        while i < self.files.len()
            invariant
                all == self.files@,
                i <= all.len(),
                c.wf(),
                text::texts(c.words@) == all_words(all.take(i as int)),
            decreases all.len() - i,
        {
            let (_, file) = self.files.entry(i);
            let ghost more = file@;
            let ghost before = text::texts(c.words@);
            let mut k: usize = 0;
            assert(more.take(0) =~= Seq::<Seq<char>>::empty());
            while k < file.words.len()
                invariant
                    more == file@,
                    k <= file.words@.len(),
                    c.wf(),
                    text::texts(c.words@) == with_words(before, more.take(k as int)),
                decreases file.words@.len() - k,
            {
                proof {
                    assert(more.take(k + 1).drop_last() =~= more.take(k as int));
                    assert(more.take(k + 1).last() == more[k as int]);
                }
                c.add_word(file.words[k].clone());
                k = k + 1;
            }
            proof {
                assert(more.take(k as int) =~= more);
                assert(all.take(i + 1).drop_last() =~= all.take(i as int));
                assert(all.take(i + 1).last() == all[i as int]);
            }
            i = i + 1;
        }
        assert(all.take(i as int) =~= all);
        c.words
    }

    /// Search words by prefix or fuzzy match.
    pub fn search_word(&self, prefix: &str, words: &Vec<String>) -> (r: Vec<String>)
        ensures
            text::texts(r@) == found(prefix@, text::texts(words@), self.mode()),
    {
        if self.fuzzy_match {
            by_likeness(prefix, words, &self.fuzzy_threshold)
        } else {
            by_prefix(prefix, words)
        }
    }

    fn or_piece(
        &self,
        so_far: Vec<String>,
        prefix: &str,
        words: &Vec<String>,
        separator: char,
    ) -> (r: Vec<String>)
        ensures
            text::texts(r@) == found_or_piece(
                text::texts(so_far@),
                prefix@,
                text::texts(words@),
                self.mode(),
                separator,
            ),
    {
        if so_far.len() > 0 {
            return so_far;
        }
        let chars = text::to_chars(prefix);
        let n: usize = chars.len();
        let mut i: usize = n;
        while i > 0 && chars[i - 1] != separator
            invariant
                chars@ == prefix@,
                i <= n == chars@.len(),
                forall|j: int| i <= j < n ==> chars@[j] != separator,
            decreases i,
        {
            i = i - 1;
        }
        if i == 0 {
            assert(!prefix@.contains(separator));
            return so_far;
        }
        assert(prefix@[i - 1] == separator);
        if i == n {
            return so_far;
        }
        proof {
            lemma_last_piece(prefix@, separator, i as int);
        }
        let piece = text::from_chars(vstd::slice::slice_subrange(chars.as_slice(), i, n));
        let front = text::from_chars(vstd::slice::slice_subrange(chars.as_slice(), 0, i));
        assert(piece@ =~= prefix@.skip(i as int));
        assert(front@ =~= prefix@.take(i as int));
        let sub = self.search_word(piece.as_str(), words);
        let ghost all = text::texts(sub@);
        let mut r: Vec<String> = Vec::new();
        let mut k: usize = 0;
        while k < sub.len()
            invariant
                all == text::texts(sub@),
                k <= sub@.len(),
                r@.len() == k,
                forall|j: int| 0 <= j < k ==> (#[trigger] r@[j])@ == front@ + all[j],
            decreases sub@.len() - k,
        {
            r.push(text::concat(front.as_str(), sub[k].as_str()));
            k = k + 1;
        }
        assert(text::texts(r@) =~= fronted(front@, all));
        r
    }

    /// Search for words matching the prefix.
    ///
    /// Returns candidate objects: `{"key": word, "icon": "search", "label": word, ...}`
    pub fn search(&self, prefix: &str) -> (r: Vec<Json>)
        ensures
            json::models(r@) == word_candidates(
                found_all(prefix@, all_words(self.indexed_files()), self.mode()),
                self.max_number as nat,
            ),
    {
        let words = self.words();
        let whole = self.search_word(prefix, &words);
        let dashed = self.or_piece(whole, prefix, &words, '-');
        let found = self.or_piece(dashed, prefix, &words, '_');
        let ghost all = text::texts(found@);
        let ghost out = word_candidates(all, self.max_number as nat);
        let mut r: Vec<Json> = Vec::new();
        let mut i: usize = 0;
        while i < found.len() && i < self.max_number
            invariant
                all == text::texts(found@),
                out == word_candidates(all, self.max_number as nat),
                i <= found@.len(),
                i <= self.max_number,
                r@.len() == i,
                forall|j: int| 0 <= j < i ==> (#[trigger] r@[j])@ == out[j],
            decreases found@.len() - i,
        {
            let word = found[i].as_str();
            r.push(search::make_candidate(word, "search", "Search Word", "search-file-words"));
            i = i + 1;
        }
        assert(json::models(r@) =~= out);
        r
    }
}

proof fn lemma_last_piece(s: Seq<char>, separator: char, i: int)
    requires
        0 < i <= s.len(),
        s[i - 1] == separator,
        forall|j: int| i <= j < s.len() ==> s[j] != separator,
    ensures
        last_piece(s, separator) == s.skip(i),
    decreases s.len(),
{
    if s.len() > i {
        lemma_last_piece(s.drop_last(), separator, i);
        assert(s.drop_last().skip(i).push(s.last()) =~= s.skip(i));
    } else {
        assert(s.skip(i) =~= Seq::<char>::empty());
    }
}

proof fn lemma_with_word(words: Seq<Seq<char>>, word: Seq<char>, other: Seq<char>)
    ensures
        with_word(words, word).contains(other) <==> words.contains(other) || other == word,
        words.no_duplicates() ==> with_word(words, word).no_duplicates(),
{
    let after = with_word(words, word);
    if !words.contains(word) {
        assert(after[words.len() as int] == word);
        if words.contains(other) {
            let i = choose|i: int| 0 <= i < words.len() && words[i] == other;
            assert(after[i] == other);
        }
        if words.no_duplicates() {
            assert forall|i: int, j: int|
                0 <= i < after.len() && 0 <= j < after.len() && i != j implies after[i]
                != after[j] by {
                if i == words.len() {
                    assert(words[j] != word);
                } else if j == words.len() {
                    assert(words[i] != word);
                }
            }
        }
    }
}

proof fn lemma_with_words(words: Seq<Seq<char>>, more: Seq<Seq<char>>, other: Seq<char>)
    ensures
        with_words(words, more).contains(other) <==> words.contains(other) || more.contains(other),
        words.no_duplicates() ==> with_words(words, more).no_duplicates(),
    decreases more.len(),
{
    if more.len() > 0 {
        lemma_with_words(words, more.drop_last(), other);
        lemma_with_word(with_words(words, more.drop_last()), more.last(), other);
        assert(more.contains(other) <==> more.drop_last().contains(other) || other
            == more.last()) by {
            if more.contains(other) && other != more.last() {
                let i = choose|i: int| 0 <= i < more.len() && more[i] == other;
                assert(more.drop_last()[i] == other);
            }
            if more.drop_last().contains(other) {
                let i = choose|i: int|
                    0 <= i < more.drop_last().len() && more.drop_last()[i] == other;
                assert(more[i] == other);
            }
            assert(more[more.len() - 1] == more.last());
        }
    }
}

/// A text is among the words of a file exactly if one of its tokens is a word that cleans to it;
/// no word occurs twice, and none is empty.
pub proof fn law_words_among(tokens: Seq<Seq<char>>, word: Seq<char>)
    ensures
        words_among(tokens).contains(word) <==> word.len() > 0 && exists|i: int|
            0 <= i < tokens.len() && is_word(#[trigger] tokens[i]) && cleaned(tokens[i]) == word,
        words_among(tokens).no_duplicates(),
    decreases tokens.len(),
{
    if tokens.len() > 0 {
        let rest = tokens.drop_last();
        let token = tokens.last();
        law_words_among(rest, word);
        lemma_with_word(words_among(rest), cleaned(token), word);
        if words_among(rest).contains(word) {
            let i = choose|i: int|
                0 <= i < rest.len() && is_word(#[trigger] rest[i]) && cleaned(rest[i]) == word;
            assert(is_word(tokens[i]) && cleaned(tokens[i]) == word);
        }
        if word.len() > 0 && exists|i: int|
            0 <= i < tokens.len() && is_word(#[trigger] tokens[i]) && cleaned(tokens[i]) == word {
            let i = choose|i: int|
                0 <= i < tokens.len() && is_word(#[trigger] tokens[i]) && cleaned(tokens[i])
                    == word;
            if i < rest.len() {
                assert(is_word(rest[i]) && cleaned(rest[i]) == word);
            }
        }
    }
}

/// What is searched are the words of the files that are indexed, and no others; each once.
pub proof fn law_words_of_files(files: Seq<(Seq<char>, Seq<Seq<char>>)>, word: Seq<char>)
    ensures
        all_words(files).contains(word) <==> exists|i: int|
            0 <= i < files.len() && (#[trigger] files[i]).1.contains(word),
        all_words(files).no_duplicates(),
    decreases files.len(),
{
    if files.len() > 0 {
        let rest = files.drop_last();
        law_words_of_files(rest, word);
        lemma_with_words(all_words(rest), files.last().1, word);
        if all_words(rest).contains(word) {
            let i = choose|i: int| 0 <= i < rest.len() && (#[trigger] rest[i]).1.contains(word);
            assert(files[i].1.contains(word));
        }
        if exists|i: int| 0 <= i < files.len() && (#[trigger] files[i]).1.contains(word) {
            let i = choose|i: int| 0 <= i < files.len() && (#[trigger] files[i]).1.contains(word);
            if i < rest.len() {
                assert(rest[i].1.contains(word));
            }
        }
    }
}

/// A file that was closed is not indexed any more; the others stay as they are.
pub proof fn law_closed_file_forgotten(
    files: Seq<(Seq<char>, Seq<Seq<char>>)>,
    filepath: Seq<char>,
    other: Seq<char>,
)
    requires
        table::keys_distinct(files),
    ensures
        table::lookup(table::removed(files, filepath), other) == (if other == filepath {
            None
        } else {
            table::lookup(files, other)
        }),
{
    table::law_lookup_removed(files, filepath, other);
}

/// Whatever is searched for, no more candidates come back than are wanted.
pub proof fn law_candidates_bounded(words: Seq<Seq<char>>, max_number: nat)
    ensures
        word_candidates(words, max_number).len() <= max_number,
{
}

} // verus!
