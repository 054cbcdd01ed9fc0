//! Ctags integration: what to ask `readtags`, and what its output says.

use crate::handlers;
use crate::json;
use crate::json::{Json, Jv};
use crate::search;
use crate::search::pattern;
use crate::text;
use vstd::prelude::*;

verus! {

/// Default filter expression for readtags.
pub const DEFAULT_FILTER: &'static str = r#"(not (or (and $extras ((string->regexp "(^|,) ?(anonymous|reference)(,|$)" :case-fold false) $extras)) (or (and $extras ((string->regexp "(^|,) ?(inputFile)(,|$)" :case-fold false) $extras)) (and $kind ((string->regexp "^(file|F)$" :case-fold false) $kind))) false))"#;

/// Default sorter expression for readtags.
pub const DEFAULT_SORTER: &'static str = r#"(<or> (if (and $name &name) (<> (length $name) (length &name)) 0) (if (and $name &name) (<> $name &name) 0))"#;

/// Matches the name of an anonymous scope.
pub const ANON_PATTERN: &'static str = r"(^|:)(__anon[^:]+)(:|$)";

/// What the name of an anonymous scope is shortened to.
pub const ANON_REPLACEMENT: &'static str = "${1}__anon${3}";

// ---------------------------------------------------------------------------
// Splitting
// ---------------------------------------------------------------------------

/// What stands before and behind the first separator.
pub open spec fn split_once(s: Seq<char>, separator: char) -> Option<(Seq<char>, Seq<char>)> {
    match s.index_of_first(separator) {
        Some(i) => Some((s.take(i), s.skip(i + 1))),
        None => None,
    }
}

/// The pieces between the separators.
pub open spec fn pieces(s: Seq<char>, separator: char) -> Seq<Seq<char>>
    decreases s.len(),
{
    if s.len() == 0 {
        seq![Seq::empty()]
    } else {
        let before = pieces(s.drop_last(), separator);
        if s.last() == separator {
            before.push(Seq::empty())
        } else {
            before.drop_last().push(before.last().push(s.last()))
        }
    }
}

/// Where the last mark stands that separates a tag from what is added to it: a semicolon and a
/// quotation mark.
pub open spec fn last_mark(s: Seq<char>) -> Option<int>
    decreases s.len(),
{
    if s.len() < 2 {
        None
    } else if s[s.len() - 2] == ';' && s[s.len() - 1] == '"' {
        Some(s.len() - 2)
    } else {
        last_mark(s.drop_last())
    }
}

fn split_first(s: &[char], separator: char) -> (r: Option<(&[char], &[char])>)
    ensures
        match split_once(s@, separator) {
            Some(parts) => r is Some && (r->0).0@ == parts.0 && (r->0).1@ == parts.1,
            None => r is None,
        },
{
    proof {
        s@.index_of_first_ensures(separator);
    }
    let mut i: usize = 0;
    while i < s.len()
        invariant
            i <= s@.len(),
            forall|j: int| 0 <= j < i ==> s@[j] != separator,
        decreases s@.len() - i,
    {
        if s[i] == separator {
            proof {
                s@.index_of_first_ensures(separator);
                assert(s@.contains(separator));
                assert(s@.index_of_first(separator) == Some(i as int));
            }
            let before = vstd::slice::slice_subrange(s, 0, i);
            let behind = vstd::slice::slice_subrange(s, i + 1, s.len());
            assert(before@ =~= s@.take(i as int));
            assert(behind@ =~= s@.skip(i + 1));
            return Some((before, behind));
        }
        i = i + 1;
    }
    None
}

fn split_all(s: &[char], separator: char) -> (r: Vec<String>)
    ensures
        text::texts(r@) == pieces(s@, separator),
{
    let mut done: Vec<String> = Vec::new();
    let mut current = String::new();
    let mut i: usize = 0;
    assert(s@.take(0) =~= Seq::<char>::empty());
    assert(text::texts(done@) =~= Seq::<Seq<char>>::empty());
    assert(current@ =~= Seq::<char>::empty());
    while i < s.len()
        invariant
            i <= s@.len(),
            text::texts(done@).push(current@) == pieces(s@.take(i as int), separator),
        decreases s@.len() - i,
    {
        let ghost before = text::texts(done@).push(current@);
        proof {
            assert(s@.take(i + 1).drop_last() =~= s@.take(i as int));
            assert(s@.take(i + 1).last() == s@[i as int]);
            assert(before.drop_last() =~= text::texts(done@));
        }
        if s[i] == separator {
            done.push(current);
            assert(text::texts(done@) =~= before);
            current = String::new();
            assert(current@ =~= Seq::<char>::empty());
        } else {
            current.push(s[i]);
        }
        i = i + 1;
    }
    assert(s@.take(i as int) =~= s@);
    let ghost all = text::texts(done@).push(current@);
    done.push(current);
    assert(text::texts(done@) =~= all);
    done
}

fn find_last_mark(s: &[char]) -> (r: Option<usize>)
    ensures
        match last_mark(s@) {
            Some(i) => r is Some && r->0 == i && i + 2 <= s@.len(),
            None => r is None,
        },
{
    let mut n: usize = s.len();
    assert(s@.take(n as int) =~= s@);
    while n >= 2
        invariant
            n <= s@.len(),
            last_mark(s@) == last_mark(s@.take(n as int)),
        decreases n,
    {
        let ghost part = s@.take(n as int);
        assert(part[n - 2] == s@[n - 2] && part[n - 1] == s@[n - 1]);
        if s[n - 2] == ';' && s[n - 1] == '"' {
            return Some(n - 2);
        }
        assert(part.drop_last() =~= s@.take(n - 1));
        n = n - 1;
    }
    None
}

// ---------------------------------------------------------------------------
// Tags
// ---------------------------------------------------------------------------

/// Parsed tag information.
#[derive(Debug, PartialEq, Eq)]
pub struct TagInfo {
    pub name: String,
    pub file: String,
    pub address: String,
    pub kind: String,
    pub typeref: String,
    pub scope: String,
    pub extras: String,
}

/// The mathematical value of a [`TagInfo`].
pub struct Tag {
    pub name: Seq<char>,
    pub file: Seq<char>,
    pub address: Seq<char>,
    pub kind: Seq<char>,
    pub typeref: Seq<char>,
    pub scope: Seq<char>,
    pub extras: Seq<char>,
}

impl View for TagInfo {
    type V = Tag;

    open spec fn view(&self) -> Tag {
        Tag {
            name: self.name@,
            file: self.file@,
            address: self.address@,
            kind: self.kind@,
            typeref: self.typeref@,
            scope: self.scope@,
            extras: self.extras@,
        }
    }
}

/// The tag with what a further field says of it: a key and a value, or the kind alone.
pub open spec fn with_field(tag: Tag, field: Seq<char>) -> Tag {
    match split_once(field, ':') {
        Some((key, value)) => if key == "kind"@ {
            Tag { kind: value, ..tag }
        } else if key == "typeref"@ {
            Tag { typeref: value, ..tag }
        } else if key == "scope"@ {
            Tag { scope: value, ..tag }
        } else if key == "extras"@ {
            Tag { extras: value, ..tag }
        } else {
            tag
        },
        None => if field.len() > 0 {
            Tag { kind: field, ..tag }
        } else {
            tag
        },
    }
}

/// The tag with what further fields say of it, one after the other.
pub open spec fn with_fields(tag: Tag, fields: Seq<Seq<char>>) -> Tag
    decreases fields.len(),
{
    if fields.len() == 0 {
        tag
    } else {
        with_field(with_fields(tag, fields.drop_last()), fields.last())
    }
}

/// The tag that the first part of a line holds: name, file and address.
pub open spec fn bare_tag(part: Seq<char>) -> Option<Tag> {
    match split_once(part, '\t') {
        Some((name, rest)) => match split_once(rest, '\t') {
            Some((file, address)) => Some(
                Tag {
                    name,
                    file,
                    address,
                    kind: Seq::empty(),
                    typeref: Seq::empty(),
                    scope: Seq::empty(),
                    extras: Seq::empty(),
                },
            ),
            None => None,
        },
        None => None,
    }
}

/// The tag that a line holds.
pub open spec fn tag_of(line: Seq<char>) -> Option<Tag> {
    match last_mark(line) {
        Some(i) => match bare_tag(line.take(i)) {
            Some(tag) => Some(with_fields(tag, pieces(line.skip(i + 2), '\t').skip(1))),
            None => None,
        },
        None => bare_tag(line),
    }
}

fn read_bare_tag(part: &[char]) -> (r: Option<TagInfo>)
    ensures
        match bare_tag(part@) {
            Some(tag) => r is Some && (r->0)@ == tag,
            None => r is None,
        },
{
    match split_first(part, '\t') {
        Some((name, rest)) => match split_first(rest, '\t') {
            Some((file, address)) => {
                let r = TagInfo {
                    name: text::from_chars(name),
                    file: text::from_chars(file),
                    address: text::from_chars(address),
                    kind: String::new(),
                    typeref: String::new(),
                    scope: String::new(),
                    extras: String::new(),
                };
                assert(r.kind@ =~= Seq::<char>::empty());
                Some(r)
            },
            None => None,
        },
        None => None,
    }
}

fn read_field(tag: &mut TagInfo, field: &str)
    ensures
        final(tag)@ == with_field(old(tag)@, field@),
{
    let chars = text::to_chars(field);
    match split_first(chars.as_slice(), ':') {
        Some((key_part, value_part)) => {
            let key = text::from_chars(key_part);
            let value = text::from_chars(value_part);
            if text::str_eq(key.as_str(), "kind") {
                tag.kind = value;
            } else if text::str_eq(key.as_str(), "typeref") {
                tag.typeref = value;
            } else if text::str_eq(key.as_str(), "scope") {
                tag.scope = value;
            } else if text::str_eq(key.as_str(), "extras") {
                tag.extras = value;
            }
        },
        None => {
            if chars.len() > 0 {
                tag.kind = field.to_string();
            }
        },
    }
}

/// Parse a ctags output line into tag fields.
pub fn parse_tag_line(line: &str) -> (r: Option<TagInfo>)
    ensures
        match tag_of(line@) {
            Some(tag) => r is Some && (r->0)@ == tag,
            None => r is None,
        },
{
    let chars = text::to_chars(line);
    let all = chars.as_slice();
    match find_last_mark(all) {
        Some(i) => {
            let main_part = vstd::slice::slice_subrange(all, 0, i);
            assert(main_part@ =~= line@.take(i as int));
            let mut tag = match read_bare_tag(main_part) {
                Some(tag) => tag,
                None => return None,
            };
            let n: usize = all.len();
            let extra = vstd::slice::slice_subrange(all, i + 2, n);
            assert(extra@ =~= line@.skip(i + 2));
            let fields = split_all(extra, '\t');
            let ghost parts = text::texts(fields@).skip(1);
            let ghost start = tag@;
            proof {
                lemma_some_piece(extra@, '\t');
            }
            let mut k: usize = 1;
            assert(parts.take(0) =~= Seq::<Seq<char>>::empty());
            while k < fields.len()
                invariant
                    1 <= k <= fields@.len(),
                    parts == text::texts(fields@).skip(1),
                    tag@ == with_fields(start, parts.take(k - 1)),
                decreases fields@.len() - k,
            {
                proof {
                    assert(parts.take(k as int).drop_last() =~= parts.take(k - 1));
                    assert(parts.take(k as int).last() == fields@[k as int]@);
                }
                read_field(&mut tag, fields[k].as_str());
                k = k + 1;
            }
            assert(parts.take(k - 1) =~= parts);
            Some(tag)
        },
        None => read_bare_tag(all),
    }
}

proof fn lemma_some_piece(s: Seq<char>, separator: char)
    ensures
        pieces(s, separator).len() >= 1,
    decreases s.len(),
{
    if s.len() > 0 {
        lemma_some_piece(s.drop_last(), separator);
    }
}

// ---------------------------------------------------------------------------
// Annotations
// ---------------------------------------------------------------------------

/// The text with the names of anonymous scopes shortened.
pub open spec fn shortened(s: Seq<char>) -> Seq<char> {
    match pattern::regex_replaced(ANON_PATTERN@, s, ANON_REPLACEMENT@) {
        Some(replaced) => replaced,
        None => s,
    }
}

/// The type of a tag without the word that says so.
pub open spec fn bare_type(typeref: Seq<char>) -> Seq<char> {
    if text::starts_with(typeref, "typename:"@) {
        typeref.skip("typename:"@.len() as int)
    } else {
        typeref
    }
}

/// The annotation that is made of the parts.
pub open spec fn annotation_of(
    kind: Seq<char>,
    extras: Seq<char>,
    typeref: Seq<char>,
    scope: Seq<char>,
) -> Seq<char> {
    let reference = if text::occurs(extras, "reference"@) {
        "<R>"@
    } else {
        ""@
    };
    let separator = if kind.len() > 0 && typeref.len() > 0 {
        "/"@
    } else {
        ""@
    };
    let at = if scope.len() > 0 {
        "@"@
    } else {
        ""@
    };
    reference + kind + separator + typeref + at + scope
}

/// The annotation of a tag.
pub open spec fn tag_annotation(tag: Tag) -> Seq<char> {
    annotation_of(tag.kind, tag.extras, shortened(bare_type(tag.typeref)), shortened(tag.scope))
}

/// The candidate for a tag.
pub open spec fn tag_candidate(tag: Tag) -> Jv {
    search::candidate(
        tag.name,
        if tag.kind.len() == 0 {
            "text"@
        } else {
            tag.kind
        },
        tag_annotation(tag),
        "ctags"@,
    )
}

/// Where a tag is defined.
pub open spec fn tag_definition(tag: Tag) -> Jv {
    handlers::obj(
        seq![
            ("name"@, Jv::Str(tag.name)),
            ("file"@, Jv::Str(tag.file)),
            ("address"@, Jv::Str(tag.address)),
            ("annotation"@, Jv::Str(tag_annotation(tag))),
        ],
    )
}

/// The annotation that is made of the parts.
pub fn make_annotation(kind: &str, extras: &str, typeref: &str, scope: &str) -> (r: String)
    ensures
        r@ == annotation_of(kind@, extras@, typeref@, scope@),
{
    let extra_chars = text::to_chars(extras);
    let word = text::to_chars("reference");
    let reference: &str = if text::contains(extra_chars.as_slice(), word.as_slice()) {
        "<R>"
    } else {
        ""
    };
    let separator: &str = if !kind.is_empty() && !typeref.is_empty() {
        "/"
    } else {
        ""
    };
    let at: &str = if !scope.is_empty() {
        "@"
    } else {
        ""
    };
    let mut r = text::concat(reference, kind);
    r.append(separator);
    r.append(typeref);
    r.append(at);
    r.append(scope);
    r
}

fn shorten(s: &str) -> (r: String)
    ensures
        r@ == shortened(s@),
{
    match pattern::replace_all(ANON_PATTERN, s, ANON_REPLACEMENT) {
        Some(replaced) => replaced,
        None => s.to_string(),
    }
}

fn strip_typename(s: &str) -> (r: String)
    ensures
        r@ == bare_type(s@),
{
    let chars = text::to_chars(s);
    let prefix = text::to_chars("typename:");
    if text::has_prefix(chars.as_slice(), prefix.as_slice()) {
        let rest = vstd::slice::slice_subrange(chars.as_slice(), prefix.len(), chars.len());
        assert(rest@ =~= s@.skip("typename:"@.len() as int));
        text::from_chars(rest)
    } else {
        s.to_string()
    }
}

impl TagInfo {
    /// Build annotation string.
    pub fn annotation(&self) -> (r: String)
        ensures
            r@ == tag_annotation(self@),
    {
        let bare = strip_typename(self.typeref.as_str());
        let typeref = shorten(bare.as_str());
        let scope = shorten(self.scope.as_str());
        make_annotation(
            self.kind.as_str(),
            self.extras.as_str(),
            typeref.as_str(),
            scope.as_str(),
        )
    }

    /// Convert to completion candidate.
    pub fn to_candidate(&self) -> (r: Json)
        ensures
            r@ == tag_candidate(self@),
    {
        let icon: &str = if self.kind.as_str().is_empty() {
            "text"
        } else {
            self.kind.as_str()
        };
        let annotation = self.annotation();
        search::make_candidate(self.name.as_str(), icon, annotation.as_str(), "ctags")
    }

    /// Where the tag is defined.
    pub fn to_definition(&self) -> (r: Json)
        ensures
            r@ == tag_definition(self@),
    {
        let mut members: Vec<(String, Json)> = Vec::new();
        members.push(json::field("name", Json::str(self.name.as_str())));
        members.push(json::field("file", Json::str(self.file.as_str())));
        members.push(json::field("address", Json::str(self.address.as_str())));
        members.push(json::field("annotation", Json::str(self.annotation().as_str())));
        assert(json::entry_models(members@) =~= seq![
            ("name"@, Jv::Str(self@.name)),
            ("file"@, Jv::Str(self@.file)),
            ("address"@, Jv::Str(self@.address)),
            ("annotation"@, Jv::Str(tag_annotation(self@))),
        ]);
        Json::from_members(members)
    }
}

// ---------------------------------------------------------------------------
// readtags
// ---------------------------------------------------------------------------

/// The line without the carriage return that belongs to its end.
pub open spec fn without_return(line: Seq<char>) -> Seq<char> {
    if line.len() > 0 && line.last() == '\r' {
        line.drop_last()
    } else {
        line
    }
}

/// The lines of a text.
pub open spec fn lines(s: Seq<char>) -> Seq<Seq<char>> {
    let parts = pieces(s, '\n');
    let ended = Seq::new((parts.len() - 1) as nat, |i: int| without_return(parts[i]));
    if parts.last().len() > 0 {
        ended.push(parts.last())
    } else {
        ended
    }
}

/// The tags of the lines that hold one.
pub open spec fn tags_of(lines: Seq<Seq<char>>) -> Seq<Tag>
    decreases lines.len(),
{
    if lines.len() == 0 {
        Seq::empty()
    } else {
        let before = tags_of(lines.drop_last());
        match tag_of(lines.last()) {
            Some(tag) => before.push(tag),
            None => before,
        }
    }
}

/// The tags by their views.
pub open spec fn tag_views(v: Seq<TagInfo>) -> Seq<Tag> {
    Seq::new(v.len(), |i: int| v[i]@)
}

fn split_lines(s: &str) -> (r: Vec<String>)
    ensures
        text::texts(r@) == lines(s@),
{
    let chars = text::to_chars(s);
    let parts = split_all(chars.as_slice(), '\n');
    let ghost all = text::texts(parts@);
    proof {
        lemma_some_piece(s@, '\n');
    }
    let n: usize = parts.len() - 1;
    let mut r: Vec<String> = Vec::new();
    let mut i: usize = 0;
    while i < n
        invariant
            all == text::texts(parts@),
            n == parts@.len() - 1,
            i <= n,
            r@.len() == i,
            forall|j: int| 0 <= j < i ==> (#[trigger] r@[j])@ == without_return(all[j]),
        decreases n - i,
    {
        let line = text::to_chars(parts[i].as_str());
        let m: usize = line.len();
        if m > 0 && line[m - 1] == '\r' {
            let bare = vstd::slice::slice_subrange(line.as_slice(), 0, m - 1);
            assert(bare@ =~= line@.drop_last());
            r.push(text::from_chars(bare));
        } else {
            r.push(parts[i].clone());
        }
        i = i + 1;
    }
    if !parts[n].as_str().is_empty() {
        r.push(parts[n].clone());
    }
    assert(text::texts(r@) =~= lines(s@));
    r
}

/// The tags that the output of `readtags` holds.
pub fn read_tags(output: &str) -> (r: Vec<TagInfo>)
    ensures
        tag_views(r@) == tags_of(lines(output@)),
{
    let all_lines = split_lines(output);
    let ghost all = text::texts(all_lines@);
    let mut r: Vec<TagInfo> = Vec::new();
    let mut i: usize = 0;
    assert(all.take(0) =~= Seq::<Seq<char>>::empty());
    assert(tag_views(r@) =~= Seq::<Tag>::empty());
    while i < all_lines.len()
        invariant
            all == text::texts(all_lines@),
            i <= all_lines@.len(),
            tag_views(r@) == tags_of(all.take(i as int)),
        decreases all_lines@.len() - i,
    {
        proof {
            assert(all.take(i + 1).drop_last() =~= all.take(i as int));
            assert(all.take(i + 1).last() == all[i as int]);
        }
        match parse_tag_line(all_lines[i].as_str()) {
            Some(tag) => {
                let ghost before = tag_views(r@);
                r.push(tag);
                assert(tag_views(r@) =~= before.push(tag@));
            },
            None => {},
        }
        i = i + 1;
    }
    assert(all.take(i as int) =~= all);
    r
}

/// The candidates for what the output of `readtags` holds, if it succeeded.
pub open spec fn completions(succeeded: bool, output: Seq<char>) -> Seq<Jv> {
    if succeeded {
        let tags = tags_of(lines(output));
        Seq::new(tags.len(), |i: int| tag_candidate(tags[i]))
    } else {
        Seq::empty()
    }
}

/// The definitions that the output of `readtags` holds, if it succeeded.
pub open spec fn definitions(succeeded: bool, output: Seq<char>) -> Seq<Jv> {
    if succeeded {
        let tags = tags_of(lines(output));
        Seq::new(tags.len(), |i: int| tag_definition(tags[i]))
    } else {
        Seq::empty()
    }
}

/// The arguments of `readtags` that get completions for a symbol prefix.
pub open spec fn completion_args(symbol: Seq<char>) -> Seq<Seq<char>> {
    seq![
        "-t"@,
        "tags"@,
        "-Q"@,
        DEFAULT_FILTER@,
        "-S"@,
        DEFAULT_SORTER@,
        "-p"@,
        "-i"@,
        "-"@,
        symbol,
    ]
}

/// The arguments of `readtags` that find the definition of a symbol.
pub open spec fn definition_args(symbol: Seq<char>) -> Seq<Seq<char>> {
    seq!["-t"@, "tags"@, "-Q"@, DEFAULT_FILTER@, "-e"@, "-"@, symbol]
}

/// The arguments of `readtags` that get completions for a symbol prefix.
pub fn complete_args(symbol: &str) -> (r: Vec<String>)
    ensures
        text::texts(r@) == completion_args(symbol@),
{
    let mut r: Vec<String> = Vec::new();
    r.push("-t".to_string());
    r.push("tags".to_string());
    r.push("-Q".to_string());
    r.push(DEFAULT_FILTER.to_string());
    r.push("-S".to_string());
    r.push(DEFAULT_SORTER.to_string());
    r.push("-p".to_string());
    r.push("-i".to_string());
    r.push("-".to_string());
    r.push(symbol.to_string());
    assert(text::texts(r@) =~= completion_args(symbol@));
    r
}

/// The arguments of `readtags` that find the definition of a symbol.
pub fn find_definition_args(symbol: &str) -> (r: Vec<String>)
    ensures
        text::texts(r@) == definition_args(symbol@),
{
    let mut r: Vec<String> = Vec::new();
    r.push("-t".to_string());
    r.push("tags".to_string());
    r.push("-Q".to_string());
    r.push(DEFAULT_FILTER.to_string());
    r.push("-e".to_string());
    r.push("-".to_string());
    r.push(symbol.to_string());
    assert(text::texts(r@) =~= definition_args(symbol@));
    r
}

/// The completions that `readtags` found.
pub fn complete(succeeded: bool, output: &str) -> (r: Vec<Json>)
    ensures
        json::models(r@) == completions(succeeded, output@),
{
    let mut r: Vec<Json> = Vec::new();
    if succeeded {
        let tags = read_tags(output);
        let ghost all = tag_views(tags@);
        let mut i: usize = 0;
        while i < tags.len()
            invariant
                all == tag_views(tags@),
                i <= tags@.len(),
                r@.len() == i,
                forall|j: int| 0 <= j < i ==> (#[trigger] r@[j])@ == tag_candidate(all[j]),
            decreases tags@.len() - i,
        {
            r.push(tags[i].to_candidate());
            i = i + 1;
        }
    }
    assert(json::models(r@) =~= completions(succeeded, output@));
    r
}

/// The definitions that `readtags` found.
pub fn find_definition(succeeded: bool, output: &str) -> (r: Vec<Json>)
    ensures
        json::models(r@) == definitions(succeeded, output@),
{
    let mut r: Vec<Json> = Vec::new();
    if succeeded {
        let tags = read_tags(output);
        let ghost all = tag_views(tags@);
        let mut i: usize = 0;
        while i < tags.len()
            invariant
                all == tag_views(tags@),
                i <= tags@.len(),
                r@.len() == i,
                forall|j: int| 0 <= j < i ==> (#[trigger] r@[j])@ == tag_definition(all[j]),
            decreases tags@.len() - i,
        {
            r.push(tags[i].to_definition());
            i = i + 1;
        }
    }
    assert(json::models(r@) =~= definitions(succeeded, output@));
    r
}

} // verus!
