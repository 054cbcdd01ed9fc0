//! The members of the object that a JSON text holds, one by one, as they stand in the text.
//!
//! A JSON value holds each key once; its text can hold a key more than once.

use crate::text;
use vstd::prelude::*;

verus! {

/// The white space of JSON.
pub open spec fn is_blank(c: char) -> bool {
    c == ' ' || c == '\t' || c == '\n' || c == '\r'
}

/// The text without the white space in front of it.
pub open spec fn past_blanks(s: Seq<char>) -> Seq<char>
    decreases s.len(),
{
    if s.len() > 0 && is_blank(s[0]) {
        past_blanks(s.skip(1))
    } else {
        s
    }
}

/// How long a string is, from behind its opening quote up to and with its closing quote.
pub open spec fn string_len(s: Seq<char>) -> nat
    decreases s.len(),
{
    if s.len() == 0 {
        0
    } else if s[0] == '"' {
        1
    } else if s[0] == '\\' && s.len() > 1 {
        2 + string_len(s.skip(2))
    } else {
        1 + string_len(s.skip(1))
    }
}

/// How long a value is, up to the comma or the bracket that ends it; `depth` brackets are open.
pub open spec fn value_len(s: Seq<char>, depth: nat) -> nat
    decreases s.len(),
{
    proof {
        lemma_string_len(s.skip(1));
    }
    if s.len() == 0 {
        0
    } else if s[0] == '"' {
        let n = 1 + string_len(s.skip(1));
        n + value_len(s.skip(n as int), depth)
    } else if s[0] == '{' || s[0] == '[' {
        1 + value_len(s.skip(1), depth + 1)
    } else if s[0] == '}' || s[0] == ']' {
        if depth == 0 {
            0
        } else {
            1 + value_len(s.skip(1), (depth - 1) as nat)
        }
    } else if s[0] == ',' && depth == 0 {
        0
    } else {
        1 + value_len(s.skip(1), depth)
    }
}

/// The members from behind a bracket or a comma on: the key with its quotes, and the value.
pub open spec fn members_from(s: Seq<char>) -> Seq<(Seq<char>, Seq<char>)>
    decreases s.len(),
{
    proof {
        lemma_member_shorter(s);
    }
    let t = past_blanks(s);
    if t.len() == 0 || t[0] != '"' {
        Seq::empty()
    } else {
        let n = (1 + string_len(t.skip(1))) as int;
        let u = past_blanks(t.skip(n));
        if u.len() == 0 || u[0] != ':' {
            Seq::empty()
        } else {
            let v = u.skip(1);
            let m = value_len(v, 0) as int;
            let rest = v.skip(m);
            let member = (t.take(n), v.take(m));
            if rest.len() > 0 && rest[0] == ',' {
                seq![member] + members_from(rest.skip(1))
            } else {
                seq![member]
            }
        }
    }
}

/// The members of the object that a text holds; nothing if it holds something else.
pub open spec fn members_of(s: Seq<char>) -> Option<Seq<(Seq<char>, Seq<char>)>> {
    let t = past_blanks(s);
    if t.len() > 0 && t[0] == '{' {
        Some(members_from(t.skip(1)))
    } else {
        None
    }
}

proof fn lemma_past_blanks(s: Seq<char>)
    ensures
        past_blanks(s).len() <= s.len(),
    decreases s.len(),
{
    if s.len() > 0 && is_blank(s[0]) {
        lemma_past_blanks(s.skip(1));
    }
}

/// A string ends within the text.
pub proof fn lemma_string_len(s: Seq<char>)
    ensures
        string_len(s) <= s.len(),
    decreases s.len(),
{
    if s.len() == 0 {
    } else if s[0] == '\\' && s.len() > 1 {
        lemma_string_len(s.skip(2));
    } else {
        lemma_string_len(s.skip(1));
    }
}

proof fn lemma_value_len(s: Seq<char>, depth: nat)
    ensures
        value_len(s, depth) <= s.len(),
    decreases s.len(),
{
    if s.len() > 0 {
        lemma_string_len(s.skip(1));
        if s[0] == '"' {
            lemma_value_len(s.skip(1 + string_len(s.skip(1)) as int), depth);
        } else if s[0] == '{' || s[0] == '[' {
            lemma_value_len(s.skip(1), depth + 1);
        } else if s[0] == '}' || s[0] == ']' {
            if depth > 0 {
                lemma_value_len(s.skip(1), (depth - 1) as nat);
            }
        } else {
            lemma_value_len(s.skip(1), depth);
        }
    }
}

/// What follows a member is shorter than the text that the member opens.
pub proof fn lemma_member_shorter(s: Seq<char>)
    ensures
        ({
            let t = past_blanks(s);
            let n = (1 + string_len(t.skip(1))) as int;
            let u = past_blanks(t.skip(n));
            let v = u.skip(1);
            let m = value_len(v, 0) as int;
            t.len() > 0 && u.len() > 0 ==> n <= t.len() && m <= v.len() && v.skip(m).len() < s.len()
        }),
{
    let t = past_blanks(s);
    lemma_past_blanks(s);
    if t.len() > 0 {
        lemma_string_len(t.skip(1));
        let n = (1 + string_len(t.skip(1))) as int;
        lemma_past_blanks(t.skip(n));
        let u = past_blanks(t.skip(n));
        if u.len() > 0 {
            lemma_value_len(u.skip(1), 0);
        }
    }
}

/// The position behind the white space.
fn skip_blanks(s: &[char], from: usize) -> (r: usize)
    requires
        from <= s@.len(),
    ensures
        from <= r <= s@.len(),
        s@.skip(r as int) == past_blanks(s@.skip(from as int)),
{
    let mut i: usize = from;
    while i < s.len() && (s[i] == ' ' || s[i] == '\t' || s[i] == '\n' || s[i] == '\r')
        invariant
            from <= i <= s@.len(),
            past_blanks(s@.skip(i as int)) == past_blanks(s@.skip(from as int)),
        decreases s@.len() - i,
    {
        assert(s@.skip(i as int).skip(1) =~= s@.skip(i + 1));
        i = i + 1;
    }
    i
}

/// The position behind the string whose opening quote stands in front of `from`.
fn string_end(s: &[char], from: usize) -> (r: usize)
    requires
        from <= s@.len(),
    ensures
        from <= r <= s@.len(),
        r - from == string_len(s@.skip(from as int)),
{
    let mut i: usize = from;
    while i < s.len()
        invariant
            from <= i <= s@.len(),
            i - from + string_len(s@.skip(i as int)) == string_len(s@.skip(from as int)),
        decreases s@.len() - i,
    {
        let ghost here = s@.skip(i as int);
        assert(here.skip(1) =~= s@.skip(i + 1));
        if s[i] == '"' {
            return i + 1;
        } else if s[i] == '\\' && s.len() - i > 1 {
            assert(here.skip(2) =~= s@.skip(i + 2));
            i = i + 2;
        } else {
            i = i + 1;
        }
    }
    i
}

/// The position behind a value.
fn value_end(s: &[char], from: usize) -> (r: usize)
    requires
        from <= s@.len(),
    ensures
        from <= r <= s@.len(),
        r - from == value_len(s@.skip(from as int), 0),
{
    let mut i: usize = from;
    let mut depth: usize = 0;
    while i < s.len()
        invariant
            from <= i <= s@.len(),
            depth <= i,
            i - from + value_len(s@.skip(i as int), depth as nat) == value_len(
                s@.skip(from as int),
                0,
            ),
        decreases s@.len() - i,
    {
        let ghost here = s@.skip(i as int);
        assert(here.skip(1) =~= s@.skip(i + 1));
        let c = s[i];
        if c == '"' {
            let end: usize = string_end(s, i + 1);
            assert(here.skip(end - i) =~= s@.skip(end as int));
            i = end;
        } else if c == '{' || c == '[' {
            depth = depth + 1;
            i = i + 1;
        } else if c == '}' || c == ']' {
            if depth == 0 {
                return i;
            }
            depth = depth - 1;
            i = i + 1;
        } else if c == ',' && depth == 0 {
            return i;
        } else {
            i = i + 1;
        }
    }
    i
}

/// The members by their texts.
pub open spec fn member_texts(v: Seq<(String, String)>) -> Seq<(Seq<char>, Seq<char>)> {
    Seq::new(v.len(), |i: int| (v[i].0@, v[i].1@))
}

fn split_members(s: &[char], from: usize) -> (r: Vec<(String, String)>)
    requires
        from <= s@.len(),
    ensures
        member_texts(r@) == members_from(s@.skip(from as int)),
{
    let ghost all = members_from(s@.skip(from as int));
    let mut r: Vec<(String, String)> = Vec::new();
    let mut i: usize = from;
    assert(member_texts(r@) + all =~= all);
    loop
        invariant
            from <= i <= s@.len(),
            all == members_from(s@.skip(from as int)),
            member_texts(r@) + members_from(s@.skip(i as int)) == all,
        decreases s@.len() - i,
    {
        let ghost here = s@.skip(i as int);
        let ghost before = member_texts(r@);
        proof {
            lemma_member_shorter(here);
        }
        let key: usize = skip_blanks(s, i);
        if key >= s.len() || s[key] != '"' {
            assert(members_from(here) =~= Seq::empty());
            assert(before + members_from(here) =~= before);
            return r;
        }
        let ghost t = s@.skip(key as int);
        assert(t.skip(1) =~= s@.skip(key + 1));
        let key_end: usize = string_end(s, key + 1);
        let ghost n = key_end - key;
        assert(t.skip(n) =~= s@.skip(key_end as int));
        let colon: usize = skip_blanks(s, key_end);
        if colon >= s.len() || s[colon] != ':' {
            assert(members_from(here) =~= Seq::empty());
            assert(before + members_from(here) =~= before);
            return r;
        }
        let ghost u = s@.skip(colon as int);
        let ghost v = u.skip(1);
        assert(v =~= s@.skip(colon + 1));
        let end: usize = value_end(s, colon + 1);
        let ghost m = end - (colon + 1);
        let name = vstd::slice::slice_subrange(s, key, key_end);
        let value = vstd::slice::slice_subrange(s, colon + 1, end);
        let ghost member = (t.take(n), v.take(m));
        assert(name@ =~= t.take(n));
        assert(value@ =~= v.take(m));
        r.push((text::from_chars(name), text::from_chars(value)));
        assert(member_texts(r@) =~= before.push(member));
        assert(v.skip(m) =~= s@.skip(end as int));
        if end >= s.len() || s[end] != ',' {
            assert(members_from(here) == seq![member]);
            assert(before + members_from(here) =~= member_texts(r@));
            return r;
        }
        assert(v.skip(m).skip(1) =~= s@.skip(end + 1));
        assert(members_from(here) == seq![member] + members_from(s@.skip(end + 1)));
        assert(before + members_from(here) =~= member_texts(r@) + members_from(s@.skip(end + 1)));
        i = end + 1;
    }
}

/// The members of the object that a text holds; nothing if it holds something else.
pub fn split(s: &str) -> (r: Option<Vec<(String, String)>>)
    ensures
        match members_of(s@) {
            Some(m) => r is Some && member_texts((r->0)@) == m,
            None => r is None,
        },
{
    let chars = text::to_chars(s);
    let start: usize = skip_blanks(chars.as_slice(), 0);
    assert(s@.skip(0) =~= s@);
    if start >= chars.len() || chars[start] != '{' {
        return None;
    }
    assert(chars@.skip(start as int).skip(1) =~= chars@.skip(start + 1));
    Some(split_members(chars.as_slice(), start + 1))
}

} // verus!
