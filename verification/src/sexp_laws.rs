//! Laws that tie the reader of S-expressions to their writer.

use crate::sexp;
use crate::sexp::{Sexp, SexpError};
use crate::text;
use vstd::prelude::*;
use vstd::utf8::*;

verus! {

/// Text that reads as one atom: not empty, without delimiters, not opened by a quote mark.
pub open spec fn is_atom(s: Seq<char>) -> bool {
    &&& s.len() > 0
    &&& s[0] != '\''
    &&& forall|i: int| 0 <= i < s.len() ==> !sexp::is_delimiter(#[trigger] s[i])
}

/// Values whose textual form reads back, atom by atom, as the same kind of value.
pub open spec fn readable(v: Sexp) -> bool
    decreases v,
{
    match v {
        Sexp::Nil => true,
        Sexp::Bool(_) => true,
        Sexp::Integer(_) => true,
        Sexp::Float(s) => {
            let w = sexp::float_written(s);
            is_atom(w) && sexp::atom_value(w) is Float
        },
        Sexp::String(_) => true,
        Sexp::Symbol(s) => is_atom(s) && sexp::atom_value(s) == Sexp::Symbol(s),
        Sexp::Keyword(s) => is_atom(s) && s[0] == ':',
        Sexp::Cons(a, b) => readable(*a) && readable(*b),
        Sexp::List(items) => forall|i: int| 0 <= i < items.len() ==> readable(#[trigger] items[i]),
        Sexp::Quoted(a) => readable(*a),
    }
}

/// No list item, and no first half of a cons cell, is the symbol `.`.
pub open spec fn no_dot_items(v: Sexp) -> bool
    decreases v,
{
    match v {
        Sexp::Cons(a, b) => no_dot_items(*a) && no_dot_items(*b) && *a != Sexp::Symbol(seq!['.']),
        Sexp::List(items) => forall|i: int|
            0 <= i < items.len() ==> no_dot_items(#[trigger] items[i]) && items[i] != Sexp::Symbol(
                seq!['.'],
            ),
        Sexp::Quoted(a) => no_dot_items(*a),
        _ => true,
    }
}

/// Every float in the value is finite.
pub open spec fn floats_finite(v: Sexp) -> bool
    decreases v,
{
    match v {
        Sexp::Float(s) => sexp::is_decimal(s),
        Sexp::Cons(a, b) => floats_finite(*a) && floats_finite(*b),
        Sexp::List(items) => forall|i: int|
            0 <= i < items.len() ==> floats_finite(#[trigger] items[i]),
        Sexp::Quoted(a) => floats_finite(*a),
        _ => true,
    }
}

/// What the textual form of a value says: false is `nil`, a float is the one that its numeral
/// stands for.
pub open spec fn settled(v: Sexp) -> Sexp
    decreases v,
{
    match v {
        Sexp::Bool(b) => if b {
            v
        } else {
            Sexp::Nil
        },
        Sexp::Float(s) => sexp::atom_value(sexp::float_written(s)),
        Sexp::Cons(a, b) => Sexp::Cons(Box::new(settled(*a)), Box::new(settled(*b))),
        Sexp::List(items) => Sexp::List(
            Seq::new(
                items.len(),
                |i: int|
                    if 0 <= i < items.len() {
                        settled(items[i])
                    } else {
                        Sexp::Nil
                    },
            ),
        ),
        Sexp::Quoted(a) => Sexp::Quoted(Box::new(settled(*a))),
        _ => v,
    }
}

pub open spec fn settled_items(items: Seq<Sexp>) -> Seq<Sexp> {
    Seq::new(items.len(), |i: int| settled(items[i]))
}

/// Text behind a value: nothing, or a delimiter first.
pub open spec fn ends_atom(r: Seq<char>) -> bool {
    r.len() > 0 ==> sexp::is_delimiter(r[0])
}

proof fn lemma_atom_len_concat(s: Seq<char>, r: Seq<char>)
    requires
        forall|i: int| 0 <= i < s.len() ==> !sexp::is_delimiter(#[trigger] s[i]),
        ends_atom(r),
    ensures
        sexp::atom_len(s + r) == s.len(),
    decreases s.len(),
{
    if s.len() == 0 {
        assert(s + r =~= r);
    } else {
        assert((s + r).skip(1) =~= s.skip(1) + r);
        assert((s + r)[0] == s[0]);
        lemma_atom_len_concat(s.skip(1), r);
    }
}

proof fn lemma_read_atom(s: Seq<char>, r: Seq<char>)
    requires
        is_atom(s),
        ends_atom(r),
    ensures
        sexp::read_value(s + r) == Ok::<(Sexp, Seq<char>), SexpError>((sexp::atom_value(s), r)),
{
    let t = s + r;
    assert(t[0] == s[0]);
    assert(sexp::skip_space(t) == t);
    lemma_atom_len_concat(s, r);
    assert(t.take(s.len() as int) =~= s);
    assert(t.skip(s.len() as int) =~= r);
}

proof fn lemma_unescape_escape(c: char)
    ensures
        sexp::escape_char(c).len() == 1 ==> sexp::escape_char(c)[0] == c && c != '"' && c != '\\',
        sexp::escape_char(c).len() != 1 ==> sexp::escape_char(c).len() == 2
            && sexp::escape_char(c)[0] == '\\' && sexp::unescape(sexp::escape_char(c)[1])
            == seq![c],
{
}

proof fn lemma_read_escaped(s: Seq<char>, done: Seq<char>, r: Seq<char>)
    ensures
        sexp::read_string(sexp::escape(s) + seq!['"'] + r, done) == Some((done + s, r)),
    decreases s.len(),
{
    let t = sexp::escape(s) + seq!['"'] + r;
    if s.len() == 0 {
        assert(t.skip(1) =~= r);
        assert(done + s =~= done);
    } else {
        let e = sexp::escape_char(s[0]);
        let u = sexp::escape(s.skip(1)) + seq!['"'] + r;
        lemma_unescape_escape(s[0]);
        assert(t =~= e + u);
        if e.len() == 1 {
            assert(t.skip(1) =~= u);
            lemma_read_escaped(s.skip(1), done.push(s[0]), r);
            assert(done.push(s[0]) + s.skip(1) =~= done + s);
        } else {
            assert(t.skip(2) =~= u);
            assert(t[1] == e[1]);
            lemma_read_escaped(s.skip(1), done + seq![s[0]], r);
            assert(done + seq![s[0]] + s.skip(1) =~= done + s);
        }
    }
}

/// The textual form of a readable value starts with a character that opens a value, and only
/// the symbol `.` can be taken for the dot of a cons cell.
proof fn lemma_written_start(v: Sexp, r: Seq<char>)
    requires
        readable(v),
        ends_atom(r),
    ensures
        sexp::written(v).len() > 0,
        !sexp::is_space(sexp::written(v)[0]),
        sexp::written(v)[0] != ')',
        v != Sexp::Symbol(seq!['.']) ==> !sexp::is_cons_dot(sexp::written(v) + r),
{
    reveal_strlit("nil");
    let w = sexp::written(v);
    match v {
        Sexp::Integer(n) => {
            text::lemma_decimal(n as nat);
            text::lemma_decimal((-n) as nat);
            assert(text::is_digit(text::decimal(n as nat)[0]) || n < 0);
        },
        Sexp::Float(s) => {
            if w.len() == 1 && w[0] == '.' {
                assert(w =~= seq!['.']);
                lemma_dot_is_symbol();
            } else if w[0] == '.' {
                assert((w + r)[1] == w[1]);
            }
        },
        Sexp::Symbol(s) => {
            if w.len() == 1 && w[0] == '.' {
                assert(w =~= seq!['.']);
            } else if w[0] == '.' {
                assert((w + r)[1] == w[1]);
            }
        },
        _ => {},
    }
    assert((w + r)[0] == w[0]);
}

proof fn lemma_dot_is_symbol()
    ensures
        sexp::atom_value(seq!['.']) == Sexp::Symbol(seq!['.']),
{
    reveal_strlit("nil");
    reveal_strlit("t");
    let s: Seq<char> = seq!['.'];
    assert(!text::is_digit(s[0]));
    assert(text::i64_value(s) is None);
    assert(sexp::digit_run(s) == 0);
    assert(s.skip(0) =~= s);
    assert(sexp::digit_run(s.skip(1)) == 0);
    assert(!sexp::is_decimal(s));
}

proof fn lemma_read_number(n: i64, r: Seq<char>)
    requires
        ends_atom(r),
    ensures
        sexp::read_value(text::signed_decimal(n as int) + r) == Ok::<(Sexp, Seq<char>), SexpError>(
            (Sexp::Integer(n), r),
        ),
{
    let s = text::signed_decimal(n as int);
    text::lemma_signed_decimal(n as int);
    text::lemma_decimal(n as nat);
    text::lemma_decimal((-n) as nat);
    reveal_strlit("nil");
    reveal_strlit("t");
    let d = if n < 0 {
        text::decimal((-n) as nat)
    } else {
        text::decimal(n as nat)
    };
    assert forall|i: int| 0 <= i < s.len() implies !sexp::is_delimiter(#[trigger] s[i]) by {
        if n < 0 {
            if i > 0 {
                assert(s[i] == d[i - 1]);
                assert(text::is_digit(d[i - 1]));
            }
        } else {
            assert(text::is_digit(d[i]));
        }
    }
    assert(n >= 0 ==> text::is_digit(s[0]));
    lemma_read_atom(s, r);
}

/// Reading the textual form of a value gives the value back and leaves what stands behind it.
pub proof fn law_read_written(v: Sexp, r: Seq<char>)
    requires
        readable(v),
        no_dot_items(v),
        ends_atom(r),
    ensures
        sexp::read_value(sexp::written(v) + r) == Ok::<(Sexp, Seq<char>), SexpError>(
            (settled(v), r),
        ),
    decreases v,
{
    reveal_strlit("nil");
    reveal_strlit("t");
    let t = sexp::written(v) + r;
    lemma_written_start(v, r);
    match v {
        Sexp::Nil => {
            lemma_read_atom("nil"@, r);
        },
        Sexp::Bool(b) => {
            if b {
                assert("t"@ =~= seq!['t']);
                lemma_read_atom("t"@, r);
            } else {
                lemma_read_atom("nil"@, r);
            }
        },
        Sexp::Integer(n) => {
            lemma_read_number(n, r);
        },
        Sexp::Float(s) => {
            lemma_read_atom(sexp::float_written(s), r);
        },
        Sexp::String(s) => {
            lemma_read_escaped(s, Seq::empty(), r);
            assert(sexp::skip_space(t) == t);
            assert(t.skip(1) =~= sexp::escape(s) + seq!['"'] + r);
            assert(Seq::<char>::empty() + s =~= s);
        },
        Sexp::Symbol(s) => {
            lemma_read_atom(s, r);
        },
        Sexp::Keyword(s) => {
            lemma_read_atom(s, r);
        },
        Sexp::Cons(a, b) => {
            let after_cdr = seq![')'] + r;
            let cdr = sexp::written(*b) + after_cdr;
            let after_car = seq![' ', '.', ' '] + cdr;
            let body = sexp::written(*a) + after_car;
            assert(sexp::skip_space(t) == t);
            assert(t.skip(1) =~= body);
            lemma_written_start(*a, after_car);
            assert(body[0] == sexp::written(*a)[0]);
            assert(sexp::skip_space(body) == body);
            law_read_written(*a, after_car);
            let items = seq![settled(*a)];
            assert(Seq::<Sexp>::empty().push(settled(*a)) =~= items);
            assert(sexp::read_items(body, Seq::empty()) == sexp::read_items(after_car, items));
            let dot = seq!['.', ' '] + cdr;
            assert(after_car.skip(1) =~= dot);
            assert(sexp::skip_space(after_car) == sexp::skip_space(dot));
            assert(sexp::skip_space(dot) == dot);
            assert(sexp::is_cons_dot(dot));
            let spaced = seq![' '] + cdr;
            assert(dot.skip(1) =~= spaced);
            lemma_written_start(*b, after_cdr);
            assert(cdr[0] == sexp::written(*b)[0]);
            lemma_read_value_space(cdr);
            law_read_written(*b, after_cdr);
            assert(sexp::read_value(spaced) == sexp::read_value(cdr));
            assert(sexp::skip_space(after_cdr) == after_cdr);
            assert(after_cdr.skip(1) =~= r);
            assert(sexp::dotted(items, settled(*b)) == settled(v)) by {
                reveal_with_fuel(sexp::dotted, 2);
                assert(items.drop_last() =~= Seq::<Sexp>::empty());
            }
        },
        Sexp::List(items) => {
            let body = sexp::written_items(items) + seq![')'] + r;
            assert(sexp::skip_space(t) == t);
            assert(t.skip(1) =~= body);
            lemma_read_written_items(items, Seq::empty(), r);
            assert(Seq::<Sexp>::empty() + settled_items(items) =~= settled_items(items));
            assert(settled(v)->List_0 =~= settled_items(items));
        },
        Sexp::Quoted(a) => {
            assert(sexp::skip_space(t) == t);
            assert(t.skip(1) =~= sexp::written(*a) + r);
            law_read_written(*a, r);
        },
    }
}

proof fn lemma_read_value_space(s: Seq<char>)
    ensures
        sexp::read_value(seq![' '] + s) == sexp::read_value(s),
{
    assert((seq![' '] + s).skip(1) =~= s);
}

proof fn lemma_read_items_space(s: Seq<char>, items: Seq<Sexp>)
    ensures
        sexp::read_items(seq![' '] + s, items) == sexp::read_items(s, items),
{
    assert((seq![' '] + s).skip(1) =~= s);
}

proof fn lemma_read_written_items(items: Seq<Sexp>, done: Seq<Sexp>, r: Seq<char>)
    requires
        forall|i: int|
            0 <= i < items.len() ==> readable(#[trigger] items[i]) && no_dot_items(items[i])
                && items[i] != Sexp::Symbol(seq!['.']),
    ensures
        sexp::read_items(sexp::written_items(items) + seq![')'] + r, done) == Ok::<
            (Sexp, Seq<char>),
            SexpError,
        >((Sexp::List(done + settled_items(items)), r)),
    decreases items,
{
    let t = sexp::written_items(items) + seq![')'] + r;
    if items.len() == 0 {
        assert(t.skip(1) =~= r);
        assert(done + settled_items(items) =~= done);
    } else {
        let first = sexp::written(items[0]);
        let tail = items.drop_first();
        let after = if items.len() == 1 {
            seq![')'] + r
        } else {
            seq![' '] + (sexp::written_items(tail) + seq![')'] + r)
        };
        assert(t =~= first + after);
        lemma_written_start(items[0], after);
        assert(t[0] == first[0]);
        assert(sexp::skip_space(t) == t);
        law_read_written(items[0], after);
        let next = done.push(settled(items[0]));
        assert(sexp::read_items(t, done) == sexp::read_items(after, next));
        assert(decreases_to!(items => tail));
        assert(tail.len() > 0 ==> forall|i: int|
            0 <= i < tail.len() ==> #[trigger] tail[i] == items[i + 1]);
        lemma_read_written_items(tail, next, r);
        assert(next + settled_items(tail) =~= done + settled_items(items));
        if items.len() == 1 {
            assert(sexp::written_items(tail) + seq![')'] + r =~= after);
        } else {
            lemma_read_items_space(sexp::written_items(tail) + seq![')'] + r, next);
        }
    }
}

/// Whether the value, if its floats are finite, is readable and says what its textual form says.
pub open spec fn is_kept(v: Sexp) -> bool {
    floats_finite(v) ==> readable(v) && settled(v) == v
}

proof fn lemma_dotted_readable(items: Seq<Sexp>, tail: Sexp)
    requires
        forall|i: int| 0 <= i < items.len() ==> is_kept(#[trigger] items[i]),
        is_kept(tail),
    ensures
        is_kept(sexp::dotted(items, tail)),
    decreases items.len(),
{
    if items.len() > 0 {
        assert(is_kept(items[items.len() - 1]));
        lemma_dotted_readable(
            items.drop_last(),
            Sexp::Cons(Box::new(items.last()), Box::new(tail)),
        );
    }
}

/// Reading a float's written form gives the float back.
proof fn lemma_float_kept(token: Seq<char>)
    requires
        sexp::is_decimal(token),
        sexp::has_float_mark(token),
    ensures
        is_kept(Sexp::Float(sexp::numeral_of(token))),
{
    let s = sexp::numeral_of(token);
    if sexp::is_decimal(s) {
        law_decimal_readable(s);
        lemma_infinite();
        assert(sexp::float_written(token) == token);
    }
}

proof fn lemma_infinite()
    ensures
        !sexp::is_decimal("inf"@),
        !sexp::is_decimal("-inf"@),
{
    reveal_strlit("inf");
    reveal_strlit("-inf");
    let s = "inf"@;
    let t = "-inf"@.skip(1);
    assert(sexp::digit_run(s) == 0);
    assert(s.skip(0) =~= s);
    assert(t[0] == 'i');
    assert(sexp::digit_run(t) == 0);
    assert(t.skip(0) =~= t);
}

/// Whatever the reader gives is readable, and says what its textual form says, as long as its
/// floats are finite.
pub proof fn law_read_is_readable(s: Seq<char>)
    ensures
        sexp::read_value(s) matches Ok((v, rest)) ==> is_kept(v),
    decreases s.len(), 0nat,
{
    sexp::lemma_skip_space_len(s);
    let t = sexp::skip_space(s);
    if t.len() == 0 {
    } else if t[0] == '"' {
    } else if t[0] == '(' {
        lemma_read_items_readable(t.skip(1), Seq::empty());
    } else if t[0] == ')' {
    } else if t[0] == '\'' {
        law_read_is_readable(t.skip(1));
    } else {
        sexp::lemma_atom_len(t);
        let token = t.take(sexp::atom_len(t) as int);
        assert(token[0] == t[0]);
        assert(is_atom(token));
        if sexp::atom_value(token) is Float {
            lemma_float_kept(token);
        }
    }
}

proof fn lemma_read_items_readable(s: Seq<char>, items: Seq<Sexp>)
    requires
        forall|i: int| 0 <= i < items.len() ==> is_kept(#[trigger] items[i]),
    ensures
        sexp::read_items(s, items) matches Ok((v, rest)) ==> is_kept(v),
    decreases s.len(), 1nat,
{
    sexp::lemma_skip_space_len(s);
    let t = sexp::skip_space(s);
    if t.len() == 0 {
    } else if t[0] == ')' {
        if floats_finite(Sexp::List(items)) {
            assert forall|i: int| 0 <= i < items.len() implies readable(#[trigger] items[i])
                && settled(items[i]) == items[i] by {
                assert(is_kept(items[i]));
            }
            assert(settled(Sexp::List(items))->List_0 =~= items);
        }
    } else if sexp::is_cons_dot(t) {
        law_read_is_readable(t.skip(1));
        if let Ok((tail, rest)) = sexp::read_value(t.skip(1)) {
            lemma_dotted_readable(items, tail);
        }
    } else {
        law_read_is_readable(t);
        if let Ok((v, rest)) = sexp::read_value(t) {
            if rest.len() < t.len() {
                lemma_read_items_readable(rest, items.push(v));
            }
        }
    }
}

/// Writing what was read and reading it again changes nothing, unless a lone `.` was read as a
/// list item, or an infinite float was read.
pub proof fn law_read_written_read(s: Seq<char>)
    ensures
        sexp::read_value(s) matches Ok((v, rest)) ==> no_dot_items(v) && floats_finite(v)
            ==> sexp::read_value(sexp::written(v)) == Ok::<(Sexp, Seq<char>), SexpError>(
            (v, Seq::empty()),
        ),
{
    law_read_is_readable(s);
    if let Ok((v, rest)) = sexp::read_value(s) {
        if no_dot_items(v) && floats_finite(v) {
            law_read_written(v, Seq::empty());
            assert(sexp::written(v) + Seq::<char>::empty() =~= sexp::written(v));
        }
    }
}

// ---------------------------------------------------------------------------
// What follows a value
// ---------------------------------------------------------------------------

/// How much of a text was read when `rest` is left.
pub open spec fn read_len(s: Seq<char>, rest: Seq<char>) -> int {
    s.len() - rest.len()
}

/// The rest is the end of the text.
pub open spec fn is_end(s: Seq<char>, rest: Seq<char>) -> bool {
    rest.len() <= s.len() && rest == s.skip(read_len(s, rest))
}

proof fn lemma_skip_space_take(s: Seq<char>, p: int)
    requires
        read_len(s, sexp::skip_space(s)) <= p <= s.len(),
    ensures
        is_end(s, sexp::skip_space(s)),
        sexp::skip_space(s.take(p)) == sexp::skip_space(s).take(
            p - read_len(s, sexp::skip_space(s)),
        ),
    decreases s.len(),
{
    sexp::lemma_skip_space_len(s);
    if s.len() > 0 && sexp::is_space(s[0]) {
        sexp::lemma_skip_space_len(s.skip(1));
        assert(s.take(p).skip(1) =~= s.skip(1).take(p - 1));
        lemma_skip_space_take(s.skip(1), p - 1);
        let t = sexp::skip_space(s);
        assert(t =~= s.skip(read_len(s, t)));
    } else {
        assert(s.skip(0) =~= s);
    }
}

proof fn lemma_atom_len_take(s: Seq<char>, p: int)
    requires
        sexp::atom_len(s) <= p <= s.len(),
    ensures
        sexp::atom_len(s.take(p)) == sexp::atom_len(s),
    decreases s.len(),
{
    if s.len() > 0 && !sexp::is_delimiter(s[0]) {
        assert(s.take(p).skip(1) =~= s.skip(1).take(p - 1));
        lemma_atom_len_take(s.skip(1), p - 1);
    }
}

proof fn lemma_read_string_take(s: Seq<char>, done: Seq<char>, p: int)
    requires
        sexp::read_string(s, done) is Some,
        read_len(s, (sexp::read_string(s, done)->0).1) <= p <= s.len(),
    ensures
        ({
            let (content, rest) = sexp::read_string(s, done)->0;
            &&& is_end(s, rest)
            &&& sexp::read_string(s.take(p), done) == Some(
                (content, rest.take(p - read_len(s, rest))),
            )
        }),
    decreases s.len(),
{
    sexp::lemma_read_string_len(s, done);
    let (content, rest) = sexp::read_string(s, done)->0;
    if s[0] == '"' {
        assert(s.take(p).skip(1) =~= s.skip(1).take(p - 1));
    } else if s[0] == '\\' {
        sexp::lemma_read_string_len(s.skip(2), done + sexp::unescape(s[1]));
        lemma_read_string_take(s.skip(2), done + sexp::unescape(s[1]), p - 2);
        assert(s.take(p).skip(2) =~= s.skip(2).take(p - 2));
        assert(rest =~= s.skip(read_len(s, rest)));
    } else {
        sexp::lemma_read_string_len(s.skip(1), done.push(s[0]));
        lemma_read_string_take(s.skip(1), done.push(s[0]), p - 1);
        assert(s.take(p).skip(1) =~= s.skip(1).take(p - 1));
        assert(rest =~= s.skip(read_len(s, rest)));
    }
}

/// Cutting a text behind what was read of it does not change what is read.
proof fn lemma_read_value_take(s: Seq<char>, p: int)
    requires
        sexp::read_value(s) is Ok,
        read_len(s, (sexp::read_value(s)->Ok_0).1) <= p <= s.len(),
    ensures
        ({
            let (v, rest) = sexp::read_value(s)->Ok_0;
            &&& is_end(s, rest)
            &&& sexp::read_value(s.take(p)) == Ok::<(Sexp, Seq<char>), SexpError>(
                (v, rest.take(p - read_len(s, rest))),
            )
        }),
    decreases s.len(), 0nat,
{
    sexp::lemma_read_value_len(s);
    sexp::lemma_skip_space_len(s);
    let t = sexp::skip_space(s);
    let (v, rest) = sexp::read_value(s)->Ok_0;
    if t[0] == '"' {
        sexp::lemma_read_string_len(t.skip(1), Seq::empty());
    } else if t[0] == '(' {
        sexp::lemma_read_items_len(t.skip(1), Seq::empty());
    } else if t[0] == '\'' {
        sexp::lemma_read_value_len(t.skip(1));
    } else {
        sexp::lemma_atom_len(t);
    }
    lemma_skip_space_take(s, p);
    let q = p - read_len(s, t);
    let u = t.take(q);
    assert(sexp::skip_space(s.take(p)) == u);
    assert(u.skip(1) =~= t.skip(1).take(q - 1));
    if t[0] == '"' {
        lemma_read_string_take(t.skip(1), Seq::empty(), q - 1);
    } else if t[0] == '(' {
        lemma_read_items_take(t.skip(1), Seq::empty(), q - 1);
    } else if t[0] == '\'' {
        lemma_read_value_take(t.skip(1), q - 1);
    } else {
        let n = sexp::atom_len(t) as int;
        lemma_atom_len_take(t, q);
        assert(u.take(n) =~= t.take(n));
        assert(u.skip(n) =~= t.skip(n).take(q - n));
    }
    assert(rest =~= s.skip(read_len(s, rest)));
}

proof fn lemma_read_items_take(s: Seq<char>, items: Seq<Sexp>, p: int)
    requires
        sexp::read_items(s, items) is Ok,
        read_len(s, (sexp::read_items(s, items)->Ok_0).1) <= p <= s.len(),
    ensures
        ({
            let (v, rest) = sexp::read_items(s, items)->Ok_0;
            &&& is_end(s, rest)
            &&& sexp::read_items(s.take(p), items) == Ok::<(Sexp, Seq<char>), SexpError>(
                (v, rest.take(p - read_len(s, rest))),
            )
        }),
    decreases s.len(), 1nat,
{
    sexp::lemma_read_items_len(s, items);
    sexp::lemma_skip_space_len(s);
    let t = sexp::skip_space(s);
    let (v, rest) = sexp::read_items(s, items)->Ok_0;
    if t[0] == ')' {
        lemma_skip_space_take(s, p);
        let q = p - read_len(s, t);
        assert(t.take(q).skip(1) =~= t.skip(1).take(q - 1));
    } else if sexp::is_cons_dot(t) {
        sexp::lemma_read_value_len(t.skip(1));
        let (tail, behind) = sexp::read_value(t.skip(1))->Ok_0;
        sexp::lemma_skip_space_len(behind);
        let u = sexp::skip_space(behind);
        lemma_skip_space_take(s, p);
        let q = p - read_len(s, t);
        assert(t.take(q).skip(1) =~= t.skip(1).take(q - 1));
        lemma_read_value_take(t.skip(1), q - 1);
        let k = q - 1 - read_len(t.skip(1), behind);
        lemma_skip_space_take(behind, k);
        let m = k - read_len(behind, u);
        assert(u.take(m).skip(1) =~= u.skip(1).take(m - 1));
        assert(sexp::is_cons_dot(t.take(q)));
    } else {
        sexp::lemma_read_value_len(t);
        let (item, behind) = sexp::read_value(t)->Ok_0;
        sexp::lemma_read_items_len(behind, items.push(item));
        lemma_skip_space_take(s, p);
        let q = p - read_len(s, t);
        lemma_read_value_take(t, q);
        let k = q - read_len(t, behind);
        lemma_read_items_take(behind, items.push(item), k);
        assert(!sexp::is_cons_dot(t.take(q)));
    }
    assert(rest =~= s.skip(read_len(s, rest)));
}

/// What was read of a text stands at its start, and gives the same value alone: what follows does
/// not matter. The bytes that were read are the first bytes of the text.
pub proof fn law_read_alone(s: Seq<char>)
    requires
        sexp::read_value(s) is Ok,
    ensures
        ({
            let (v, rest) = sexp::read_value(s)->Ok_0;
            let taken = s.take(read_len(s, rest));
            &&& 0 < taken.len() <= s.len()
            &&& sexp::read_value(taken) == Ok::<(Sexp, Seq<char>), SexpError>((v, Seq::empty()))
            &&& encode_utf8(taken).len() <= encode_utf8(s).len()
            &&& encode_utf8(taken) == encode_utf8(s).take(encode_utf8(taken).len() as int)
        }),
{
    sexp::lemma_read_value_len(s);
    let (v, rest) = sexp::read_value(s)->Ok_0;
    let n = read_len(s, rest);
    let taken = s.take(n);
    lemma_read_value_take(s, n);
    assert(rest.take(0) =~= Seq::<char>::empty());
    assert(s =~= taken + s.skip(n));
    text::lemma_encode_concat(taken, s.skip(n));
    assert(encode_utf8(taken) =~= encode_utf8(s).take(encode_utf8(taken).len() as int));
}

proof fn lemma_digit_run(s: Seq<char>)
    ensures
        sexp::digit_run(s) <= s.len(),
        forall|i: int| 0 <= i < sexp::digit_run(s) ==> text::is_digit(#[trigger] s[i]),
        sexp::digit_run(s) < s.len() ==> !text::is_digit(s[sexp::digit_run(s) as int]),
    decreases s.len(),
{
    if s.len() > 0 && text::is_digit(s[0]) {
        lemma_digit_run(s.skip(1));
        assert forall|i: int| 0 <= i < sexp::digit_run(s) implies text::is_digit(
            #[trigger] s[i],
        ) by {
            if i > 0 {
                assert(s[i] == s.skip(1)[i - 1]);
            }
        }
    }
}

proof fn lemma_digit_run_all(s: Seq<char>, r: Seq<char>)
    requires
        text::all_digits(s),
        r.len() > 0 ==> !text::is_digit(r[0]),
    ensures
        sexp::digit_run(s + r) == s.len(),
    decreases s.len(),
{
    if s.len() == 0 {
        assert(s + r =~= r);
    } else {
        assert(text::is_digit(s[0]));
        assert((s + r)[0] == s[0]);
        assert((s + r).skip(1) =~= s.skip(1) + r);
        assert forall|i: int| 0 <= i < s.skip(1).len() implies text::is_digit(
            #[trigger] s.skip(1)[i],
        ) by {
            assert(s.skip(1)[i] == s[i + 1]);
        }
        lemma_digit_run_all(s.skip(1), r);
    }
}

/// A character of a decimal numeral.
spec fn numeral_char(c: char) -> bool {
    text::is_digit(c) || c == '+' || c == '-' || c == '.' || c == 'e' || c == 'E'
}

proof fn lemma_unsigned_decimal_chars(s: Seq<char>)
    requires
        sexp::is_unsigned_decimal(s),
    ensures
        s.len() > 0,
        text::is_digit(s[0]) || s[0] == '.',
        forall|i: int| 0 <= i < s.len() ==> numeral_char(#[trigger] s[i]),
{
    lemma_digit_run(s);
    let whole = sexp::digit_run(s) as int;
    let rest = s.skip(whole);
    assert(whole > 0 ==> text::is_digit(s[0]));
    let exp_start = if rest.len() > 0 && rest[0] == '.' {
        lemma_digit_run(rest.skip(1));
        let fraction = sexp::digit_run(rest.skip(1)) as int;
        assert(rest.skip(1 + fraction) =~= s.skip(whole + 1 + fraction));
        assert forall|i: int| whole < i < whole + 1 + fraction implies text::is_digit(
            #[trigger] s[i],
        ) by {
            assert(s[i] == rest.skip(1)[i - whole - 1]);
        }
        whole + 1 + fraction
    } else {
        whole
    };
    let e = s.skip(exp_start);
    assert forall|i: int| 0 <= i < s.len() implies numeral_char(#[trigger] s[i]) by {
        if i >= exp_start {
            assert(s[i] == e[i - exp_start]);
            let signed = e.len() > 1 && (e[1] == '+' || e[1] == '-');
            if signed && i - exp_start >= 2 {
                assert(s[i] == e.skip(2)[i - exp_start - 2]);
            } else if !signed && i - exp_start >= 1 {
                assert(s[i] == e.skip(1)[i - exp_start - 1]);
            }
        }
    }
}

/// A decimal numeral without a point and without an exponent is digits alone.
proof fn lemma_unmarked_decimal(s: Seq<char>)
    requires
        sexp::is_unsigned_decimal(s),
        forall|i: int| 0 <= i < s.len() ==> (#[trigger] s[i]) != '.' && s[i] != 'e' && s[i] != 'E',
    ensures
        text::all_digits(s),
        s.len() > 0,
        sexp::is_unsigned_decimal(s + seq!['.', '0']),
{
    lemma_digit_run(s);
    let whole = sexp::digit_run(s) as int;
    let rest = s.skip(whole);
    assert(rest.len() > 0 ==> rest[0] == s[whole]);
    assert(whole == s.len());
    let w = s + seq!['.', '0'];
    assert(w =~= s + seq!['.', '0']);
    lemma_digit_run_all(s, seq!['.', '0']);
    assert(w.skip(whole) =~= seq!['.', '0']);
    let f = w.skip(whole).skip(1);
    assert(f =~= seq!['0'] + Seq::<char>::empty());
    assert(text::all_digits(seq!['0']));
    lemma_digit_run_all(seq!['0'], Seq::empty());
    assert(w.skip(whole).skip(2) =~= Seq::<char>::empty());
}

/// A float held as a decimal numeral is readable.
pub proof fn law_decimal_readable(s: Seq<char>)
    requires
        sexp::is_decimal(s),
    ensures
        readable(Sexp::Float(s)),
{
    reveal_strlit("nil");
    reveal_strlit("t");
    let signed = s.len() > 0 && (s[0] == '+' || s[0] == '-');
    let body = if signed {
        s.skip(1)
    } else {
        s
    };
    let w = sexp::float_written(s);
    if sexp::has_float_mark(s) || text::occurs(s, "inf"@) || text::occurs(s, "nan"@) {
        assert(w == s);
        lemma_unsigned_decimal_chars(body);
        if !sexp::has_float_mark(s) {
            reveal_strlit("inf");
            reveal_strlit("nan");
            let needle = if text::occurs(s, "inf"@) {
                "inf"@
            } else {
                "nan"@
            };
            let i = choose|i: int| text::occurs_at(s, needle, i);
            assert(s.subrange(i, i + 3)[1] == needle[1]);
            assert(s[i + 1] == 'n' || s[i + 1] == 'a');
            assert(numeral_char(body[if signed {
                i
            } else {
                i + 1
            }]));
            assert(false);
        }
    } else {
        assert forall|i: int| 0 <= i < body.len() implies (#[trigger] body[i]) != '.' && body[i]
            != 'e' && body[i] != 'E' by {
            assert(s.contains(body[i])) by {
                assert(s[if signed {
                    i + 1
                } else {
                    i
                }] == body[i]);
            }
        }
        lemma_unmarked_decimal(body);
        assert(w =~= s + seq!['.', '0']);
        assert(w[s.len() as int] == '.');
        if signed {
            assert(w.skip(1) =~= body + seq!['.', '0']);
        }
    }
    assert(sexp::is_decimal(w));
    assert(sexp::has_float_mark(w));
    let wbody = if signed {
        w.skip(1)
    } else {
        w
    };
    lemma_unsigned_decimal_chars(wbody);
    assert forall|i: int| 0 <= i < w.len() implies numeral_char(#[trigger] w[i]) by {
        if signed && i > 0 {
            assert(w[i] == wbody[i - 1]);
        } else if !signed {
            assert(w[i] == wbody[i]);
        }
    }
    assert(is_atom(w));
    assert(text::i64_value(w) is None) by {
        let m = choose|c: char| (c == '.' || c == 'e' || c == 'E') && w.contains(c);
        let k = choose|k: int| 0 <= k < w.len() && w[k] == m;
        assert(!text::is_digit(w[k]));
        if signed {
            assert(w[k] == w.skip(1)[k - 1]);
        }
    }
}

} // verus!
