//! S-expressions: the values, their textual form, the reader and the writer.
//!
//! The textual form is that of Emacs Lisp's `read` and `print`.

use crate::float;
use crate::text;
use vstd::prelude::*;
use vstd::utf8::*;

verus! {

/// Errors that can occur during S-expression parsing.
#[derive(Debug, PartialEq, Eq)]
pub enum SexpError {
    UnexpectedEof,
    UnexpectedChar(char),
    UnterminatedString,
    InvalidEscape(char),
    UnmatchedClose,
    InvalidNumber(String),
}

/// An S-expression value.
#[derive(Debug, PartialEq, Eq)]
pub enum SexpValue {
    /// `nil`: both false and the empty list in Emacs Lisp.
    Nil,
    /// `t` for true.
    Bool(bool),
    /// An integer.
    Integer(i64),
    /// A floating-point number, held as the numeral that `Display` writes of it.
    Float(String),
    /// A double-quoted string.
    String(String),
    /// An unquoted symbol, such as `textDocument/completion`.
    Symbol(String),
    /// A keyword, which starts with `:`.
    Keyword(String),
    /// A cons cell `(a . b)`.
    Cons(Box<SexpValue>, Box<SexpValue>),
    /// A proper list `(a b c)`.
    List(Vec<SexpValue>),
    /// A quoted value `'x`.
    Quoted(Box<SexpValue>),
}

/// The mathematical value of a [`SexpValue`].
#[verifier::ext_equal]
pub enum Sexp {
    Nil,
    Bool(bool),
    Integer(i64),
    Float(Seq<char>),
    String(Seq<char>),
    Symbol(Seq<char>),
    Keyword(Seq<char>),
    Cons(Box<Sexp>, Box<Sexp>),
    List(Seq<Sexp>),
    Quoted(Box<Sexp>),
}

impl SexpValue {
    pub open spec fn model(self) -> Sexp
        decreases self,
    {
        match self {
            SexpValue::Nil => Sexp::Nil,
            SexpValue::Bool(b) => Sexp::Bool(b),
            SexpValue::Integer(n) => Sexp::Integer(n),
            SexpValue::Float(s) => Sexp::Float(s@),
            SexpValue::String(s) => Sexp::String(s@),
            SexpValue::Symbol(s) => Sexp::Symbol(s@),
            SexpValue::Keyword(s) => Sexp::Keyword(s@),
            SexpValue::Cons(a, b) => Sexp::Cons(Box::new(a.model()), Box::new(b.model())),
            SexpValue::List(v) => Sexp::List(
                Seq::new(
                    v@.len(),
                    |i: int|
                        if 0 <= i < v@.len() {
                            v@[i].model()
                        } else {
                            Sexp::Nil
                        },
                ),
            ),
            SexpValue::Quoted(a) => Sexp::Quoted(Box::new(a.model())),
        }
    }
}

impl View for SexpValue {
    type V = Sexp;

    open spec fn view(&self) -> Sexp {
        self.model()
    }
}

/// The mathematical values of the items.
pub open spec fn models(v: Seq<SexpValue>) -> Seq<Sexp> {
    Seq::new(v.len(), |i: int| v[i]@)
}

/// The model of a list is the list of the models.
pub proof fn lemma_list_model(v: Vec<SexpValue>)
    ensures
        SexpValue::List(v)@ == Sexp::List(models(v@)),
{
    assert(SexpValue::List(v)@->List_0 =~= models(v@));
}

impl Clone for SexpValue {
    fn clone(&self) -> (r: Self)
        ensures
            r@ == self@,
        decreases self,
    {
        match self {
            SexpValue::Nil => SexpValue::Nil,
            SexpValue::Bool(b) => SexpValue::Bool(*b),
            SexpValue::Integer(n) => SexpValue::Integer(*n),
            SexpValue::Float(s) => SexpValue::Float(s.clone()),
            SexpValue::String(s) => SexpValue::String(s.clone()),
            SexpValue::Symbol(s) => SexpValue::Symbol(s.clone()),
            SexpValue::Keyword(s) => SexpValue::Keyword(s.clone()),
            SexpValue::Cons(a, b) => SexpValue::Cons(
                Box::new((&**a).clone()),
                Box::new((&**b).clone()),
            ),
            SexpValue::List(v) => {
                let mut out: Vec<SexpValue> = Vec::new();
                let mut i: usize = 0;
                while i < v.len()
                    invariant
                        i <= v@.len(),
                        out@.len() == i,
                        *self == SexpValue::List(*v),
                        forall|j: int| 0 <= j < i ==> (#[trigger] out@[j])@ == v@[j]@,
                    decreases v@.len() - i,
                {
                    assert(decreases_to!(*self => self->List_0));
                    assert(decreases_to!(v => v[i as int]));
                    out.push(v[i].clone());
                    i = i + 1;
                }
                assert(models(out@) =~= models(v@));
                proof {
                    lemma_list_model(out);
                    lemma_list_model(*v);
                }
                SexpValue::List(out)
            },
            SexpValue::Quoted(a) => SexpValue::Quoted(Box::new((&**a).clone())),
        }
    }
}

// ---------------------------------------------------------------------------
// Textual form
// ---------------------------------------------------------------------------

/// White space between values.
pub open spec fn is_space(c: char) -> bool {
    c == ' ' || c == '\t' || c == '\n' || c == '\r'
}

/// Characters that end an atom.
pub open spec fn is_delimiter(c: char) -> bool {
    is_space(c) || c == '(' || c == ')' || c == '"'
}

/// The text after its leading white space.
pub open spec fn skip_space(s: Seq<char>) -> Seq<char>
    decreases s.len(),
{
    if s.len() > 0 && is_space(s[0]) {
        skip_space(s.skip(1))
    } else {
        s
    }
}

/// How many characters the atom at the start of the text has.
pub open spec fn atom_len(s: Seq<char>) -> nat
    decreases s.len(),
{
    if s.len() > 0 && !is_delimiter(s[0]) {
        1 + atom_len(s.skip(1))
    } else {
        0
    }
}

/// How many decimal digits the text starts with.
pub open spec fn digit_run(s: Seq<char>) -> nat
    decreases s.len(),
{
    if s.len() > 0 && text::is_digit(s[0]) {
        1 + digit_run(s.skip(1))
    } else {
        0
    }
}

/// Nothing, or an exponent: `e` or `E`, at most one sign, and digits.
pub open spec fn is_exponent(s: Seq<char>) -> bool {
    ||| s.len() == 0
    ||| {
        &&& s[0] == 'e' || s[0] == 'E'
        &&& {
            let signed = s.len() > 1 && (s[1] == '+' || s[1] == '-');
            let digits = if signed {
                s.skip(2)
            } else {
                s.skip(1)
            };
            digits.len() > 0 && text::all_digits(digits)
        }
    }
}

/// A decimal numeral without a sign: digits, at most one point, at most one exponent.
pub open spec fn is_unsigned_decimal(s: Seq<char>) -> bool {
    let whole = digit_run(s);
    let rest = s.skip(whole as int);
    if rest.len() > 0 && rest[0] == '.' {
        let fraction = digit_run(rest.skip(1));
        whole + fraction > 0 && is_exponent(rest.skip(1 + fraction as int))
    } else {
        whole > 0 && is_exponent(rest)
    }
}

/// A decimal numeral with at most one sign.
pub open spec fn is_decimal(s: Seq<char>) -> bool {
    if s.len() > 0 && (s[0] == '+' || s[0] == '-') {
        is_unsigned_decimal(s.skip(1))
    } else {
        is_unsigned_decimal(s)
    }
}

/// Whether the text holds a decimal point or an exponent's letter.
pub open spec fn has_float_mark(s: Seq<char>) -> bool {
    s.contains('.') || s.contains('e') || s.contains('E')
}

/// A floating-point numeral, with `.0` behind a whole number.
pub open spec fn float_written(s: Seq<char>) -> Seq<char> {
    if has_float_mark(s) || text::occurs(s, "inf"@) || text::occurs(s, "nan"@) {
        s
    } else {
        s + seq!['.', '0']
    }
}

/// Whether the numeral is the one that is written of the float it stands for.
pub open spec fn settles(s: Seq<char>) -> bool {
    is_decimal(s) && float::display_text(float_written(s)) == Some(s)
}

/// The numeral that is held of the float that a numeral stands for: the one that `Display` writes
/// of it, as long as that one stands for the same float. A decimal numeral that no finite float
/// is near to stands for an infinite one.
pub open spec fn numeral_of(s: Seq<char>) -> Seq<char> {
    match float::display_text(s) {
        Some(t) => if settles(t) {
            t
        } else {
            s
        },
        None => if !is_decimal(s) {
            s
        } else if s[0] == '-' {
            "-inf"@
        } else {
            "inf"@
        },
    }
}

/// The value of an atom.
pub open spec fn atom_value(token: Seq<char>) -> Sexp {
    if token == "nil"@ {
        Sexp::Nil
    } else if token == "t"@ {
        Sexp::Bool(true)
    } else if token.len() > 0 && token[0] == ':' {
        Sexp::Keyword(token)
    } else if text::i64_value(token) is Some {
        Sexp::Integer(text::i64_value(token)->0)
    } else if is_decimal(token) && has_float_mark(token) {
        Sexp::Float(numeral_of(token))
    } else {
        Sexp::Symbol(token)
    }
}

/// What the character behind a backslash stands for. An unknown escape keeps the character
/// literally, as Emacs does.
pub open spec fn unescape(c: char) -> Seq<char> {
    if c == 'n' {
        seq!['\n']
    } else if c == 't' {
        seq!['\t']
    } else if c == 'r' {
        seq!['\r']
    } else if c == 'a' {
        seq!['\x07']
    } else if c == 'b' {
        seq!['\x08']
    } else if c == 'f' {
        seq!['\x0C']
    } else if c == '0' {
        seq!['\0']
    } else {
        seq![c]
    }
}

/// Reads a string's text up to its closing quote, behind the characters `done`:
/// the whole content and what follows the quote, or nothing if the quote is missing.
pub open spec fn read_string(s: Seq<char>, done: Seq<char>) -> Option<(Seq<char>, Seq<char>)>
    decreases s.len(),
{
    if s.len() == 0 {
        None
    } else if s[0] == '"' {
        Some((done, s.skip(1)))
    } else if s[0] == '\\' {
        if s.len() == 1 {
            None
        } else {
            read_string(s.skip(2), done + unescape(s[1]))
        }
    } else {
        read_string(s.skip(1), done.push(s[0]))
    }
}

/// The items in front of a dot and the value behind it, as nested cons cells.
pub open spec fn dotted(items: Seq<Sexp>, tail: Sexp) -> Sexp
    decreases items.len(),
{
    if items.len() == 0 {
        tail
    } else {
        dotted(items.drop_last(), Sexp::Cons(Box::new(items.last()), Box::new(tail)))
    }
}

/// Whether the text starts with a dot that separates the halves of a cons cell.
pub open spec fn is_cons_dot(s: Seq<char>) -> bool {
    s.len() > 1 && s[0] == '.' && (s[1] == ' ' || s[1] == '\t' || s[1] == '\n' || s[1] == ')')
}

/// Reads the value at the start of the text: the value and the text behind it, or the error.
pub open spec fn read_value(s: Seq<char>) -> Result<(Sexp, Seq<char>), SexpError>
    decreases s.len(), 0nat,
{
    proof {
        lemma_skip_space_len(s);
    }
    let t = skip_space(s);
    if t.len() == 0 {
        Err(SexpError::UnexpectedEof)
    } else if t[0] == '"' {
        match read_string(t.skip(1), Seq::empty()) {
            Some((content, rest)) => Ok((Sexp::String(content), rest)),
            None => Err(SexpError::UnterminatedString),
        }
    } else if t[0] == '(' {
        read_items(t.skip(1), Seq::empty())
    } else if t[0] == ')' {
        Err(SexpError::UnmatchedClose)
    } else if t[0] == '\'' {
        match read_value(t.skip(1)) {
            Ok((v, rest)) => Ok((Sexp::Quoted(Box::new(v)), rest)),
            Err(e) => Err(e),
        }
    } else {
        let n = atom_len(t) as int;
        Ok((atom_value(t.take(n)), t.skip(n)))
    }
}

/// Reads the rest of a list, behind the items already read.
pub open spec fn read_items(s: Seq<char>, items: Seq<Sexp>) -> Result<
    (Sexp, Seq<char>),
    SexpError,
>
    decreases s.len(), 1nat,
{
    proof {
        lemma_skip_space_len(s);
    }
    let t = skip_space(s);
    if t.len() == 0 {
        Err(SexpError::UnexpectedEof)
    } else if t[0] == ')' {
        Ok((Sexp::List(items), t.skip(1)))
    } else if is_cons_dot(t) {
        match read_value(t.skip(1)) {
            Ok((tail, rest)) => {
                let u = skip_space(rest);
                if u.len() > 0 && u[0] == ')' && items.len() > 0 {
                    Ok((dotted(items, tail), u.skip(1)))
                } else {
                    Err(SexpError::UnexpectedChar('.'))
                }
            },
            Err(e) => Err(e),
        }
    } else {
        match read_value(t) {
            Ok((v, rest)) => if rest.len() < t.len() {
                read_items(rest, items.push(v))
            } else {
                Err(SexpError::UnexpectedEof)
            },
            Err(e) => Err(e),
        }
    }
}

pub proof fn lemma_skip_space_len(s: Seq<char>)
    ensures
        skip_space(s).len() <= s.len(),
        skip_space(s).len() > 0 ==> !is_space(skip_space(s)[0]),
        skip_space(skip_space(s)) == skip_space(s),
    decreases s.len(),
{
    if s.len() > 0 && is_space(s[0]) {
        lemma_skip_space_len(s.skip(1));
    }
}

pub proof fn lemma_atom_len(s: Seq<char>)
    ensures
        atom_len(s) <= s.len(),
        forall|i: int| 0 <= i < atom_len(s) ==> !is_delimiter(#[trigger] s[i]),
        atom_len(s) < s.len() ==> is_delimiter(s[atom_len(s) as int]),
    decreases s.len(),
{
    if s.len() > 0 && !is_delimiter(s[0]) {
        lemma_atom_len(s.skip(1));
        assert forall|i: int| 0 <= i < atom_len(s) implies !is_delimiter(#[trigger] s[i]) by {
            if i > 0 {
                assert(s[i] == s.skip(1)[i - 1]);
            }
        }
    }
}

pub proof fn lemma_read_string_len(s: Seq<char>, done: Seq<char>)
    ensures
        read_string(s, done) matches Some((content, rest)) ==> rest.len() < s.len(),
    decreases s.len(),
{
    if s.len() == 0 {
    } else if s[0] == '"' {
    } else if s[0] == '\\' {
        if s.len() > 1 {
            lemma_read_string_len(s.skip(2), done + unescape(s[1]));
        }
    } else {
        lemma_read_string_len(s.skip(1), done.push(s[0]));
    }
}

/// Reading a value takes at least one character off the text.
pub proof fn lemma_read_value_len(s: Seq<char>)
    ensures
        read_value(s) matches Ok((v, rest)) ==> rest.len() < s.len(),
    decreases s.len(), 0nat,
{
    lemma_skip_space_len(s);
    let t = skip_space(s);
    if t.len() == 0 {
    } else if t[0] == '"' {
        lemma_read_string_len(t.skip(1), Seq::empty());
    } else if t[0] == '(' {
        lemma_read_items_len(t.skip(1), Seq::empty());
    } else if t[0] == '\'' {
        lemma_read_value_len(t.skip(1));
    } else {
        lemma_atom_len(t);
    }
}

pub proof fn lemma_read_items_len(s: Seq<char>, items: Seq<Sexp>)
    ensures
        read_items(s, items) matches Ok((v, rest)) ==> rest.len() < s.len(),
    decreases s.len(), 1nat,
{
    lemma_skip_space_len(s);
    let t = skip_space(s);
    if t.len() == 0 {
    } else if t[0] == ')' {
    } else if is_cons_dot(t) {
        lemma_read_value_len(t.skip(1));
        if let Ok((tail, rest)) = read_value(t.skip(1)) {
            lemma_skip_space_len(rest);
        }
    } else {
        lemma_read_value_len(t);
        if let Ok((v, rest)) = read_value(t) {
            lemma_read_items_len(rest, items.push(v));
        }
    }
}

// ---------------------------------------------------------------------------
// Reader
// ---------------------------------------------------------------------------

fn space(c: char) -> (r: bool)
    ensures
        r == is_space(c),
{
    c == ' ' || c == '\t' || c == '\n' || c == '\r'
}

fn delimiter(c: char) -> (r: bool)
    ensures
        r == is_delimiter(c),
{
    space(c) || c == '(' || c == ')' || c == '"'
}

/// How many decimal digits the text starts with.
fn count_digits(s: &[char]) -> (r: usize)
    ensures
        r == digit_run(s@),
        r <= s@.len(),
{
    let mut i: usize = 0;
    assert(s@.skip(0) =~= s@);
    while i < s.len() && '0' <= s[i] && s[i] <= '9'
        invariant
            i <= s@.len(),
            digit_run(s@) == i + digit_run(s@.skip(i as int)),
        decreases s@.len() - i,
    {
        assert(s@.skip(i as int).skip(1) =~= s@.skip(i + 1));
        i = i + 1;
    }
    i
}

fn check_exponent(s: &[char]) -> (r: bool)
    ensures
        r == is_exponent(s@),
{
    if s.len() == 0 {
        return true;
    }
    if s[0] != 'e' && s[0] != 'E' {
        return false;
    }
    let signed = s.len() > 1 && (s[1] == '+' || s[1] == '-');
    let digits = vstd::slice::slice_subrange(
        s,
        if signed {
            2
        } else {
            1
        },
        s.len(),
    );
    assert(digits@ =~= (if signed {
        s@.skip(2)
    } else {
        s@.skip(1)
    }));
    digits.len() > 0 && text::check_digits(digits)
}

fn check_unsigned_decimal(s: &[char]) -> (r: bool)
    ensures
        r == is_unsigned_decimal(s@),
{
    let whole: usize = count_digits(s);
    let rest = vstd::slice::slice_subrange(s, whole, s.len());
    assert(rest@ =~= s@.skip(whole as int));
    if rest.len() > 0 && rest[0] == '.' {
        let after = vstd::slice::slice_subrange(rest, 1, rest.len());
        assert(after@ =~= rest@.skip(1));
        let fraction: usize = count_digits(after);
        let end = vstd::slice::slice_subrange(after, fraction, after.len());
        assert(end@ =~= rest@.skip(1 + fraction as int));
        (whole > 0 || fraction > 0) && check_exponent(end)
    } else {
        whole > 0 && check_exponent(rest)
    }
}

/// Whether the text is a decimal numeral with at most one sign.
pub fn check_decimal(s: &[char]) -> (r: bool)
    ensures
        r == is_decimal(s@),
{
    if s.len() > 0 && (s[0] == '+' || s[0] == '-') {
        let rest = vstd::slice::slice_subrange(s, 1, s.len());
        assert(rest@ =~= s@.skip(1));
        check_unsigned_decimal(rest)
    } else {
        check_unsigned_decimal(s)
    }
}

/// Whether the text holds a decimal point or an exponent's letter.
pub fn check_float_mark(s: &[char]) -> (r: bool)
    ensures
        r == has_float_mark(s@),
{
    let mut i: usize = 0;
    while i < s.len()
        invariant
            i <= s@.len(),
            forall|j: int|
                0 <= j < i ==> (#[trigger] s@[j]) != '.' && s@[j] != 'e' && s@[j] != 'E',
        decreases s@.len() - i,
    {
        if s[i] == '.' || s[i] == 'e' || s[i] == 'E' {
            assert(s@.contains(s@[i as int]));
            return true;
        }
        i = i + 1;
    }
    false
}

/// Appends what the character behind a backslash stands for.
fn push_unescaped(c: char, out: &mut String)
    ensures
        final(out)@ == old(out)@ + unescape(c),
{
    if c == 'n' {
        out.push('\n');
    } else if c == 't' {
        out.push('\t');
    } else if c == 'r' {
        out.push('\r');
    } else if c == 'a' {
        out.push('\x07');
    } else if c == 'b' {
        out.push('\x08');
    } else if c == 'f' {
        out.push('\x0C');
    } else if c == '0' {
        out.push('\0');
    } else {
        out.push(c);
    }
}

fn push_float(s: &str, buf: &mut String)
    ensures
        final(buf)@ == old(buf)@ + float_written(s@),
{
    let chars = text::to_chars(s);
    let inf = text::to_chars("inf");
    let nan = text::to_chars("nan");
    buf.append(s);
    if !check_float_mark(chars.as_slice()) && !text::contains(chars.as_slice(), inf.as_slice())
        && !text::contains(chars.as_slice(), nan.as_slice()) {
        buf.push('.');
        buf.push('0');
        assert(buf@ =~= old(buf)@ + float_written(s@));
    }
}

/// The numeral that is held of the float that a numeral stands for.
pub fn held_numeral(s: &str) -> (r: String)
    ensures
        r@ == numeral_of(s@),
{
    match float::display(s) {
        Some(t) => {
            let chars = text::to_chars(t.as_str());
            if !check_decimal(chars.as_slice()) {
                return s.to_string();
            }
            let mut written_text = String::new();
            push_float(t.as_str(), &mut written_text);
            match float::display(written_text.as_str()) {
                Some(u) => if text::str_eq(u.as_str(), t.as_str()) {
                    t
                } else {
                    s.to_string()
                },
                None => s.to_string(),
            }
        },
        None => {
            let chars = text::to_chars(s);
            if !check_decimal(chars.as_slice()) {
                s.to_string()
            } else if chars[0] == '-' {
                String::from_str("-inf")
            } else {
                String::from_str("inf")
            }
        },
    }
}

/// The value of an atom.
fn atom(token: &[char]) -> (r: SexpValue)
    ensures
        r@ == atom_value(token@),
{
    let s = text::from_chars(token);
    if text::str_eq(s.as_str(), "nil") {
        SexpValue::Nil
    } else if text::str_eq(s.as_str(), "t") {
        SexpValue::Bool(true)
    } else if token.len() > 0 && token[0] == ':' {
        SexpValue::Keyword(s)
    } else {
        match text::parse_i64(token) {
            Some(n) => SexpValue::Integer(n),
            None => if check_decimal(token) && check_float_mark(token) {
                SexpValue::Float(held_numeral(s.as_str()))
            } else {
                SexpValue::Symbol(s)
            },
        }
    }
}

/// A recursive-descent reader over the characters of a text.
struct Parser {
    input: Vec<char>,
    pos: usize,
}

impl Parser {
    spec fn inv(self) -> bool {
        self.pos <= self.input.len()
    }

    /// What is left to read.
    spec fn rest(self) -> Seq<char> {
        self.input@.skip(self.pos as int)
    }

    fn new(input: &str) -> (r: Self)
        ensures
            r.inv(),
            r.rest() == input@,
            r.input@ == input@,
            r.pos == 0,
    {
        let r = Parser { input: text::to_chars(input), pos: 0 };
        assert(r.rest() =~= input@);
        r
    }

    fn peek(&self) -> (r: Option<char>)
        requires
            self.inv(),
        ensures
            r == (if self.rest().len() > 0 {
                Some(self.rest()[0])
            } else {
                None
            }),
    {
        if self.pos < self.input.len() {
            Some(self.input[self.pos])
        } else {
            None
        }
    }

    fn advance(&mut self)
        requires
            old(self).inv(),
            old(self).rest().len() > 0,
        ensures
            final(self).inv(),
            final(self).input == old(self).input,
            final(self).pos == old(self).pos + 1,
            final(self).rest() == old(self).rest().skip(1),
    {
        self.pos = self.pos + 1;
        assert(self.rest() =~= old(self).rest().skip(1));
    }

    fn skip_whitespace(&mut self)
        requires
            old(self).inv(),
        ensures
            final(self).inv(),
            final(self).input == old(self).input,
            final(self).rest() == skip_space(old(self).rest()),
    {
        while self.pos < self.input.len() && space(self.input[self.pos])
            invariant
                self.inv(),
                self.input == old(self).input,
                skip_space(self.rest()) == skip_space(old(self).rest()),
            decreases self.input@.len() - self.pos,
        {
            self.advance();
        }
    }

    fn parse_value(&mut self) -> (r: Result<SexpValue, SexpError>)
        requires
            old(self).inv(),
        ensures
            final(self).inv(),
            final(self).input == old(self).input,
            match read_value(old(self).rest()) {
                Ok((v, rest)) => r is Ok && r->Ok_0@ == v && final(self).rest() == rest,
                Err(e) => r is Err && r->Err_0 == e,
            },
        decreases old(self).rest().len(), 1nat,
    {
        proof {
            lemma_skip_space_len(self.rest());
        }
        self.skip_whitespace();
        match self.peek() {
            None => Err(SexpError::UnexpectedEof),
            Some(c) => if c == '"' {
                self.parse_string()
            } else if c == '(' {
                self.parse_list()
            } else if c == ')' {
                Err(SexpError::UnmatchedClose)
            } else if c == '\'' {
                self.parse_quoted()
            } else {
                self.parse_atom()
            },
        }
    }

    fn parse_string(&mut self) -> (r: Result<SexpValue, SexpError>)
        requires
            old(self).inv(),
            old(self).rest().len() > 0,
            old(self).rest()[0] == '"',
        ensures
            final(self).inv(),
            final(self).input == old(self).input,
            match read_string(old(self).rest().skip(1), Seq::empty()) {
                Some((content, rest)) => r is Ok && r->Ok_0@ == Sexp::String(content)
                    && final(self).rest() == rest,
                None => r == Err::<SexpValue, SexpError>(SexpError::UnterminatedString),
            },
    {
        self.advance();
        let mut s = String::new();
        loop
            invariant
                self.inv(),
                self.input == old(self).input,
                read_string(self.rest(), s@) == read_string(
                    old(self).rest().skip(1),
                    Seq::empty(),
                ),
            decreases self.rest().len(),
        {
            match self.peek() {
                None => return Err(SexpError::UnterminatedString),
                Some(c) => {
                    if c == '"' {
                        self.advance();
                        return Ok(SexpValue::String(s));
                    } else if c == '\\' {
                        let ghost before = self.rest();
                        self.advance();
                        match self.peek() {
                            None => return Err(SexpError::UnterminatedString),
                            Some(d) => {
                                push_unescaped(d, &mut s);
                                self.advance();
                                assert(self.rest() =~= before.skip(2));
                            },
                        }
                    } else {
                        s.push(c);
                        self.advance();
                    }
                },
            }
        }
    }

    fn parse_list(&mut self) -> (r: Result<SexpValue, SexpError>)
        requires
            old(self).inv(),
            old(self).rest().len() > 0,
            old(self).rest()[0] == '(',
        ensures
            final(self).inv(),
            final(self).input == old(self).input,
            match read_items(old(self).rest().skip(1), Seq::empty()) {
                Ok((v, rest)) => r is Ok && r->Ok_0@ == v && final(self).rest() == rest,
                Err(e) => r is Err && r->Err_0 == e,
            },
        decreases old(self).rest().len(), 0nat,
    {
        self.advance();
        let mut items: Vec<SexpValue> = Vec::new();
        assert(models(items@) =~= Seq::<Sexp>::empty());
        loop
            invariant
                self.inv(),
                self.input == old(self).input,
                self.rest().len() < old(self).rest().len(),
                read_items(self.rest(), models(items@)) == read_items(
                    old(self).rest().skip(1),
                    Seq::empty(),
                ),
            decreases self.rest().len(),
        {
            proof {
                lemma_skip_space_len(self.rest());
            }
            self.skip_whitespace();
            match self.peek() {
                None => return Err(SexpError::UnexpectedEof),
                Some(c) => {
                    if c == ')' {
                        self.advance();
                        proof {
                            lemma_list_model(items);
                        }
                        return Ok(SexpValue::List(items));
                    }
                    if c == '.' && self.at_cons_dot() {
                        self.advance();
                        let tail = self.parse_value()?;
                        self.skip_whitespace();
                        match self.peek() {
                            Some(d) => if d == ')' && items.len() > 0 {
                                self.advance();
                                return Ok(nest(items, tail));
                            } else {
                                return Err(SexpError::UnexpectedChar('.'));
                            },
                            None => return Err(SexpError::UnexpectedChar('.')),
                        }
                    }
                    proof {
                        lemma_read_value_len(self.rest());
                    }
                    let ghost earlier = items@;
                    let item = self.parse_value()?;
                    items.push(item);
                    assert(models(items@) =~= models(earlier).push(item@));
                },
            }
        }
    }

    fn at_cons_dot(&self) -> (r: bool)
        requires
            self.inv(),
            self.rest().len() > 0,
        ensures
            r == is_cons_dot(self.rest()),
    {
        if self.input[self.pos] != '.' || self.input.len() - self.pos < 2 {
            return false;
        }
        let next = self.input[self.pos + 1];
        assert(next == self.rest()[1]);
        next == ' ' || next == '\t' || next == '\n' || next == ')'
    }

    fn parse_quoted(&mut self) -> (r: Result<SexpValue, SexpError>)
        requires
            old(self).inv(),
            old(self).rest().len() > 0,
            old(self).rest()[0] == '\'',
        ensures
            final(self).inv(),
            final(self).input == old(self).input,
            match read_value(old(self).rest().skip(1)) {
                Ok((v, rest)) => r is Ok && r->Ok_0@ == Sexp::Quoted(Box::new(v))
                    && final(self).rest() == rest,
                Err(e) => r is Err && r->Err_0 == e,
            },
        decreases old(self).rest().len(), 0nat,
    {
        self.advance();
        let value = self.parse_value()?;
        Ok(SexpValue::Quoted(Box::new(value)))
    }

    fn parse_atom(&mut self) -> (r: Result<SexpValue, SexpError>)
        requires
            old(self).inv(),
        ensures
            final(self).inv(),
            final(self).input == old(self).input,
            ({
                let n = atom_len(old(self).rest()) as int;
                &&& r is Ok
                &&& r->Ok_0@ == atom_value(old(self).rest().take(n))
                &&& final(self).rest() == old(self).rest().skip(n)
            }),
    {
        let start: usize = self.pos;
        assert(self.input@.skip(start as int) =~= self.rest());
        while self.pos < self.input.len() && !delimiter(self.input[self.pos])
            invariant
                self.inv(),
                start <= self.pos,
                start == old(self).pos,
                self.input == old(self).input,
                atom_len(old(self).rest()) == self.pos - start + atom_len(self.rest()),
            decreases self.input@.len() - self.pos,
        {
            self.advance();
        }
        let token = vstd::slice::slice_subrange(self.input.as_slice(), start, self.pos);
        assert(token@ =~= old(self).rest().take(self.pos - start));
        assert(self.rest() =~= old(self).rest().skip(self.pos - start));
        Ok(atom(token))
    }
}

/// The items in front of a dot and the value behind it, as nested cons cells.
fn nest(items: Vec<SexpValue>, tail: SexpValue) -> (r: SexpValue)
    ensures
        r@ == dotted(models(items@), tail@),
{
    let ghost all = models(items@);
    let mut items = items;
    let mut result = tail;
    while items.len() > 0
        invariant
            dotted(models(items@), result@) == dotted(all, tail@),
        decreases items@.len(),
    {
        let ghost before = items@;
        let ghost inner = result@;
        if let Some(item) = items.pop() {
            assert(models(items@) =~= models(before).drop_last());
            assert(models(before).last() == item@);
            result = SexpValue::Cons(Box::new(item), Box::new(result));
        }
    }
    result
}

/// Parse an S-expression string into a `SexpValue`.
///
/// What follows the first value is ignored.
pub fn parse(input: &str) -> (r: Result<SexpValue, SexpError>)
    ensures
        match read_value(input@) {
            Ok((v, rest)) => r is Ok && r->Ok_0@ == v,
            Err(e) => r is Err && r->Err_0 == e,
        },
{
    let mut parser = Parser::new(input);
    parser.parse_value()
}

/// Parse an S-expression, returning the value and the number of bytes consumed.
pub fn parse_with_len(input: &str) -> (r: Result<(SexpValue, usize), SexpError>)
    ensures
        match read_value(input@) {
            Ok((v, rest)) => r is Ok && r->Ok_0.0@ == v && r->Ok_0.1 == encode_utf8(
                input@.take(input@.len() - rest.len()),
            ).len(),
            Err(e) => r is Err && r->Err_0 == e,
        },
{
    let mut parser = Parser::new(input);
    let value = parser.parse_value()?;
    let consumed: usize = text::utf8_offset(input, parser.input.as_slice(), parser.pos);
    Ok((value, consumed))
}

// ---------------------------------------------------------------------------
// Writer
// ---------------------------------------------------------------------------

/// A character as it stands in a double-quoted string.
pub open spec fn escape_char(c: char) -> Seq<char> {
    if c == '"' {
        seq!['\\', '"']
    } else if c == '\\' {
        seq!['\\', '\\']
    } else if c == '\n' {
        seq!['\\', 'n']
    } else if c == '\t' {
        seq!['\\', 't']
    } else if c == '\r' {
        seq!['\\', 'r']
    } else if c == '\x07' {
        seq!['\\', 'a']
    } else if c == '\x08' {
        seq!['\\', 'b']
    } else if c == '\x0C' {
        seq!['\\', 'f']
    } else if c == '\0' {
        seq!['\\', '0']
    } else {
        seq![c]
    }
}

/// The content of a double-quoted string.
pub open spec fn escape(s: Seq<char>) -> Seq<char>
    decreases s.len(),
{
    if s.len() == 0 {
        Seq::empty()
    } else {
        escape_char(s[0]) + escape(s.skip(1))
    }
}

/// The textual form of a value.
pub open spec fn written(v: Sexp) -> Seq<char>
    decreases v,
{
    match v {
        Sexp::Nil => "nil"@,
        Sexp::Bool(b) => if b {
            seq!['t']
        } else {
            "nil"@
        },
        Sexp::Integer(n) => text::signed_decimal(n as int),
        Sexp::Float(s) => float_written(s),
        Sexp::String(s) => seq!['"'] + escape(s) + seq!['"'],
        Sexp::Symbol(s) => s,
        Sexp::Keyword(s) => s,
        Sexp::Cons(a, b) => seq!['('] + written(*a) + seq![' ', '.', ' '] + written(*b) + seq![')'],
        Sexp::List(items) => seq!['('] + written_items(items) + seq![')'],
        Sexp::Quoted(a) => seq!['\''] + written(*a),
    }
}

/// The textual forms of the values, with one blank between each two.
pub open spec fn written_items(items: Seq<Sexp>) -> Seq<char>
    decreases items,
{
    if items.len() == 0 {
        Seq::empty()
    } else if items.len() == 1 {
        written(items[0])
    } else {
        written(items[0]) + seq![' '] + written_items(items.drop_first())
    }
}

fn push_escaped_char(c: char, buf: &mut String)
    ensures
        final(buf)@ == old(buf)@ + escape_char(c),
{
    let escape = if c == '"' {
        '"'
    } else if c == '\\' {
        '\\'
    } else if c == '\n' {
        'n'
    } else if c == '\t' {
        't'
    } else if c == '\r' {
        'r'
    } else if c == '\x07' {
        'a'
    } else if c == '\x08' {
        'b'
    } else if c == '\x0C' {
        'f'
    } else if c == '\0' {
        '0'
    } else {
        buf.push(c);
        return;
    };
    buf.push('\\');
    buf.push(escape);
}

fn push_escaped(s: &str, buf: &mut String)
    ensures
        final(buf)@ == old(buf)@ + escape(s@),
{
    let chars = text::to_chars(s);
    let mut i: usize = 0;
    assert(s@.skip(0) =~= s@);
    while i < chars.len()
        invariant
            chars@ == s@,
            i <= chars@.len(),
            buf@ + escape(s@.skip(i as int)) == old(buf)@ + escape(s@),
        decreases chars@.len() - i,
    {
        let ghost before = buf@;
        push_escaped_char(chars[i], buf);
        assert(s@.skip(i as int).skip(1) =~= s@.skip(i + 1));
        assert(buf@ + escape(s@.skip(i + 1)) =~= before + escape(s@.skip(i as int)));
        i = i + 1;
    }
    assert(buf@ =~= buf@ + escape(s@.skip(i as int)));
}

fn serialize_into(value: &SexpValue, buf: &mut String)
    ensures
        final(buf)@ == old(buf)@ + written(value@),
    decreases value,
{
    match value {
        SexpValue::Nil => buf.append("nil"),
        SexpValue::Bool(b) => if *b {
            buf.push('t');
        } else {
            buf.append("nil");
        },
        SexpValue::Integer(n) => {
            let numeral = text::signed_decimal_string(*n);
            buf.append(numeral.as_str());
        },
        SexpValue::Float(s) => push_float(s.as_str(), buf),
        SexpValue::String(s) => {
            buf.push('"');
            push_escaped(s.as_str(), buf);
            buf.push('"');
        },
        SexpValue::Symbol(s) => buf.append(s.as_str()),
        SexpValue::Keyword(s) => buf.append(s.as_str()),
        SexpValue::Cons(a, b) => {
            buf.push('(');
            serialize_into(a, buf);
            buf.push(' ');
            buf.push('.');
            buf.push(' ');
            serialize_into(b, buf);
            buf.push(')');
        },
        SexpValue::List(items) => {
            buf.push('(');
            let ghost all = models(items@);
            let ghost start = buf@;
            let mut i: usize = 0;
            assert(all.skip(0) =~= all);
            while i < items.len()
                invariant
                    i <= items@.len(),
                    *value == SexpValue::List(*items),
                    all == models(items@),
                    i < items@.len() ==> buf@ + (if i > 0 {
                        seq![' ']
                    } else {
                        Seq::empty()
                    }) + written_items(all.skip(i as int)) == start + written_items(all),
                    i == items@.len() ==> buf@ == start + written_items(all),
                decreases items@.len() - i,
            {
                let ghost before = buf@;
                if i > 0 {
                    buf.push(' ');
                }
                assert(decreases_to!(*value => value->List_0));
                assert(decreases_to!(items => items[i as int]));
                serialize_into(&items[i], buf);
                assert(all.skip(i as int).drop_first() =~= all.skip(i + 1));
                i = i + 1;
                assert(i < items@.len() ==> buf@ + seq![' '] + written_items(all.skip(i as int))
                    =~= start + written_items(all));
            }
            buf.push(')');
            proof {
                lemma_list_model(*items);
            }
        },
        SexpValue::Quoted(a) => {
            buf.push('\'');
            serialize_into(a, buf);
        },
    }
    assert(buf@ =~= old(buf)@ + written(value@));
}

/// Serialize a `SexpValue` to an S-expression string.
pub fn serialize(value: &SexpValue) -> (r: String)
    ensures
        r@ == written(value@),
{
    let mut buf = String::new();
    serialize_into(value, &mut buf);
    buf
}

// ---------------------------------------------------------------------------
// Construction and access
// ---------------------------------------------------------------------------

/// The text that `{:?}` gives for a character.
pub uninterp spec fn char_debug(c: char) -> Seq<char>;

/// `format!("{:?}", c)`: the character in quote marks, escaped where it is not printable. Its
/// text is named, not described.
#[verifier::external_body]
fn char_debug_string(c: char) -> (r: String)
    ensures
        r@ == char_debug(c),
{
    format!("{:?}", c)
}

/// The message of an error.
pub open spec fn error_text(e: SexpError) -> Seq<char> {
    match e {
        SexpError::UnexpectedEof => "unexpected end of input"@,
        SexpError::UnexpectedChar(c) => "unexpected character: "@ + char_debug(c),
        SexpError::UnterminatedString => "unterminated string"@,
        SexpError::InvalidEscape(c) => "invalid escape sequence: \\"@ + seq![c],
        SexpError::UnmatchedClose => "unmatched closing parenthesis"@,
        SexpError::InvalidNumber(s) => "invalid number: "@ + s@,
    }
}

impl SexpError {
    /// The message of the error.
    pub fn to_string(&self) -> (r: String)
        ensures
            r@ == error_text(*self),
    {
        match self {
            SexpError::UnexpectedEof => String::from_str("unexpected end of input"),
            SexpError::UnexpectedChar(c) => {
                let mut r = String::from_str("unexpected character: ");
                let shown = char_debug_string(*c);
                r.append(shown.as_str());
                r
            },
            SexpError::UnterminatedString => String::from_str("unterminated string"),
            SexpError::InvalidEscape(c) => {
                let mut r = String::from_str("invalid escape sequence: \\");
                r.push(*c);
                assert(r@ =~= error_text(*self));
                r
            },
            SexpError::UnmatchedClose => String::from_str("unmatched closing parenthesis"),
            SexpError::InvalidNumber(s) => {
                let mut r = String::from_str("invalid number: ");
                r.append(s.as_str());
                r
            },
        }
    }
}

/// The keyword of a name: the name with a colon in front, unless it starts with one.
pub open spec fn keyword_name(name: Seq<char>) -> Seq<char> {
    if name.len() > 0 && name[0] == ':' {
        name
    } else {
        seq![':'] + name
    }
}

impl SexpValue {
    /// Returns true if this value is Nil.
    pub fn is_nil(&self) -> (r: bool)
        ensures
            r == (self@ is Nil),
    {
        matches!(self, SexpValue::Nil)
    }

    /// Try to extract as a string reference.
    pub fn as_str(&self) -> (r: Option<&str>)
        ensures
            r is Some <==> self@ is String,
            r is Some ==> self@ == Sexp::String(r->0@),
    {
        match self {
            SexpValue::String(s) => Some(s.as_str()),
            _ => None,
        }
    }

    /// Try to extract as a symbol name.
    pub fn as_symbol(&self) -> (r: Option<&str>)
        ensures
            r is Some <==> self@ is Symbol,
            r is Some ==> self@ == Sexp::Symbol(r->0@),
    {
        match self {
            SexpValue::Symbol(s) => Some(s.as_str()),
            _ => None,
        }
    }

    /// Try to extract as an integer.
    pub fn as_integer(&self) -> (r: Option<i64>)
        ensures
            r == (match self@ {
                Sexp::Integer(n) => Some(n),
                _ => None,
            }),
    {
        match self {
            SexpValue::Integer(n) => Some(*n),
            _ => None,
        }
    }

    /// Try to extract as a float's numeral.
    pub fn as_float(&self) -> (r: Option<&str>)
        ensures
            r is Some <==> self@ is Float,
            r is Some ==> self@ == Sexp::Float(r->0@),
    {
        match self {
            SexpValue::Float(s) => Some(s.as_str()),
            _ => None,
        }
    }

    /// Try to extract as a list reference.
    pub fn as_list(&self) -> (r: Option<&[SexpValue]>)
        ensures
            r is Some <==> self@ is List,
            r is Some ==> self@ == Sexp::List(models(r->0@)),
    {
        match self {
            SexpValue::List(items) => {
                proof {
                    lemma_list_model(*items);
                }
                Some(items.as_slice())
            },
            _ => None,
        }
    }

    /// Create a symbol value.
    pub fn symbol(name: &str) -> (r: Self)
        ensures
            r@ == Sexp::Symbol(name@),
    {
        SexpValue::Symbol(name.to_string())
    }

    /// Create a keyword value (with leading colon).
    pub fn keyword(name: &str) -> (r: Self)
        ensures
            r@ == Sexp::Keyword(keyword_name(name@)),
    {
        let chars = text::to_chars(name);
        if chars.len() > 0 && chars[0] == ':' {
            SexpValue::Keyword(name.to_string())
        } else {
            let mut s = String::new();
            s.push(':');
            s.append(name);
            assert(s@ =~= keyword_name(name@));
            SexpValue::Keyword(s)
        }
    }

    /// Create a quoted value.
    pub fn quoted(inner: SexpValue) -> (r: Self)
        ensures
            r@ == Sexp::Quoted(Box::new(inner@)),
    {
        SexpValue::Quoted(Box::new(inner))
    }

    /// The textual form of the value.
    pub fn to_string(&self) -> (r: String)
        ensures
            r@ == written(self@),
    {
        serialize(self)
    }
}

impl From<i64> for SexpValue {
    fn from(n: i64) -> (r: Self) {
        SexpValue::Integer(n)
    }
}

impl vstd::std_specs::convert::FromSpecImpl<i64> for SexpValue {
    open spec fn obeys_from_spec() -> bool {
        true
    }

    open spec fn from_spec(n: i64) -> Self {
        SexpValue::Integer(n)
    }
}

impl From<bool> for SexpValue {
    fn from(b: bool) -> (r: Self) {
        if b {
            SexpValue::Bool(true)
        } else {
            SexpValue::Nil
        }
    }
}

impl vstd::std_specs::convert::FromSpecImpl<bool> for SexpValue {
    open spec fn obeys_from_spec() -> bool {
        true
    }

    open spec fn from_spec(b: bool) -> Self {
        if b {
            SexpValue::Bool(true)
        } else {
            SexpValue::Nil
        }
    }
}

impl From<String> for SexpValue {
    fn from(s: String) -> (r: Self) {
        SexpValue::String(s)
    }
}

impl vstd::std_specs::convert::FromSpecImpl<String> for SexpValue {
    open spec fn obeys_from_spec() -> bool {
        true
    }

    open spec fn from_spec(s: String) -> Self {
        SexpValue::String(s)
    }
}

impl From<Vec<SexpValue>> for SexpValue {
    fn from(items: Vec<SexpValue>) -> (r: Self) {
        SexpValue::List(items)
    }
}

impl vstd::std_specs::convert::FromSpecImpl<Vec<SexpValue>> for SexpValue {
    open spec fn obeys_from_spec() -> bool {
        true
    }

    open spec fn from_spec(items: Vec<SexpValue>) -> Self {
        SexpValue::List(items)
    }
}

impl From<&str> for SexpValue {
    fn from(s: &str) -> (r: Self)
        ensures
            r@ == Sexp::String(s@),
    {
        SexpValue::String(s.to_string())
    }
}

impl vstd::std_specs::convert::FromSpecImpl<&str> for SexpValue {
    open spec fn obeys_from_spec() -> bool {
        false
    }

    open spec fn from_spec(s: &str) -> Self {
        arbitrary()
    }
}

} // verus!
