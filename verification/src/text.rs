//! Strings as sequences of characters: building, decimal and hexadecimal numerals.

use vstd::prelude::*;
use vstd::utf8::*;

verus! {

/// `String::push` appends the character to the end of the string.
pub assume_specification[ std::string::String::push ](s: &mut std::string::String, c: char)
    ensures
        final(s)@ == old(s)@.push(c),
;

/// The characters of a string, in order.
pub fn to_chars(s: &str) -> (r: Vec<char>)
    ensures
        r@ == s@,
{
    let mut r: Vec<char> = Vec::new();
    for c in it: s.chars()
        invariant
            r@ == it.seq().take(it.index()),
    {
        r.push(c);
    }
    r
}

/// The string made of the given characters.
pub fn from_chars(v: &[char]) -> (r: String)
    ensures
        r@ == v@,
{
    let mut r = String::new();
    let mut i: usize = 0;
    while i < v.len()
        invariant
            i <= v@.len(),
            r@ == v@.take(i as int),
        decreases v@.len() - i,
    {
        r.push(v[i]);
        i = i + 1;
    }
    r
}

/// Whether the two strings hold the same characters.
pub fn str_eq(a: &str, b: &str) -> (r: bool)
    ensures
        r == (a@ == b@),
{
    a.to_string() == b.to_string()
}

/// The two strings, one behind the other.
pub fn concat(a: &str, b: &str) -> (r: String)
    ensures
        r@ == a@ + b@,
{
    let mut r = String::from_str(a);
    r.append(b);
    r
}

/// The order of strings: character by character, a prefix in front of what continues it.
pub open spec fn less(a: Seq<char>, b: Seq<char>) -> bool
    decreases a.len(),
{
    if b.len() == 0 {
        false
    } else if a.len() == 0 {
        true
    } else if a[0] == b[0] {
        less(a.skip(1), b.skip(1))
    } else {
        a[0] < b[0]
    }
}

/// No string stands before itself.
pub proof fn lemma_less_irreflexive(a: Seq<char>)
    ensures
        !less(a, a),
    decreases a.len(),
{
    if a.len() > 0 {
        lemma_less_irreflexive(a.skip(1));
    }
}

/// Of two different strings one stands before the other.
pub proof fn lemma_less_total(a: Seq<char>, b: Seq<char>)
    ensures
        a == b || less(a, b) || less(b, a),
    decreases a.len(),
{
    if a.len() > 0 && b.len() > 0 && a[0] == b[0] {
        lemma_less_total(a.skip(1), b.skip(1));
        if a.skip(1) == b.skip(1) {
            assert(a.len() == a.skip(1).len() + 1 && b.len() == b.skip(1).len() + 1);
            assert forall|i: int| 0 <= i < a.len() implies a[i] == b[i] by {
                if i > 0 {
                    assert(a[i] == a.skip(1)[i - 1]);
                    assert(b[i] == b.skip(1)[i - 1]);
                }
            }
            assert(a =~= b);
        }
    } else if a.len() == 0 && b.len() == 0 {
        assert(a =~= b);
    }
}

/// The order of strings is transitive.
pub broadcast proof fn less_transitive(a: Seq<char>, b: Seq<char>, c: Seq<char>)
    requires
        #[trigger] less(a, b),
        #[trigger] less(b, c),
    ensures
        less(a, c),
    decreases a.len(),
{
    if a.len() > 0 && a[0] == b[0] && b[0] == c[0] {
        less_transitive(a.skip(1), b.skip(1), c.skip(1));
    }
}

/// Whether the first string stands before the second.
pub fn str_less(a: &str, b: &str) -> (r: bool)
    ensures
        r == less(a@, b@),
{
    let x = to_chars(a);
    let y = to_chars(b);
    let mut i: usize = 0;
    assert(a@.skip(0) =~= a@);
    assert(b@.skip(0) =~= b@);
    while i < x.len() && i < y.len() && x[i] == y[i]
        invariant
            x@ == a@,
            y@ == b@,
            i <= x@.len(),
            i <= y@.len(),
            less(a@, b@) == less(a@.skip(i as int), b@.skip(i as int)),
        decreases x@.len() - i,
    {
        assert(a@.skip(i as int).skip(1) =~= a@.skip(i + 1));
        assert(b@.skip(i as int).skip(1) =~= b@.skip(i + 1));
        i = i + 1;
    }
    if i >= y.len() {
        false
    } else if i >= x.len() {
        true
    } else {
        x[i] < y[i]
    }
}

/// The decimal digit of value `d`.
pub open spec fn digit_char(d: nat) -> char {
    (48 + d) as char
}

/// The decimal numeral of `n`, without leading zeros.
pub open spec fn decimal(n: nat) -> Seq<char>
    decreases n,
{
    if n < 10 {
        seq![digit_char(n)]
    } else {
        decimal(n / 10).push(digit_char(n % 10))
    }
}

/// The decimal numeral of `i`, with a `-` in front of the negative ones.
pub open spec fn signed_decimal(i: int) -> Seq<char> {
    if i < 0 {
        seq!['-'] + decimal((-i) as nat)
    } else {
        decimal(i as nat)
    }
}

pub open spec fn is_digit(c: char) -> bool {
    '0' <= c && c <= '9'
}

/// Whether every character is a decimal digit.
pub open spec fn all_digits(s: Seq<char>) -> bool {
    forall|i: int| 0 <= i < s.len() ==> is_digit(#[trigger] s[i])
}

/// The number that a sequence of decimal digits stands for.
pub open spec fn decimal_value(s: Seq<char>) -> nat
    decreases s.len(),
{
    if s.len() == 0 {
        0
    } else {
        decimal_value(s.drop_last()) * 10 + (s.last() as nat - 48) as nat
    }
}

/// A numeral is made of digits, is not empty, and stands for its number.
pub proof fn lemma_decimal(n: nat)
    ensures
        decimal(n).len() > 0,
        all_digits(decimal(n)),
        decimal_value(decimal(n)) == n,
    decreases n,
{
    if n < 10 {
        assert(decimal(n).drop_last() =~= Seq::<char>::empty());
        assert(decimal_value(Seq::<char>::empty()) == 0);
    } else {
        lemma_decimal(n / 10);
        assert(decimal(n).drop_last() =~= decimal(n / 10));
    }
}

/// Cutting digits off the end does not make the number larger.
pub proof fn lemma_decimal_value_prefix(s: Seq<char>, n: int)
    requires
        0 <= n <= s.len(),
        all_digits(s),
    ensures
        decimal_value(s.take(n)) <= decimal_value(s),
    decreases s.len() - n,
{
    if n < s.len() {
        lemma_decimal_value_prefix(s, n + 1);
        assert(s.take(n + 1).drop_last() =~= s.take(n));
        assert(is_digit(s[n]));
        assert(s.take(n + 1).last() == s[n]);
    } else {
        assert(s.take(n) =~= s);
    }
}

/// Whether every character is a decimal digit.
pub fn check_digits(s: &[char]) -> (r: bool)
    ensures
        r == all_digits(s@),
{
    let mut i: usize = 0;
    while i < s.len()
        invariant
            i <= s@.len(),
            forall|j: int| 0 <= j < i ==> is_digit(#[trigger] s@[j]),
        decreases s@.len() - i,
    {
        if !('0' <= s[i] && s[i] <= '9') {
            assert(!is_digit(s@[i as int]));
            return false;
        }
        i = i + 1;
    }
    true
}

/// The number that the digits stand for, unless it exceeds 64 bits.
pub fn digits_value(s: &[char]) -> (r: Option<u64>)
    requires
        all_digits(s@),
    ensures
        r == (if decimal_value(s@) <= u64::MAX {
            Some(decimal_value(s@) as u64)
        } else {
            None
        }),
{
    let mut total: u64 = 0;
    let mut i: usize = 0;
    while i < s.len()
        invariant
            i <= s@.len(),
            all_digits(s@),
            total == decimal_value(s@.take(i as int)),
        decreases s@.len() - i,
    {
        assert(is_digit(s@[i as int]));
        let d: u64 = s[i] as u64 - 48;
        proof {
            lemma_decimal_value_prefix(s@, i + 1);
            assert(s@.take(i + 1).drop_last() =~= s@.take(i as int));
        }
        match total.checked_mul(10) {
            None => return None,
            Some(m) => match m.checked_add(d) {
                None => return None,
                Some(t) => {
                    total = t;
                },
            },
        }
        i = i + 1;
    }
    assert(s@.take(i as int) =~= s@);
    Some(total)
}

/// The integer that a signed decimal numeral stands for: digits, with at most one sign in front.
pub open spec fn int_value(s: Seq<char>) -> Option<int> {
    let signed = s.len() > 0 && (s[0] == '+' || s[0] == '-');
    let digits = if signed {
        s.skip(1)
    } else {
        s
    };
    if digits.len() > 0 && all_digits(digits) {
        Some(
            if signed && s[0] == '-' {
                -(decimal_value(digits) as int)
            } else {
                decimal_value(digits) as int
            },
        )
    } else {
        None
    }
}

/// The 64-bit integer that a numeral stands for, if it is one and fits.
pub open spec fn i64_value(s: Seq<char>) -> Option<i64> {
    match int_value(s) {
        Some(n) => if i64::MIN <= n <= i64::MAX {
            Some(n as i64)
        } else {
            None
        },
        None => None,
    }
}

/// Reading the numeral of an integer gives the integer.
pub proof fn lemma_signed_decimal(i: int)
    ensures
        int_value(signed_decimal(i)) == Some(i),
{
    if i < 0 {
        lemma_decimal((-i) as nat);
        assert(signed_decimal(i).skip(1) =~= decimal((-i) as nat));
    } else {
        lemma_decimal(i as nat);
        assert(is_digit(decimal(i as nat)[0]));
    }
}

/// The 64-bit integer that a numeral stands for, if it is one and fits.
pub fn parse_i64(s: &[char]) -> (r: Option<i64>)
    ensures
        r == i64_value(s@),
{
    let signed = s.len() > 0 && (s[0] == '+' || s[0] == '-');
    let negative = s.len() > 0 && s[0] == '-';
    let digits: &[char] = if signed {
        vstd::slice::slice_subrange(s, 1, s.len())
    } else {
        s
    };
    assert(signed ==> digits@ =~= s@.skip(1));
    if digits.len() == 0 || !check_digits(digits) {
        return None;
    }
    match digits_value(digits) {
        None => None,
        Some(n) => if negative {
            if n <= 9223372036854775808u64 {
                Some((-(n as i128)) as i64)
            } else {
                None
            }
        } else {
            if n <= 9223372036854775807u64 {
                Some(n as i64)
            } else {
                None
            }
        },
    }
}

/// Appends the decimal numeral of `n`.
pub fn push_decimal(n: u64, out: &mut String)
    ensures
        final(out)@ == old(out)@ + decimal(n as nat),
    decreases n,
{
    if n >= 10 {
        push_decimal(n / 10, out);
    }
    out.push((48u8 + (n % 10) as u8) as char);
}

/// The decimal numeral of `n`.
pub fn decimal_string(n: u64) -> (r: String)
    ensures
        r@ == decimal(n as nat),
{
    let mut out = String::new();
    push_decimal(n, &mut out);
    out
}

/// The decimal numeral of `i`.
pub fn signed_decimal_string(i: i64) -> (r: String)
    ensures
        r@ == signed_decimal(i as int),
{
    let mut out = String::new();
    if i < 0 {
        out.push('-');
        push_decimal((-(i as i128)) as u64, &mut out);
    } else {
        push_decimal(i as u64, &mut out);
    }
    out
}

// ---------------------------------------------------------------------------
// Searching
// ---------------------------------------------------------------------------

/// Whether `needle` stands in `hay` at position `i`.
pub open spec fn occurs_at(hay: Seq<char>, needle: Seq<char>, i: int) -> bool {
    0 <= i && i + needle.len() <= hay.len() && hay.subrange(i, i + needle.len()) == needle
}

/// Whether `needle` stands somewhere in `hay`.
pub open spec fn occurs(hay: Seq<char>, needle: Seq<char>) -> bool {
    exists|i: int| occurs_at(hay, needle, i)
}

fn matches_at(hay: &[char], needle: &[char], i: usize) -> (r: bool)
    requires
        i <= hay@.len(),
    ensures
        r == occurs_at(hay@, needle@, i as int),
{
    let limit: usize = hay.len();
    if limit - i < needle.len() {
        return false;
    }
    let ghost part = hay@.subrange(i as int, i + needle@.len());
    let mut k: usize = 0;
    while k < needle.len()
        invariant
            i + needle@.len() <= hay@.len() == limit,
            part == hay@.subrange(i as int, i + needle@.len()),
            k <= needle@.len(),
            forall|j: int| 0 <= j < k ==> part[j] == needle@[j],
        decreases needle@.len() - k,
    {
        if hay[i + k] != needle[k] {
            assert(part[k as int] != needle@[k as int]);
            return false;
        }
        k = k + 1;
    }
    assert(part =~= needle@);
    true
}

/// The first position at which `needle` stands in `hay`.
pub fn find(hay: &[char], needle: &[char]) -> (r: Option<usize>)
    ensures
        match r {
            Some(i) => occurs_at(hay@, needle@, i as int) && forall|j: int|
                0 <= j < i ==> !occurs_at(hay@, needle@, j),
            None => !occurs(hay@, needle@),
        },
{
    let mut i: usize = 0;
    while i < hay.len()
        invariant
            i <= hay@.len(),
            forall|j: int| 0 <= j < i ==> !occurs_at(hay@, needle@, j),
        decreases hay@.len() - i,
    {
        if matches_at(hay, needle, i) {
            return Some(i);
        }
        i = i + 1;
    }
    if matches_at(hay, needle, i) {
        return Some(i);
    }
    None
}

/// Whether `needle` stands somewhere in `hay`.
pub fn contains(hay: &[char], needle: &[char]) -> (r: bool)
    ensures
        r == occurs(hay@, needle@),
{
    find(hay, needle).is_some()
}

// ---------------------------------------------------------------------------
// UTF-8
// ---------------------------------------------------------------------------

/// The encoding of a concatenation is the concatenation of the encodings.
pub proof fn lemma_encode_concat(a: Seq<char>, b: Seq<char>)
    ensures
        encode_utf8(a + b) == encode_utf8(a) + encode_utf8(b),
    decreases a.len(),
{
    if a.len() == 0 {
        assert(a + b =~= b);
        assert(encode_utf8(a) =~= Seq::<u8>::empty());
    } else {
        assert((a + b).drop_first() =~= a.drop_first() + b);
        lemma_encode_concat(a.drop_first(), b);
        assert(encode_utf8(a + b) =~= encode_utf8(a) + encode_utf8(b));
    }
}

/// The encoding of a single character.
pub proof fn lemma_encode_one(c: char)
    ensures
        encode_utf8(seq![c]) == encode_scalar(c as u32),
{
    assert(seq![c].drop_first() =~= Seq::<char>::empty());
    assert(encode_utf8(Seq::<char>::empty()) =~= Seq::<u8>::empty());
    assert(encode_utf8(seq![c]) =~= encode_scalar(c as u32) + Seq::<u8>::empty());
    assert(encode_scalar(c as u32) + Seq::<u8>::empty() =~= encode_scalar(c as u32));
}

/// How many bytes the character takes in UTF-8.
pub fn utf8_width(c: char) -> (r: usize)
    ensures
        r == encode_scalar(c as u32).len(),
{
    let v: u32 = c as u32;
    if v <= 0x7F {
        1
    } else if v <= 0x7FF {
        2
    } else if v <= 0xFFFF {
        3
    } else {
        4
    }
}

/// How many bytes the first `n` characters of the string take in UTF-8.
pub fn utf8_offset(s: &str, chars: &[char], n: usize) -> (r: usize)
    requires
        chars@ == s@,
        n <= s@.len(),
    ensures
        r == encode_utf8(s@.take(n as int)).len(),
{
    let bytes = s.as_bytes();
    let bound: usize = bytes.len();
    assert(encode_utf8(s@).len() == bound);
    let mut total: usize = 0;
    let mut i: usize = 0;
    assert(encode_utf8(s@.take(0)) =~= Seq::<u8>::empty());
    while i < n
        invariant
            chars@ == s@,
            i <= n <= s@.len(),
            encode_utf8(s@).len() <= usize::MAX,
            total == encode_utf8(s@.take(i as int)).len(),
        decreases n - i,
    {
        proof {
            assert(s@.take(i + 1) =~= s@.take(i as int) + seq![s@[i as int]]);
            lemma_encode_concat(s@.take(i as int), seq![s@[i as int]]);
            lemma_encode_one(s@[i as int]);
            assert(s@ =~= s@.take(i + 1) + s@.skip(i + 1));
            lemma_encode_concat(s@.take(i + 1), s@.skip(i + 1));
        }
        total = total + utf8_width(chars[i]);
        i = i + 1;
    }
    total
}

/// A text has no more characters than bytes.
pub proof fn lemma_encode_len(s: Seq<char>)
    ensures
        s.len() <= encode_utf8(s).len(),
    decreases s.len(),
{
    if s.len() > 0 {
        lemma_encode_len(s.drop_first());
    }
}

/// `std::str::from_utf8`: the text whose UTF-8 form the bytes are, if they are one.
#[verifier::external_body]
pub(crate) fn utf8_str(b: &[u8]) -> (r: Option<&str>)
    ensures
        r is Some <==> valid_utf8(b@),
        r is Some ==> r->0@ == decode_utf8(b@),
{
    std::str::from_utf8(b).ok()
}

// ---------------------------------------------------------------------------
// Hexadecimal numerals
// ---------------------------------------------------------------------------

/// The lower-case hexadecimal digit of value `d`.
pub open spec fn hex_char(d: nat) -> char {
    if d < 10 {
        (48 + d) as char
    } else {
        (87 + d) as char
    }
}

/// The lower-case hexadecimal numeral of `n`.
pub open spec fn hex(n: nat) -> Seq<char>
    decreases n,
{
    if n < 16 {
        seq![hex_char(n)]
    } else {
        hex(n / 16).push(hex_char(n % 16))
    }
}

/// The text with zeros in front, up to the width.
pub open spec fn zero_padded(s: Seq<char>, width: nat) -> Seq<char> {
    if s.len() < width {
        Seq::new((width - s.len()) as nat, |i: int| '0') + s
    } else {
        s
    }
}

/// The value of a hexadecimal digit, of either case.
pub open spec fn hex_digit(c: char) -> Option<nat> {
    if '0' <= c && c <= '9' {
        Some((c as nat - 48) as nat)
    } else if 'a' <= c && c <= 'f' {
        Some((c as nat - 87) as nat)
    } else if 'A' <= c && c <= 'F' {
        Some((c as nat - 55) as nat)
    } else {
        None
    }
}

/// The number that hexadecimal digits stand for, if all characters are such digits.
pub open spec fn hex_digits_value(s: Seq<char>) -> Option<nat>
    decreases s.len(),
{
    if s.len() == 0 {
        Some(0)
    } else {
        match (hex_digits_value(s.drop_last()), hex_digit(s.last())) {
            (Some(n), Some(d)) => Some(n * 16 + d),
            _ => None,
        }
    }
}

/// The number that a hexadecimal numeral stands for: digits, with at most a `+` in front.
pub open spec fn hex_value(s: Seq<char>) -> Option<nat> {
    let digits = if s.len() > 0 && s[0] == '+' {
        s.skip(1)
    } else {
        s
    };
    if digits.len() == 0 {
        None
    } else {
        hex_digits_value(digits)
    }
}

pub open spec fn pow16(n: nat) -> nat
    decreases n,
{
    if n == 0 {
        1
    } else {
        16 * pow16((n - 1) as nat)
    }
}

pub proof fn lemma_pow16_monotonic(m: nat, n: nat)
    requires
        m <= n,
    ensures
        pow16(m) <= pow16(n),
    decreases n,
{
    if m < n {
        lemma_pow16_monotonic(m, (n - 1) as nat);
        assert(pow16((n - 1) as nat) <= 16 * pow16((n - 1) as nat));
    }
}

pub proof fn lemma_hex_digits_bound(s: Seq<char>)
    ensures
        hex_digits_value(s) matches Some(n) ==> n < pow16(s.len()),
    decreases s.len(),
{
    if s.len() > 0 {
        lemma_hex_digits_bound(s.drop_last());
    }
}

/// A hexadecimal numeral stands for its number, also with zeros in front.
pub proof fn lemma_hex_digits_of_hex(n: nat)
    ensures
        hex(n).len() > 0,
        hex_digits_value(hex(n)) == Some(n),
        forall|i: int| 0 <= i < hex(n).len() ==> hex_digit(#[trigger] hex(n)[i]) is Some,
    decreases n,
{
    if n < 16 {
        assert(hex(n).drop_last() =~= Seq::<char>::empty());
        assert(hex_digits_value(Seq::<char>::empty()) == Some(0nat));
    } else {
        lemma_hex_digits_of_hex(n / 16);
        assert(hex(n).drop_last() =~= hex(n / 16));
    }
}

pub proof fn lemma_hex_len(n: nat, width: nat)
    requires
        n < pow16(width),
        width > 0,
    ensures
        hex(n).len() <= width,
    decreases width,
{
    if n >= 16 {
        if width == 1 {
            assert(pow16(1) == 16) by {
                reveal_with_fuel(pow16, 2);
            }
        } else {
            lemma_hex_len(n / 16, (width - 1) as nat);
        }
    }
}

pub proof fn lemma_hex_zeros(k: nat, s: Seq<char>)
    ensures
        hex_digits_value(Seq::new(k, |i: int| '0') + s) == hex_digits_value(s),
    decreases s.len(), k,
{
    let zeros = Seq::new(k, |i: int| '0');
    if s.len() == 0 {
        assert(zeros + s =~= zeros);
        if k > 0 {
            assert(zeros.drop_last() =~= Seq::new((k - 1) as nat, |i: int| '0') + s);
            lemma_hex_zeros((k - 1) as nat, s);
        }
    } else {
        assert((zeros + s).drop_last() =~= zeros + s.drop_last());
        assert((zeros + s).last() == s.last());
        lemma_hex_zeros(k, s.drop_last());
    }
}

/// A padded numeral stands for its number, and is as wide as asked where the number allows it.
pub proof fn lemma_zero_padded_hex(n: nat, width: nat)
    requires
        n < pow16(width),
        width > 0,
    ensures
        zero_padded(hex(n), width).len() == width,
        hex_value(zero_padded(hex(n), width)) == Some(n),
        forall|i: int| 0 <= i < width ==> hex_digit(#[trigger] zero_padded(hex(n), width)[i]) is Some,
{
    lemma_hex_len(n, width);
    lemma_hex_digits_of_hex(n);
    let s = zero_padded(hex(n), width);
    let pad = (width - hex(n).len()) as nat;
    lemma_hex_zeros(pad, hex(n));
    assert forall|i: int| 0 <= i < width implies hex_digit(#[trigger] s[i]) is Some by {
        if i >= pad {
            assert(s[i] == hex(n)[i - pad]);
        }
    }
    assert(hex_digit(s[0]) is Some);
    assert(s[0] != '+');
}

fn push_hex(n: u128, out: &mut String)
    ensures
        final(out)@ == old(out)@ + hex(n as nat),
    decreases n,
{
    if n >= 16 {
        push_hex(n / 16, out);
    }
    let d: u8 = (n % 16) as u8;
    if d < 10 {
        out.push((48u8 + d) as char);
    } else {
        out.push((87u8 + d) as char);
    }
}

/// Appends the hexadecimal numeral of `n`, with zeros in front up to the width.
pub fn push_hex_padded(n: u128, width: usize, out: &mut String)
    ensures
        final(out)@ == old(out)@ + zero_padded(hex(n as nat), width as nat),
{
    let mut numeral = String::new();
    push_hex(n, &mut numeral);
    let digits = to_chars(numeral.as_str());
    let mut i: usize = digits.len();
    let ghost start = out@;
    while i < width
        invariant
            digits@.len() <= i,
            i <= width || i == digits@.len(),
            digits@ == hex(n as nat),
            out@ == start + Seq::new((i - digits@.len()) as nat, |j: int| '0'),
        decreases width - i,
    {
        out.push('0');
        i = i + 1;
    }
    out.append(numeral.as_str());
    assert(out@ =~= start + zero_padded(hex(n as nat), width as nat));
}

/// The number that a hexadecimal numeral of at most eight characters stands for.
pub fn parse_hex(s: &[char]) -> (r: Option<u32>)
    requires
        s@.len() <= 8,
    ensures
        match hex_value(s@) {
            Some(n) => r is Some && r->0 == n,
            None => r is None,
        },
{
    let start: usize = if s.len() > 0 && s[0] == '+' {
        1
    } else {
        0
    };
    let ghost digits = s@.skip(start as int);
    assert(start == 0 ==> digits =~= s@);
    if s.len() == start {
        return None;
    }
    let mut total: u32 = 0;
    let mut i: usize = start;
    assert(digits.take(0) =~= Seq::<char>::empty());
    assert(pow16(8) == 0x100000000) by {
        reveal_with_fuel(pow16, 9);
    }
    while i < s.len()
        invariant
            start <= i <= s@.len() <= 8,
            digits == s@.skip(start as int),
            start == (if s@.len() > 0 && s@[0] == '+' {
                1int
            } else {
                0int
            }),
            start == 0 ==> digits == s@,
            pow16(8) == 0x100000000,
            hex_digits_value(digits.take(i - start)) == Some(total as nat),
        decreases s@.len() - i,
    {
        let c = s[i];
        let d: u32 = if '0' <= c && c <= '9' {
            c as u32 - 48
        } else if 'a' <= c && c <= 'f' {
            c as u32 - 87
        } else if 'A' <= c && c <= 'F' {
            c as u32 - 55
        } else {
            proof {
                assert(digits[i - start] == c);
                lemma_hex_bad_digit(digits, i - start);
            }
            return None;
        };
        proof {
            let next = digits.take(i - start + 1);
            assert(next.drop_last() =~= digits.take(i - start));
            assert(next.last() == c);
            assert(hex_digits_value(next) == Some((total * 16 + d) as nat));
            lemma_hex_digits_bound(next);
            lemma_pow16_monotonic(next.len(), 8);
        }
        total = total * 16 + d;
        i = i + 1;
    }
    assert(digits.take(i - start) =~= digits);
    Some(total)
}

proof fn lemma_hex_bad_digit(s: Seq<char>, i: int)
    requires
        0 <= i < s.len(),
        hex_digit(s[i]) is None,
    ensures
        hex_digits_value(s) is None,
    decreases s.len(),
{
    if i < s.len() - 1 {
        lemma_hex_bad_digit(s.drop_last(), i);
    }
}

// ---------------------------------------------------------------------------
// White space, prefixes, sizes
// ---------------------------------------------------------------------------

/// The characters with the Unicode property White_Space.
pub open spec fn is_white(c: char) -> bool {
    let u = c as u32;
    ||| 0x9 <= u <= 0xD
    ||| u == 0x20
    ||| u == 0x85
    ||| u == 0xA0
    ||| u == 0x1680
    ||| 0x2000 <= u <= 0x200A
    ||| u == 0x2028
    ||| u == 0x2029
    ||| u == 0x202F
    ||| u == 0x205F
    ||| u == 0x3000
}

/// The text without white space at its start.
pub open spec fn trimmed_start(s: Seq<char>) -> Seq<char>
    decreases s.len(),
{
    if s.len() > 0 && is_white(s[0]) {
        trimmed_start(s.skip(1))
    } else {
        s
    }
}

/// The text without white space at its end.
pub open spec fn trimmed_end(s: Seq<char>) -> Seq<char>
    decreases s.len(),
{
    if s.len() > 0 && is_white(s.last()) {
        trimmed_end(s.drop_last())
    } else {
        s
    }
}

/// The text without white space around it.
pub open spec fn trimmed(s: Seq<char>) -> Seq<char> {
    trimmed_end(trimmed_start(s))
}

pub proof fn lemma_trimmed_same(s: Seq<char>)
    requires
        s.len() > 0,
        !is_white(s[0]),
        !is_white(s.last()),
    ensures
        trimmed(s) == s,
{
}

/// One blank in front is trimmed off.
pub proof fn lemma_trimmed_blank(s: Seq<char>)
    ensures
        trimmed(seq![' '] + s) == trimmed(s),
{
    assert((seq![' '] + s).skip(1) =~= s);
}

fn white(c: char) -> (r: bool)
    ensures
        r == is_white(c),
{
    let u: u32 = c as u32;
    (0x9 <= u && u <= 0xD) || u == 0x20 || u == 0x85 || u == 0xA0 || u == 0x1680 || (0x2000 <= u
        && u <= 0x200A) || u == 0x2028 || u == 0x2029 || u == 0x202F || u == 0x205F || u == 0x3000
}

/// The text without white space around it.
pub fn trim(s: &[char]) -> (r: &[char])
    ensures
        r@ == trimmed(s@),
{
    let mut start: usize = 0;
    assert(s@.skip(0) =~= s@);
    while start < s.len() && white(s[start])
        invariant
            start <= s@.len(),
            trimmed_start(s@) == trimmed_start(s@.skip(start as int)),
        decreases s@.len() - start,
    {
        assert(s@.skip(start as int).skip(1) =~= s@.skip(start + 1));
        start = start + 1;
    }
    let ghost t = s@.skip(start as int);
    assert(trimmed_start(s@) == t);
    let mut end: usize = s.len();
    assert(s@.subrange(start as int, end as int) =~= t);
    while end > start && white(s[end - 1])
        invariant
            start <= end <= s@.len(),
            trimmed_end(t) == trimmed_end(s@.subrange(start as int, end as int)),
        decreases end,
    {
        assert(s@.subrange(start as int, end as int).drop_last() =~= s@.subrange(
            start as int,
            end - 1,
        ));
        end = end - 1;
    }
    assert(trimmed_end(s@.subrange(start as int, end as int)) == s@.subrange(
        start as int,
        end as int,
    ));
    vstd::slice::slice_subrange(s, start, end)
}

/// Whether the text starts with the given characters.
pub open spec fn starts_with(s: Seq<char>, prefix: Seq<char>) -> bool {
    prefix.len() <= s.len() && s.take(prefix.len() as int) == prefix
}

/// Whether the text starts with the given characters.
pub fn has_prefix(s: &[char], prefix: &[char]) -> (r: bool)
    ensures
        r == starts_with(s@, prefix@),
{
    if s.len() < prefix.len() {
        return false;
    }
    let mut i: usize = 0;
    while i < prefix.len()
        invariant
            prefix@.len() <= s@.len(),
            i <= prefix@.len(),
            forall|j: int| 0 <= j < i ==> s@[j] == prefix@[j],
        decreases prefix@.len() - i,
    {
        if s[i] != prefix[i] {
            assert(s@.take(prefix@.len() as int)[i as int] != prefix@[i as int]);
            return false;
        }
        i = i + 1;
    }
    assert(s@.take(prefix@.len() as int) =~= prefix@);
    true
}

/// The size that a decimal numeral stands for: digits, with at most a `+` in front, that fit.
pub open spec fn usize_value(s: Seq<char>) -> Option<nat> {
    let digits = if s.len() > 0 && s[0] == '+' {
        s.skip(1)
    } else {
        s
    };
    if digits.len() > 0 && all_digits(digits) && decimal_value(digits) <= usize::MAX {
        Some(decimal_value(digits))
    } else {
        None
    }
}

pub proof fn lemma_usize_value_decimal(n: nat)
    requires
        n <= usize::MAX,
    ensures
        usize_value(decimal(n)) == Some(n),
{
    lemma_decimal(n);
    assert(is_digit(decimal(n)[0]));
}

/// The size that a decimal numeral stands for.
pub fn parse_usize(s: &[char]) -> (r: Option<usize>)
    ensures
        match usize_value(s@) {
            Some(n) => r is Some && r->0 == n,
            None => r is None,
        },
{
    let digits: &[char] = if s.len() > 0 && s[0] == '+' {
        vstd::slice::slice_subrange(s, 1, s.len())
    } else {
        s
    };
    assert(s@.len() > 0 && s@[0] == '+' ==> digits@ =~= s@.skip(1));
    if digits.len() == 0 || !check_digits(digits) {
        return None;
    }
    match digits_value(digits) {
        Some(n) => if n <= usize::MAX as u64 {
            Some(n as usize)
        } else {
            None
        },
        None => None,
    }
}

/// The text without its white space.
pub open spec fn without_white(s: Seq<char>) -> Seq<char> {
    s.filter(|c: char| !is_white(c))
}

/// The text without its white space.
pub fn remove_white(s: &str) -> (r: String)
    ensures
        r@ == without_white(s@),
{
    let chars = to_chars(s);
    let ghost keep = |c: char| !is_white(c);
    let mut r = String::new();
    let mut i: usize = 0;
    assert(s@.take(0).filter(keep) =~= Seq::<char>::empty()) by {
        reveal(Seq::filter);
    }
    while i < chars.len()
        invariant
            chars@ == s@,
            keep == (|c: char| !is_white(c)),
            i <= chars@.len(),
            r@ == s@.take(i as int).filter(keep),
        decreases chars@.len() - i,
    {
        let c = chars[i];
        proof {
            let next = s@.take(i + 1);
            assert(next.drop_last() =~= s@.take(i as int));
            assert(next.last() == c);
            reveal(Seq::filter);
        }
        if !white(c) {
            r.push(c);
        }
        i = i + 1;
    }
    assert(s@.take(i as int) =~= s@);
    r
}

/// An ASCII capital as its small letter; any other character as it is.
pub open spec fn lower_char(c: char) -> char {
    if 'A' <= c && c <= 'Z' {
        (c as u32 + 32) as char
    } else {
        c
    }
}

/// The text with its ASCII capitals as small letters.
pub open spec fn lowered(s: Seq<char>) -> Seq<char> {
    s.map_values(|c: char| lower_char(c))
}

/// The text with its ASCII capitals as small letters.
pub fn ascii_lower(s: &str) -> (r: String)
    ensures
        r@ == lowered(s@),
{
    let chars = to_chars(s);
    let mut r = String::new();
    let mut i: usize = 0;
    while i < chars.len()
        invariant
            chars@ == s@,
            i <= chars@.len(),
            r@ == lowered(s@).take(i as int),
        decreases chars@.len() - i,
    {
        let c = chars[i];
        if 'A' <= c && c <= 'Z' {
            r.push((c as u8 + 32) as char);
        } else {
            r.push(c);
        }
        assert(r@ =~= lowered(s@).take(i + 1));
        i = i + 1;
    }
    assert(lowered(s@).take(i as int) =~= lowered(s@));
    r
}

/// The texts one behind another, with the separator between each two.
pub open spec fn joined(parts: Seq<Seq<char>>, separator: Seq<char>) -> Seq<char>
    decreases parts.len(),
{
    if parts.len() == 0 {
        Seq::empty()
    } else if parts.len() == 1 {
        parts[0]
    } else {
        joined(parts.drop_last(), separator) + separator + parts.last()
    }
}

/// The characters of each string.
pub open spec fn texts(v: Seq<String>) -> Seq<Seq<char>> {
    Seq::new(v.len(), |i: int| v[i]@)
}

/// A copy of the strings.
pub(crate) fn clone_strings(v: &Vec<String>) -> (r: Vec<String>)
    ensures
        texts(r@) == texts(v@),
{
    let mut r: Vec<String> = Vec::new();
    let mut i: usize = 0;
    while i < v.len()
        invariant
            i <= v@.len(),
            r@.len() == i,
            forall|j: int| 0 <= j < i ==> (#[trigger] r@[j])@ == v@[j]@,
        decreases v@.len() - i,
    {
        r.push(v[i].clone());
        i = i + 1;
    }
    assert(texts(r@) =~= texts(v@));
    r
}

/// The strings one behind another, with the separator between each two.
pub fn join(parts: &Vec<String>, separator: &str) -> (r: String)
    ensures
        r@ == joined(texts(parts@), separator@),
{
    let ghost all = texts(parts@);
    let mut r = String::new();
    let mut i: usize = 0;
    assert(all.take(0) =~= Seq::<Seq<char>>::empty());
    while i < parts.len()
        invariant
            all == texts(parts@),
            i <= parts@.len(),
            r@ == joined(all.take(i as int), separator@),
        decreases parts@.len() - i,
    {
        if i > 0 {
            r.append(separator);
        }
        r.append(parts[i].as_str());
        assert(all.take(i + 1).drop_last() =~= all.take(i as int));
        assert(r@ =~= joined(all.take(i + 1), separator@));
        i = i + 1;
    }
    assert(all.take(i as int) =~= all);
    r
}

/// Joining puts the separator between each two parts and nowhere else: joined lists join again
/// with a separator between, and one part alone is itself.
pub proof fn law_joined(a: Seq<Seq<char>>, b: Seq<Seq<char>>, part: Seq<char>, separator: Seq<char>)
    ensures
        a.len() > 0 && b.len() > 0 ==> joined(a + b, separator) == joined(a, separator) + separator
            + joined(b, separator),
        joined(seq![part], separator) == part,
        joined(Seq::empty(), separator).len() == 0,
    decreases b.len(),
{
    if a.len() > 0 && b.len() > 0 {
        let whole = a + b;
        assert(whole.drop_last() =~= a + b.drop_last());
        assert(whole.last() == b.last());
        if b.len() == 1 {
            assert(whole.drop_last() =~= a);
            assert(b.last() == b[0]);
        } else {
            law_joined(a, b.drop_last(), part, separator);
        }
        assert(joined(whole, separator) =~= joined(a, separator) + separator + joined(
            b,
            separator,
        ));
    }
}

/// Lowering keeps every character in its place, and changes the capitals of ASCII alone.
pub proof fn law_lowered(s: Seq<char>, i: int)
    requires
        0 <= i < s.len(),
    ensures
        lowered(s).len() == s.len(),
        'A' <= s[i] && s[i] <= 'Z' ==> lowered(s)[i] as u32 == s[i] as u32 + 32,
        !('A' <= s[i] && s[i] <= 'Z') ==> lowered(s)[i] == s[i],
{
}

/// Taking the white space out of two texts together takes it out of each; white space leaves
/// nothing, and another character stays.
pub proof fn law_without_white(a: Seq<char>, b: Seq<char>, c: char)
    ensures
        without_white(a + b) == without_white(a) + without_white(b),
        without_white(seq![c]) == (if is_white(c) {
            Seq::empty()
        } else {
            seq![c]
        }),
{
    let keep = |c: char| !is_white(c);
    Seq::filter_distributes_over_add(a, b, keep);
    reveal(Seq::filter);
    assert(seq![c].drop_last() =~= Seq::<char>::empty());
    assert(Seq::<char>::empty().filter(keep) =~= Seq::<char>::empty());
}

/// Trimming takes white space from both ends and nothing else: what is left is a part of the text,
/// with white space alone around it, and starts and ends with another character.
pub proof fn law_trimmed(s: Seq<char>)
    ensures
        trimmed(s).len() > 0 ==> !is_white(trimmed(s)[0]) && !is_white(trimmed(s).last()),
        exists|i: int|
            {
                &&& 0 <= i <= s.len() - trimmed(s).len()
                &&& trimmed(s) == #[trigger] s.subrange(i, i + trimmed(s).len())
                &&& forall|j: int| 0 <= j < i ==> is_white(#[trigger] s[j])
                &&& forall|j: int| i + trimmed(s).len() <= j < s.len() ==> is_white(#[trigger] s[j])
            },
{
    lemma_trimmed_start_parts(s);
    let t = trimmed_start(s);
    lemma_trimmed_end_parts(t);
    let i = s.len() - t.len();
    let u = trimmed(s);
    assert(u =~= s.subrange(i, i + u.len()));
    assert forall|j: int| i + u.len() <= j < s.len() implies is_white(#[trigger] s[j]) by {
        assert(t[j - i] == s[j]);
    }
}

proof fn lemma_trimmed_start_parts(s: Seq<char>)
    ensures
        ({
            let t = trimmed_start(s);
            &&& t.len() <= s.len()
            &&& t == s.skip(s.len() - t.len())
            &&& forall|j: int| 0 <= j < s.len() - t.len() ==> is_white(#[trigger] s[j])
            &&& t.len() > 0 ==> !is_white(t[0])
        }),
    decreases s.len(),
{
    let t = trimmed_start(s);
    if s.len() > 0 && is_white(s[0]) {
        let rest = s.skip(1);
        lemma_trimmed_start_parts(rest);
        assert(t =~= s.skip(s.len() - t.len()));
        assert forall|j: int| 0 <= j < s.len() - t.len() implies is_white(#[trigger] s[j]) by {
            if j > 0 {
                assert(rest[j - 1] == s[j]);
            }
        }
    } else {
        assert(t =~= s.skip(0));
    }
}

proof fn lemma_trimmed_end_parts(s: Seq<char>)
    ensures
        ({
            let t = trimmed_end(s);
            &&& t.len() <= s.len()
            &&& t == s.take(t.len() as int)
            &&& forall|j: int| t.len() <= j < s.len() ==> is_white(#[trigger] s[j])
            &&& t.len() > 0 ==> !is_white(t.last())
        }),
    decreases s.len(),
{
    let t = trimmed_end(s);
    if s.len() > 0 && is_white(s.last()) {
        let rest = s.drop_last();
        lemma_trimmed_end_parts(rest);
        assert(t =~= s.take(t.len() as int));
        assert forall|j: int| t.len() <= j < s.len() implies is_white(#[trigger] s[j]) by {
            if j < rest.len() {
                assert(rest[j] == s[j]);
            }
        }
    } else {
        assert(t =~= s.take(t.len() as int));
    }
}

/// Texts are ordered by the first character in which they differ, and a text stands before every
/// longer one that it begins.
pub proof fn law_less(front: Seq<char>, c: char, d: char, a: Seq<char>, b: Seq<char>)
    ensures
        c != d ==> (less(front + seq![c] + a, front + seq![d] + b) <==> c < d),
        less(front, front + seq![c] + a),
        !less(front + seq![c] + a, front),
        !less(front, front),
    decreases front.len(),
{
    let x = front + seq![c] + a;
    let y = front + seq![d] + b;
    lemma_less_irreflexive(front);
    if front.len() > 0 {
        let rest = front.skip(1);
        assert(x[0] == front[0] && y[0] == front[0]);
        assert(x.skip(1) =~= rest + seq![c] + a);
        assert(y.skip(1) =~= rest + seq![d] + b);
        law_less(rest, c, d, a, b);
    } else {
        assert(x[0] == c && y[0] == d);
    }
}

/// The characters that are white space, by their numbers.
pub open spec fn white_numbers() -> Seq<u32> {
    seq![
        0x9,
        0xA,
        0xB,
        0xC,
        0xD,
        0x20,
        0x85,
        0xA0,
        0x1680,
        0x2000,
        0x2001,
        0x2002,
        0x2003,
        0x2004,
        0x2005,
        0x2006,
        0x2007,
        0x2008,
        0x2009,
        0x200A,
        0x2028,
        0x2029,
        0x202F,
        0x205F,
        0x3000,
    ]
}

/// Exactly these characters are white space.
pub proof fn law_white(c: char)
    ensures
        is_white(c) <==> white_numbers().contains(c as u32),
{
    let all = white_numbers();
    let u = c as u32;
    if all.contains(u) {
        let i = choose|i: int| 0 <= i < all.len() && all[i] == u;
        assert(is_white(c));
    }
    if is_white(c) {
        if 0x9 <= u <= 0xD {
            assert(all[u - 0x9] == u);
        } else if 0x2000 <= u <= 0x200A {
            assert(all[9 + u - 0x2000] == u);
        } else {
            assert(all[5] == 0x20 && all[6] == 0x85 && all[7] == 0xA0 && all[8] == 0x1680 && all[20]
                == 0x2028 && all[21] == 0x2029 && all[22] == 0x202F && all[23] == 0x205F && all[24]
                == 0x3000);
        }
    }
}

/// Digits stand for their number, with at most one sign in front; anything else is no number.
pub proof fn law_int_value(digits: Seq<char>, c: char)
    requires
        digits.len() > 0,
        all_digits(digits),
    ensures
        int_value(digits) == Some(decimal_value(digits) as int),
        int_value(seq!['+'] + digits) == Some(decimal_value(digits) as int),
        int_value(seq!['-'] + digits) == Some(-(decimal_value(digits) as int)),
        is_digit(c) ==> decimal_value(digits.push(c)) == decimal_value(digits) * 10 + (c as int
            - '0' as int),
        !is_digit(c) ==> int_value(digits.push(c)) is None,
        int_value(Seq::empty()) is None,
        decimal_value(digits) <= i64::MAX ==> i64_value(digits) == Some(
            decimal_value(digits) as i64,
        ),
        decimal_value(digits) > i64::MAX ==> i64_value(digits) is None,
        decimal_value(digits) <= usize::MAX ==> usize_value(digits) == Some(decimal_value(digits)),
        usize_value(seq!['-'] + digits) is None,
{
    assert(is_digit(digits[0]));
    assert((seq!['+'] + digits).skip(1) =~= digits);
    assert((seq!['-'] + digits).skip(1) =~= digits);
    let more = digits.push(c);
    assert(more.drop_last() =~= digits);
    assert(more[0] == digits[0]);
    if !is_digit(c) {
        assert(more[more.len() - 1] == c);
        assert(!all_digits(more));
    }
    assert((seq!['-'] + digits)[0] == '-');
    assert(!all_digits(seq!['-'] + digits));
}

/// The digits of base sixteen, of either case, and their values.
pub proof fn law_hex_digit(c: char)
    ensures
        '0' <= c && c <= '9' ==> hex_digit(c) == Some((c as int - '0' as int) as nat),
        'a' <= c && c <= 'f' ==> hex_digit(c) == Some((c as int - 'a' as int + 10) as nat),
        'A' <= c && c <= 'F' ==> hex_digit(c) == Some((c as int - 'A' as int + 10) as nat),
        hex_digit(c) is Some ==> '0' <= c && c <= '9' || 'a' <= c && c <= 'f' || 'A' <= c && c
            <= 'F',
{
}

} // verus!
