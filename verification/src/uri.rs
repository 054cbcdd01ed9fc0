//! `file://` URIs of paths, and paths of URIs.

use crate::text;
use vstd::prelude::*;
use vstd::utf8::*;

verus! {

/// The text with every backslash turned into a slash.
pub open spec fn slashed(s: Seq<char>) -> Seq<char> {
    s.map_values(
        |c: char|
            if c == '\\' {
                '/'
            } else {
                c
            },
    )
}

/// Whether a byte stands for itself in the path of a URI: RFC 3986's unreserved characters and
/// sub-delimiters, the colon, the at sign and the slash.
pub open spec fn is_kept(b: u8) -> bool {
    let c = b as char;
    ||| 'A' <= c && c <= 'Z'
    ||| 'a' <= c && c <= 'z'
    ||| '0' <= c && c <= '9'
    ||| c == '-' || c == '.' || c == '_' || c == '~'
    ||| c == '!' || c == '$' || c == '&' || c == '\'' || c == '(' || c == ')'
    ||| c == '*' || c == '+' || c == ',' || c == ';' || c == '='
    ||| c == ':' || c == '@' || c == '/'
}

/// The upper-case hexadecimal digit of value `d`.
pub open spec fn upper_hex(d: nat) -> char {
    if d < 10 {
        (48 + d) as char
    } else {
        (55 + d) as char
    }
}

/// A byte as it stands in the path of a URI: itself, or a percent sign and two digits.
pub open spec fn encoded_byte(b: u8) -> Seq<char> {
    if is_kept(b) {
        seq![b as char]
    } else {
        seq!['%', upper_hex(b as nat / 16), upper_hex(b as nat % 16)]
    }
}

/// The bytes as they stand in the path of a URI.
pub open spec fn encoded(bytes: Seq<u8>) -> Seq<char>
    decreases bytes.len(),
{
    if bytes.len() == 0 {
        Seq::empty()
    } else {
        encoded_byte(bytes[0]) + encoded(bytes.skip(1))
    }
}

/// Whether the text starts with a percent sign and two hexadecimal digits.
pub open spec fn is_escape(s: Seq<char>) -> bool {
    s.len() > 2 && s[0] == '%' && text::hex_digit(s[1]) is Some && text::hex_digit(s[2]) is Some
}

/// The bytes that a URI's path stands for: those that are escaped, and the UTF-8 form of the
/// characters that are not.
pub open spec fn decoded(s: Seq<char>) -> Seq<u8>
    decreases s.len(),
{
    if s.len() == 0 {
        Seq::empty()
    } else if is_escape(s) {
        let b = (text::hex_digit(s[1])->0 * 16 + text::hex_digit(s[2])->0) as u8;
        seq![b] + decoded(s.skip(3))
    } else {
        encode_utf8(seq![s[0]]) + decoded(s.skip(1))
    }
}

/// The text that a URI's path stands for; the path as it stands if its bytes are no text.
pub open spec fn decoded_text(s: Seq<char>) -> Seq<char> {
    if valid_utf8(decoded(s)) {
        decode_utf8(decoded(s))
    } else {
        s
    }
}

/// The URI of an absolute path.
pub open spec fn uri_of(path: Seq<char>) -> Seq<char> {
    if path.len() > 0 && path[0] == '/' {
        "file://"@ + encoded(encode_utf8(path))
    } else {
        "file:///"@ + encoded(encode_utf8(slashed(path)))
    }
}

/// Whether the text is a slash, an ASCII character, a colon, and anything.
pub open spec fn drive_form(s: Seq<char>) -> bool {
    s.len() > 2 && s[0] == '/' && (s[1] as u32) < 128 && s[2] == ':'
}

/// The path of a URI; the slash in front of a drive letter is dropped.
pub open spec fn path_of(uri: Seq<char>) -> Seq<char> {
    if text::starts_with(uri, "file://"@) {
        let path = decoded_text(uri.skip("file://"@.len() as int));
        if drive_form(path) {
            path.skip(1)
        } else {
            path
        }
    } else {
        uri
    }
}

fn keeps(b: u8) -> (r: bool)
    ensures
        r == is_kept(b),
{
    let c = b as char;
    ('A' <= c && c <= 'Z') || ('a' <= c && c <= 'z') || ('0' <= c && c <= '9') || c == '-'
        || c == '.' || c == '_' || c == '~' || c == '!' || c == '$' || c == '&' || c == '\''
        || c == '(' || c == ')' || c == '*' || c == '+' || c == ',' || c == ';' || c == '='
        || c == ':' || c == '@' || c == '/'
}

fn push_upper_hex(d: u8, out: &mut String)
    requires
        d < 16,
    ensures
        final(out)@ == old(out)@.push(upper_hex(d as nat)),
{
    if d < 10 {
        out.push((48u8 + d) as char);
    } else {
        out.push((55u8 + d) as char);
    }
}

/// Appends the bytes as they stand in the path of a URI.
fn push_encoded(bytes: &[u8], out: &mut String)
    ensures
        final(out)@ == old(out)@ + encoded(bytes@),
{
    let ghost start = out@;
    let mut i: usize = 0;
    assert(bytes@.skip(0) =~= bytes@);
    while i < bytes.len()
        invariant
            i <= bytes@.len(),
            out@ + encoded(bytes@.skip(i as int)) == start + encoded(bytes@),
        decreases bytes@.len() - i,
    {
        let b: u8 = bytes[i];
        let ghost before = out@;
        assert(bytes@.skip(i as int).skip(1) =~= bytes@.skip(i + 1));
        if keeps(b) {
            out.push(b as char);
        } else {
            out.push('%');
            push_upper_hex(b / 16, out);
            push_upper_hex(b % 16, out);
        }
        assert(out@ =~= before + encoded_byte(b));
        assert(out@ + encoded(bytes@.skip(i + 1)) =~= before + encoded(bytes@.skip(i as int)));
        i = i + 1;
    }
    assert(encoded(bytes@.skip(i as int)) =~= Seq::<char>::empty());
    assert(out@ =~= start + encoded(bytes@));
}

/// Convert an absolute file path to a file:// URI.
///
/// What stands in the path is encoded as RFC 3986 has it. On Unix: `file:///path/to/file`; on
/// Windows: `file:///C:/path/to/file`.
pub fn path_to_uri(path: &str) -> (r: String)
    ensures
        r@ == uri_of(path@),
{
    let chars = text::to_chars(path);
    if chars.len() > 0 && chars[0] == '/' {
        let mut r = String::from_str("file://");
        push_encoded(path.as_bytes(), &mut r);
        r
    } else {
        let mut slashes = String::new();
        let mut i: usize = 0;
        assert(slashes@ =~= slashed(path@).take(0));
        while i < chars.len()
            invariant
                chars@ == path@,
                i <= chars@.len(),
                slashes@ == slashed(path@).take(i as int),
            decreases chars@.len() - i,
        {
            let c = chars[i];
            slashes.push(
                if c == '\\' {
                    '/'
                } else {
                    c
                },
            );
            assert(slashes@ =~= slashed(path@).take(i + 1));
            i = i + 1;
        }
        assert(slashed(path@).take(i as int) =~= slashed(path@));
        let mut r = String::from_str("file:///");
        push_encoded(slashes.as_str().as_bytes(), &mut r);
        r
    }
}

fn hex_digit_value(c: char) -> (r: Option<u8>)
    ensures
        match text::hex_digit(c) {
            Some(d) => r is Some && r->0 == d && d < 16,
            None => r is None,
        },
{
    if '0' <= c && c <= '9' {
        Some((c as u32 - 48) as u8)
    } else if 'a' <= c && c <= 'f' {
        Some((c as u32 - 87) as u8)
    } else if 'A' <= c && c <= 'F' {
        Some((c as u32 - 55) as u8)
    } else {
        None
    }
}

/// The byte that the escape at the start of the text stands for, if there is one.
fn escape_at(s: &[char], i: usize) -> (r: Option<u8>)
    requires
        i < s@.len(),
    ensures
        r is Some <==> is_escape(s@.skip(i as int)),
        r is Some ==> r->0 == text::hex_digit(s@[i + 1])->0 * 16 + text::hex_digit(s@[i + 2])->0,
{
    if s.len() - i <= 2 || s[i] != '%' {
        return None;
    }
    match (hex_digit_value(s[i + 1]), hex_digit_value(s[i + 2])) {
        (Some(a), Some(b)) => Some(a * 16 + b),
        _ => None,
    }
}

/// The bytes that a URI's path stands for.
fn decode(s: &[char]) -> (r: Vec<u8>)
    ensures
        r@ == decoded(s@),
{
    let mut r: Vec<u8> = Vec::new();
    let mut i: usize = 0;
    assert(s@.skip(0) =~= s@);
    assert(r@ + decoded(s@) =~= decoded(s@));
    while i < s.len()
        invariant
            i <= s@.len(),
            r@ + decoded(s@.skip(i as int)) == decoded(s@),
        decreases s@.len() - i,
    {
        let ghost before = r@;
        let ghost rest = s@.skip(i as int);
        match escape_at(s, i) {
            Some(b) => {
                r.push(b);
                assert(rest.skip(3) =~= s@.skip(i + 3));
                assert(r@ + decoded(s@.skip(i + 3)) =~= before + decoded(rest));
                i = i + 3;
            },
            None => {
                let mut one = String::new();
                one.push(s[i]);
                assert(one@ =~= seq![rest[0]]);
                r.extend_from_slice(one.as_str().as_bytes());
                assert(r@ =~= before + encode_utf8(seq![rest[0]]));
                assert(rest.skip(1) =~= s@.skip(i + 1));
                assert(r@ + decoded(s@.skip(i + 1)) =~= before + decoded(rest));
                i = i + 1;
            },
        }
    }
    assert(r@ + decoded(s@.skip(i as int)) =~= r@);
    r
}

/// The text that a URI's path stands for.
fn decode_text(s: &[char]) -> (r: Vec<char>)
    ensures
        r@ == decoded_text(s@),
{
    let bytes = decode(s);
    match text::utf8_str(bytes.as_slice()) {
        Some(path) => text::to_chars(path),
        None => vstd::slice::slice_to_vec(s),
    }
}

/// Convert a file:// URI back to a file path.
pub fn uri_to_path(uri: &str) -> (r: String)
    ensures
        r@ == path_of(uri@),
{
    let chars = text::to_chars(uri);
    let scheme = text::to_chars("file://");
    if !text::has_prefix(chars.as_slice(), scheme.as_slice()) {
        return uri.to_string();
    }
    let rest = vstd::slice::slice_subrange(chars.as_slice(), scheme.len(), chars.len());
    assert(rest@ =~= uri@.skip("file://"@.len() as int));
    let path = decode_text(rest);
    if path.len() > 2 && path[0] == '/' && (path[1] as u32) < 128 && path[2] == ':' {
        let tail = vstd::slice::slice_subrange(path.as_slice(), 1, path.len());
        assert(tail@ =~= path@.skip(1));
        text::from_chars(tail)
    } else {
        text::from_chars(path.as_slice())
    }
}

proof fn lemma_encode_ascii(b: u8)
    requires
        b < 128,
    ensures
        encode_utf8(seq![b as char]) == seq![b],
{
    let c = b as char;
    text::lemma_encode_one(c);
    assert(b as u32 & 0x7F == b as u32) by (bit_vector)
        requires
            b < 128,
    ;
    assert(encode_utf8(seq![c]) =~= seq![b]);
}

/// Decoding gives back the bytes that were encoded.
proof fn lemma_decoded_encoded(bytes: Seq<u8>)
    ensures
        decoded(encoded(bytes)) == bytes,
    decreases bytes.len(),
{
    if bytes.len() == 0 {
        assert(decoded(encoded(bytes)) =~= bytes);
    } else {
        let b = bytes[0];
        let rest = bytes.skip(1);
        let s = encoded(bytes);
        lemma_decoded_encoded(rest);
        if is_kept(b) {
            assert(s[0] == b as char);
            assert(s.skip(1) =~= encoded(rest));
            lemma_encode_ascii(b);
        } else {
            assert(s.skip(3) =~= encoded(rest));
            assert(s[1] == upper_hex(b as nat / 16));
            assert(s[2] == upper_hex(b as nat % 16));
            assert(is_escape(s));
        }
        assert(seq![b] + rest =~= bytes);
    }
}

/// The text of an encoded path is the path.
proof fn lemma_decoded_text(path: Seq<char>)
    ensures
        decoded_text(encoded(encode_utf8(path))) == path,
{
    lemma_decoded_encoded(encode_utf8(path));
    encode_utf8_valid_utf8(path);
    encode_utf8_decode_utf8(path);
}

/// A path that starts with a slash comes back from its URI, unless it looks like a drive.
pub proof fn law_path_of_uri_of(path: Seq<char>)
    requires
        path.len() > 0,
        path[0] == '/',
        !drive_form(path),
    ensures
        path_of(uri_of(path)) == path,
{
    let uri = uri_of(path);
    assert(uri.take("file://"@.len() as int) =~= "file://"@);
    assert(uri.skip("file://"@.len() as int) =~= encoded(encode_utf8(path)));
    lemma_decoded_text(path);
}

/// A path that starts with a drive letter comes back from its URI with slashes.
pub proof fn law_drive_path_of_uri_of(path: Seq<char>)
    requires
        path.len() > 1,
        path[0] != '/',
        path[0] != '\\',
        (path[0] as u32) < 128,
        path[1] == ':',
    ensures
        path_of(uri_of(path)) == slashed(path),
{
    reveal_strlit("file://");
    reveal_strlit("file:///");
    let uri = uri_of(path);
    assert("file:///"@ =~= "file://"@ + seq!['/']);
    assert(uri.take("file://"@.len() as int) =~= "file://"@);
    let full = seq!['/'] + slashed(path);
    let bytes = encode_utf8(slashed(path));
    text::lemma_encode_concat(seq!['/'], slashed(path));
    lemma_encode_ascii(47u8);
    assert(encode_utf8(full) =~= seq![47u8] + bytes);
    assert(encode_utf8(full).skip(1) =~= bytes);
    assert(encoded(encode_utf8(full)) =~= seq!['/'] + encoded(bytes));
    assert(uri.skip("file://"@.len() as int) =~= encoded(encode_utf8(full)));
    lemma_decoded_text(full);
    assert(full.skip(1) =~= slashed(path));
}

/// What is encoded holds only characters that stand for themselves in a URI, and percent signs.
pub proof fn law_encoded_chars(bytes: Seq<u8>, i: int)
    requires
        0 <= i < encoded(bytes).len(),
    ensures
        ({
            let c = encoded(bytes)[i];
            c == '%' || ((c as u32) < 128 && is_kept(c as u8))
        }),
    decreases bytes.len(),
{
    let head = encoded_byte(bytes[0]);
    if i >= head.len() {
        law_encoded_chars(bytes.skip(1), i - head.len());
    }
}

/// The marks that stand for themselves in the path of a URI.
pub open spec fn kept_marks() -> Seq<char> {
    seq![
        '-',
        '.',
        '_',
        '~',
        '!',
        '$',
        '&',
        '\'',
        '(',
        ')',
        '*',
        '+',
        ',',
        ';',
        '=',
        ':',
        '@',
        '/',
    ]
}

/// A letter, a digit or one of the marks stands for itself; every other byte is written as a percent
/// sign and its two digits of base sixteen, in capitals.
pub proof fn law_encoded_byte(b: u8)
    ensures
        ({
            let c = b as char;
            let kept = 'A' <= c && c <= 'Z' || 'a' <= c && c <= 'z' || '0' <= c && c <= '9'
                || kept_marks().contains(c);
            &&& kept ==> encoded_byte(b) == seq![c]
            &&& !kept ==> ({
                let out = encoded_byte(b);
                &&& out.len() == 3
                &&& out[0] == '%'
                &&& text::hex_digit(out[1]) == Some((b / 16) as nat)
                &&& text::hex_digit(out[2]) == Some((b % 16) as nat)
                &&& !('a' <= out[1] && out[1] <= 'z')
                &&& !('a' <= out[2] && out[2] <= 'z')
            })
        }),
        encoded(seq![b]) == encoded_byte(b),
{
    let c = b as char;
    let marks = kept_marks();
    if marks.contains(c) {
        let i = choose|i: int| 0 <= i < marks.len() && marks[i] == c;
        assert(is_kept(b));
    }
    if is_kept(b) {
        assert(marks[0] == '-' && marks[1] == '.' && marks[2] == '_' && marks[3] == '~' && marks[4]
            == '!' && marks[5] == '$' && marks[6] == '&' && marks[7] == '\'' && marks[8] == '('
            && marks[9] == ')' && marks[10] == '*' && marks[11] == '+' && marks[12] == ','
            && marks[13] == ';' && marks[14] == '=' && marks[15] == ':' && marks[16] == '@'
            && marks[17] == '/');
    }
    assert(seq![b].skip(1) =~= Seq::<u8>::empty());
    assert(encoded(Seq::<u8>::empty()) =~= Seq::<char>::empty());
    assert(encoded(seq![b]) =~= encoded_byte(b));
}

/// A percent sign and two digits of base sixteen, of either case, stand for the byte of that value;
/// every other character stands for its own bytes.
pub proof fn law_decoded(c: char, d: char, e: char, rest: Seq<char>)
    ensures
        text::hex_digit(d) is Some && text::hex_digit(e) is Some ==> decoded(
            seq!['%', d, e] + rest,
        ) == seq![(text::hex_digit(d)->0 * 16 + text::hex_digit(e)->0) as u8] + decoded(rest),
        c != '%' ==> decoded(seq![c] + rest) == encode_utf8(seq![c]) + decoded(rest),
{
    assert((seq!['%', d, e] + rest).skip(3) =~= rest);
    assert((seq![c] + rest).skip(1) =~= rest);
}

} // verus!
