//! Framing of JSON-RPC messages to and from language servers.
//!
//! A frame is a block of header lines that end in CR LF, one of them `Content-Length`, an empty
//! line, and as many bytes of UTF-8 text as the header says.

use crate::buffer;
use crate::text;
use bytes::BytesMut;
use vstd::prelude::*;
use vstd::utf8::*;

verus! {

/// Errors in JSON-RPC transport.
#[derive(Debug, PartialEq, Eq)]
pub enum TransportError {
    Incomplete,
    InvalidHeader(String),
    InvalidJson(String),
    PayloadTooLarge(usize),
    InvalidUtf8,
}

/// The mathematical value of a [`TransportError`].
pub enum TransportFault {
    Incomplete,
    InvalidHeader(Seq<char>),
    InvalidJson(Seq<char>),
    PayloadTooLarge(nat),
    InvalidUtf8,
}

impl View for TransportError {
    type V = TransportFault;

    open spec fn view(&self) -> TransportFault {
        match *self {
            TransportError::Incomplete => TransportFault::Incomplete,
            TransportError::InvalidHeader(s) => TransportFault::InvalidHeader(s@),
            TransportError::InvalidJson(s) => TransportFault::InvalidJson(s@),
            TransportError::PayloadTooLarge(n) => TransportFault::PayloadTooLarge(n as nat),
            TransportError::InvalidUtf8 => TransportFault::InvalidUtf8,
        }
    }
}

/// The message of a fault.
pub open spec fn fault_text(e: TransportFault) -> Seq<char> {
    match e {
        TransportFault::Incomplete => "incomplete message: need more data"@,
        TransportFault::InvalidHeader(s) => "invalid header: "@ + s,
        TransportFault::InvalidJson(s) => "invalid JSON: "@ + s,
        TransportFault::PayloadTooLarge(n) => "payload too large: "@ + text::decimal(n)
            + " bytes"@,
        TransportFault::InvalidUtf8 => "invalid UTF-8"@,
    }
}

impl TransportError {
    /// The message of the error.
    pub fn to_string(&self) -> (r: String)
        ensures
            r@ == fault_text(self@),
    {
        match self {
            TransportError::Incomplete => String::from_str("incomplete message: need more data"),
            TransportError::InvalidHeader(s) => text::concat("invalid header: ", s.as_str()),
            TransportError::InvalidJson(s) => text::concat("invalid JSON: ", s.as_str()),
            TransportError::PayloadTooLarge(n) => {
                let mut r = String::from_str("payload too large: ");
                text::push_decimal(*n as u64, &mut r);
                r.append(" bytes");
                r
            },
            TransportError::InvalidUtf8 => String::from_str("invalid UTF-8"),
        }
    }
}

/// Maximum JSON-RPC message size: 100 MB.
pub const MAX_PAYLOAD_SIZE: usize = 104857600;

/// The text of a frame.
pub open spec fn frame_text(json: Seq<char>) -> Seq<char> {
    "Content-Length: "@ + text::decimal(encode_utf8(json).len()) + seq!['\r', '\n', '\r', '\n']
        + json
}

/// The bytes of a frame.
pub open spec fn frame(json: Seq<char>) -> Seq<u8> {
    encode_utf8(frame_text(json))
}

fn frame_string(json: &str) -> (r: String)
    ensures
        r@ == frame_text(json@),
{
    let mut r = String::from_str("Content-Length: ");
    text::push_decimal(json.as_bytes().len() as u64, &mut r);
    r.push('\r');
    r.push('\n');
    r.push('\r');
    r.push('\n');
    r.append(json);
    assert(r@ =~= frame_text(json@));
    r
}

/// Encode a JSON-RPC message with Content-Length framing.
pub fn encode(json_content: &str) -> (r: Vec<u8>)
    ensures
        r@ == frame(json_content@),
{
    let s = frame_string(json_content);
    s.as_str().as_bytes_vec()
}

/// Encode a JSON-RPC message into a BytesMut buffer.
pub fn encode_into(json_content: &str, buf: &mut BytesMut)
    requires
        buffer::contents(*old(buf)).len() + frame(json_content@).len() <= isize::MAX,
    ensures
        buffer::contents(*final(buf)) == buffer::contents(*old(buf)) + frame(json_content@),
{
    let s = frame_string(json_content);
    buf.extend_from_slice(s.as_str().as_bytes());
}

/// Result of attempting to decode a Content-Length framed message.
#[derive(Debug, PartialEq, Eq)]
pub enum DecodeResult {
    /// A complete JSON message was decoded.
    Complete {
        /// The JSON string payload.
        json: String,
        /// Total bytes consumed from the buffer.
        consumed: usize,
    },
    /// Not enough data; need more bytes.
    Incomplete,
}

/// The mathematical value of a [`DecodeResult`].
#[verifier::ext_equal]
pub enum Decoded {
    Complete { json: Seq<char>, consumed: nat },
    Incomplete,
}

impl View for DecodeResult {
    type V = Decoded;

    open spec fn view(&self) -> Decoded {
        match *self {
            DecodeResult::Complete { json, consumed } => Decoded::Complete {
                json: json@,
                consumed: consumed as nat,
            },
            DecodeResult::Incomplete => Decoded::Incomplete,
        }
    }
}

/// Whether CR LF CR LF stands at a position.
pub open spec fn blank_line_at(buf: Seq<u8>, i: int) -> bool {
    0 <= i && i + 4 <= buf.len() && buf[i] == 13 && buf[i + 1] == 10 && buf[i + 2] == 13 && buf[i
        + 3] == 10
}

/// The first position from `from` on at which CR LF CR LF stands.
pub open spec fn header_end(buf: Seq<u8>, from: int) -> Option<int>
    decreases buf.len() - from,
{
    if from < 0 || from + 4 > buf.len() {
        None
    } else if blank_line_at(buf, from) {
        Some(from)
    } else {
        header_end(buf, from + 1)
    }
}

/// How many characters stand before the first CR LF, or at all.
pub open spec fn line_len(s: Seq<char>) -> nat
    decreases s.len(),
{
    if s.len() < 2 {
        s.len()
    } else if s[0] == '\r' && s[1] == '\n' {
        0
    } else {
        1 + line_len(s.skip(1))
    }
}

/// The length that the first `Content-Length` line of the headers says.
pub open spec fn content_length(headers: Seq<char>) -> Result<nat, TransportFault>
    decreases headers.len(),
{
    proof {
        lemma_line_len(headers);
    }
    let n = line_len(headers);
    let line = text::trimmed(headers.take(n as int));
    if text::starts_with(line, "Content-Length:"@) {
        let value = text::trimmed(line.skip("Content-Length:"@.len() as int));
        match text::usize_value(value) {
            Some(n) => Ok(n),
            None => Err(TransportFault::InvalidHeader("invalid Content-Length: "@ + value)),
        }
    } else if n < headers.len() {
        content_length(headers.skip(n as int + 2))
    } else {
        Err(TransportFault::InvalidHeader("missing Content-Length header"@))
    }
}

/// What the bytes at the front of a buffer hold: a frame, part of one, or a fault.
pub open spec fn decoded(buf: Seq<u8>) -> Result<Decoded, TransportFault> {
    match header_end(buf, 0) {
        None => Ok(Decoded::Incomplete),
        Some(end) => if !valid_utf8(buf.take(end)) {
            Err(TransportFault::InvalidHeader("not UTF-8"@))
        } else {
            match content_length(decode_utf8(buf.take(end))) {
                Err(e) => Err(e),
                Ok(n) => if n > MAX_PAYLOAD_SIZE {
                    Err(TransportFault::PayloadTooLarge(n))
                } else if buf.len() < end + 4 + n {
                    Ok(Decoded::Incomplete)
                } else if !valid_utf8(buf.subrange(end + 4, end + 4 + n)) {
                    Err(TransportFault::InvalidUtf8)
                } else {
                    Ok(
                        Decoded::Complete {
                            json: decode_utf8(buf.subrange(end + 4, end + 4 + n)),
                            consumed: (end + 4 + n) as nat,
                        },
                    )
                },
            }
        },
    }
}

pub proof fn lemma_line_len(s: Seq<char>)
    ensures
        line_len(s) <= s.len(),
        line_len(s) < s.len() ==> line_len(s) + 2 <= s.len(),
    decreases s.len(),
{
    if s.len() >= 2 && !(s[0] == '\r' && s[1] == '\n') {
        lemma_line_len(s.skip(1));
    }
}

pub proof fn lemma_header_end(buf: Seq<u8>, from: int)
    requires
        0 <= from,
    ensures
        header_end(buf, from) matches Some(end) ==> from <= end && end + 4 <= buf.len(),
    decreases buf.len() - from,
{
    if from + 4 <= buf.len() && !blank_line_at(buf, from) {
        lemma_header_end(buf, from + 1);
    }
}

/// Find the position of CR LF CR LF in the buffer.
fn find_header_end(buf: &[u8]) -> (r: Option<usize>)
    ensures
        match header_end(buf@, 0) {
            Some(end) => r is Some && r->0 == end && end + 4 <= buf@.len(),
            None => r is None,
        },
{
    if buf.len() < 4 {
        return None;
    }
    let mut i: usize = 0;
    while i < buf.len() - 3
        invariant
            4 <= buf@.len(),
            i + 3 <= buf@.len(),
            header_end(buf@, 0) == header_end(buf@, i as int),
        decreases buf@.len() - i,
    {
        if buf[i] == 13 && buf[i + 1] == 10 && buf[i + 2] == 13 && buf[i + 3] == 10 {
            return Some(i);
        }
        i = i + 1;
    }
    None
}

fn count_line(s: &[char]) -> (r: usize)
    ensures
        r == line_len(s@),
        r <= s@.len(),
        r < s@.len() ==> r + 2 <= s@.len(),
{
    proof {
        lemma_line_len(s@);
    }
    let mut i: usize = 0;
    assert(s@.skip(0) =~= s@);
    while i < s.len()
        invariant
            i <= s@.len(),
            line_len(s@) == i + line_len(s@.skip(i as int)),
            line_len(s@) <= s@.len(),
            line_len(s@) < s@.len() ==> line_len(s@) + 2 <= s@.len(),
        decreases s@.len() - i,
    {
        if s.len() - i < 2 {
            return s.len();
        }
        if s[i] == '\r' && s[i + 1] == '\n' {
            assert(s@.skip(i as int)[1] == s@[i + 1]);
            return i;
        }
        assert(s@.skip(i as int).skip(1) =~= s@.skip(i + 1));
        assert(s@.skip(i as int)[1] == s@[i + 1]);
        i = i + 1;
    }
    i
}

/// Parse Content-Length from the header lines, skipping unknown ones.
fn parse_content_length(headers: &[char]) -> (r: Result<usize, TransportError>)
    ensures
        match content_length(headers@) {
            Ok(n) => r is Ok && r->Ok_0 == n,
            Err(e) => r is Err && r->Err_0@ == e,
        },
{
    let name = text::to_chars("Content-Length:");
    let mut start: usize = 0;
    assert(headers@.skip(0) =~= headers@);
    loop
        invariant
            name@ == "Content-Length:"@,
            start <= headers@.len(),
            content_length(headers@) == content_length(headers@.skip(start as int)),
        decreases headers@.len() - start,
    {
        let rest = vstd::slice::slice_subrange(headers, start, headers.len());
        assert(rest@ =~= headers@.skip(start as int));
        let n: usize = count_line(rest);
        let whole = vstd::slice::slice_subrange(rest, 0, n);
        assert(whole@ =~= rest@.take(n as int));
        let line = text::trim(whole);
        if text::has_prefix(line, name.as_slice()) {
            let tail = vstd::slice::slice_subrange(line, name.len(), line.len());
            assert(tail@ =~= line@.skip("Content-Length:"@.len() as int));
            let value = text::trim(tail);
            return match text::parse_usize(value) {
                Some(n) => Ok(n),
                None => {
                    let shown = text::from_chars(value);
                    Err(
                        TransportError::InvalidHeader(
                            text::concat("invalid Content-Length: ", shown.as_str()),
                        ),
                    )
                },
            };
        }
        if n == rest.len() {
            return Err(TransportError::InvalidHeader("missing Content-Length header".to_string()));
        }
        assert(rest@.skip(n as int + 2) =~= headers@.skip(start + n + 2));
        start = start + n + 2;
    }
}

/// Try to decode one Content-Length framed message from a byte buffer.
///
/// Header lines other than `Content-Length` are skipped.
pub fn decode(buf: &[u8]) -> (r: Result<DecodeResult, TransportError>)
    ensures
        match decoded(buf@) {
            Ok(d) => r is Ok && r->Ok_0@ == d,
            Err(e) => r is Err && r->Err_0@ == e,
        },
{
    let end: usize = match find_header_end(buf) {
        Some(pos) => pos,
        None => return Ok(DecodeResult::Incomplete),
    };
    let head = vstd::slice::slice_subrange(buf, 0, end);
    assert(head@ =~= buf@.take(end as int));
    let headers = match text::utf8_str(head) {
        Some(s) => text::to_chars(s),
        None => return Err(TransportError::InvalidHeader("not UTF-8".to_string())),
    };
    let length: usize = parse_content_length(headers.as_slice())?;
    if length > MAX_PAYLOAD_SIZE {
        return Err(TransportError::PayloadTooLarge(length));
    }
    let size: usize = buf.len();
    let start: usize = end + 4;
    if size - start < length {
        return Ok(DecodeResult::Incomplete);
    }
    let payload = vstd::slice::slice_subrange(buf, start, start + length);
    match text::utf8_str(payload) {
        Some(s) => Ok(DecodeResult::Complete { json: s.to_string(), consumed: start + length }),
        None => Err(TransportError::InvalidUtf8),
    }
}

/// A streaming decoder for Content-Length framed messages.
pub struct ContentLengthDecoder {
    buf: BytesMut,
}

impl View for ContentLengthDecoder {
    type V = Seq<u8>;

    /// The bytes that were pushed and not yet taken out as messages.
    closed spec fn view(&self) -> Seq<u8> {
        buffer::contents(self.buf)
    }
}

impl ContentLengthDecoder {
    pub fn new() -> (r: Self)
        ensures
            r@ == Seq::<u8>::empty(),
    {
        ContentLengthDecoder { buf: BytesMut::with_capacity(8192) }
    }

    /// Push raw bytes into the decoder buffer.
    pub fn push(&mut self, data: &[u8])
        requires
            old(self)@.len() + data@.len() <= isize::MAX,
        ensures
            final(self)@ == old(self)@ + data@,
    {
        self.buf.extend_from_slice(data);
    }

    /// Try to extract the next complete JSON message.
    pub fn next_message(&mut self) -> (r: Result<Option<String>, TransportError>)
        ensures
            match decoded(old(self)@) {
                Ok(Decoded::Complete { json, consumed }) => r is Ok && r->Ok_0 is Some
                    && r->Ok_0->0@ == json && final(self)@ == old(self)@.skip(consumed as int),
                Ok(Decoded::Incomplete) => r == Ok::<Option<String>, TransportError>(None)
                    && final(self)@ == old(self)@,
                Err(e) => r is Err && r->Err_0@ == e && final(self)@ == old(self)@,
            },
    {
        proof {
            lemma_header_end(self@, 0);
        }
        match decode(buffer::as_slice(&self.buf)) {
            Ok(DecodeResult::Complete { json, consumed }) => {
                buffer::advance(&mut self.buf, consumed);
                Ok(Some(json))
            },
            Ok(DecodeResult::Incomplete) => Ok(None),
            Err(e) => Err(e),
        }
    }

    /// Returns the number of buffered bytes.
    pub fn buffered_len(&self) -> (r: usize)
        ensures
            r == self@.len(),
    {
        self.buf.len()
    }
}

impl Default for ContentLengthDecoder {
    fn default() -> (r: Self)
        ensures
            r@ == Seq::<u8>::empty(),
    {
        ContentLengthDecoder::new()
    }
}

// ---------------------------------------------------------------------------
// Laws
// ---------------------------------------------------------------------------

/// Whether the message is within the size that the decoder takes.
pub open spec fn fits(json: Seq<char>) -> bool {
    encode_utf8(json).len() <= MAX_PAYLOAD_SIZE
}

proof fn lemma_header_end_at(buf: Seq<u8>, from: int, end: int)
    requires
        0 <= from <= end,
        blank_line_at(buf, end),
        forall|i: int| from <= i < end ==> buf[i] != 13,
    ensures
        header_end(buf, from) == Some(end),
    decreases end - from,
{
    if from < end {
        assert(buf[from] != 13);
        lemma_header_end_at(buf, from + 1, end);
    }
}

/// The header line in front of a payload of `n` bytes.
spec fn length_line(n: nat) -> Seq<char> {
    "Content-Length: "@ + text::decimal(n)
}

proof fn lemma_line_len_whole(s: Seq<char>)
    requires
        forall|i: int| 0 <= i < s.len() ==> (#[trigger] s[i]) != '\r',
    ensures
        line_len(s) == s.len(),
    decreases s.len(),
{
    if s.len() >= 2 {
        assert(s[0] != '\r');
        assert forall|i: int| 0 <= i < s.skip(1).len() implies (#[trigger] s.skip(1)[i]) != '\r' by {
            assert(s.skip(1)[i] == s[i + 1]);
        }
        lemma_line_len_whole(s.skip(1));
    }
}

proof fn lemma_content_length(n: nat)
    requires
        n <= MAX_PAYLOAD_SIZE,
    ensures
        content_length(length_line(n)) == Ok::<nat, TransportFault>(n),
        is_ascii_chars(length_line(n)),
        forall|i: int| 0 <= i < length_line(n).len() ==> (#[trigger] length_line(n)[i]) != '\r',
{
    reveal_strlit("Content-Length: ");
    reveal_strlit("Content-Length:");
    let d = text::decimal(n);
    let s = length_line(n);
    text::lemma_decimal(n);
    let k = "Content-Length: "@.len() as int;
    assert(k == 16 && "Content-Length:"@.len() == 15);
    assert forall|i: int| 0 <= i < s.len() implies (#[trigger] s[i]) != '\r' && (s[i] as u32)
        < 128 by {
        if i >= k {
            assert(text::is_digit(d[i - k]));
        }
    }
    lemma_line_len_whole(s);
    assert(s.take(s.len() as int) =~= s);
    assert(s.last() == d.last());
    assert(text::is_digit(d[d.len() - 1]));
    text::lemma_trimmed_same(s);
    assert(s.take(15) =~= "Content-Length:"@);
    let value = s.skip(15);
    assert(value =~= seq![' '] + d);
    assert(text::is_digit(d[0]));
    text::lemma_trimmed_same(d);
    text::lemma_trimmed_blank(d);
    text::lemma_usize_value_decimal(n);
}

/// A frame is its header line, an empty line, and the encoded payload.
proof fn lemma_frame_parts(json: Seq<char>)
    ensures
        ({
            let line = encode_utf8(length_line(encode_utf8(json).len()));
            frame(json) == line + seq![13u8, 10u8, 13u8, 10u8] + encode_utf8(json)
        }),
{
    let line = length_line(encode_utf8(json).len());
    let blank: Seq<char> = seq!['\r', '\n', '\r', '\n'];
    assert(frame_text(json) =~= line + (blank + json));
    text::lemma_encode_concat(line, blank + json);
    text::lemma_encode_concat(blank, json);
    assert(is_ascii_chars(blank));
    is_ascii_chars_encode_utf8(blank);
    assert(encode_utf8(blank) =~= seq![13u8, 10u8, 13u8, 10u8]);
    assert(frame(json) =~= encode_utf8(line) + seq![13u8, 10u8, 13u8, 10u8] + encode_utf8(json));
}

/// Where the header of a frame ends, in the frame and whatever follows it.
proof fn lemma_frame_header(json: Seq<char>, buf: Seq<u8>)
    requires
        fits(json),
        ({
            let line = encode_utf8(length_line(encode_utf8(json).len()));
            &&& buf.len() >= line.len() + 4
            &&& buf.take(line.len() as int + 4) == frame(json).take(line.len() as int + 4)
        }),
    ensures
        ({
            let line = encode_utf8(length_line(encode_utf8(json).len()));
            &&& header_end(buf, 0) == Some(line.len() as int)
            &&& valid_utf8(buf.take(line.len() as int))
            &&& content_length(decode_utf8(buf.take(line.len() as int))) == Ok::<
                nat,
                TransportFault,
            >(encode_utf8(json).len())
        }),
{
    let n = encode_utf8(json).len();
    let text_line = length_line(n);
    let line = encode_utf8(text_line);
    lemma_content_length(n);
    lemma_frame_parts(json);
    is_ascii_chars_encode_utf8(text_line);
    let k = line.len() as int;
    let f = frame(json);
    assert forall|i: int| 0 <= i < k + 4 implies buf[i] == f[i] by {
        assert(buf.take(k + 4)[i] == f.take(k + 4)[i]);
    }
    assert forall|i: int| 0 <= i < k implies buf[i] != 13 by {
        assert(f[i] == line[i]);
        assert(line[i] == text_line[i] as u8);
        assert(text_line[i] != '\r');
        assert((text_line[i] as u32) < 128);
    }
    assert(blank_line_at(buf, k));
    lemma_header_end_at(buf, 0, k);
    assert(buf.take(k) =~= line);
    encode_utf8_valid_utf8(text_line);
    encode_utf8_decode_utf8(text_line);
}

/// Decoding a frame gives its message and takes exactly the frame, whatever follows it.
pub proof fn law_decode_frame(json: Seq<char>, rest: Seq<u8>)
    requires
        fits(json),
    ensures
        decoded(frame(json) + rest) == Ok::<Decoded, TransportFault>(
            Decoded::Complete { json, consumed: frame(json).len() },
        ),
{
    let buf = frame(json) + rest;
    let n = encode_utf8(json).len();
    let line = encode_utf8(length_line(n));
    let k = line.len() as int;
    lemma_frame_parts(json);
    assert(buf.take(k + 4) =~= frame(json).take(k + 4));
    lemma_frame_header(json, buf);
    assert(buf.subrange(k + 4, k + 4 + n) =~= encode_utf8(json));
    encode_utf8_valid_utf8(json);
    encode_utf8_decode_utf8(json);
}

/// A frame of which bytes are missing at its end is incomplete.
pub proof fn law_frame_prefix_incomplete(json: Seq<char>, m: int)
    requires
        fits(json),
        0 <= m < frame(json).len(),
    ensures
        decoded(frame(json).take(m)) == Ok::<Decoded, TransportFault>(Decoded::Incomplete),
{
    let buf = frame(json).take(m);
    let n = encode_utf8(json).len();
    let line = encode_utf8(length_line(n));
    let k = line.len() as int;
    lemma_frame_parts(json);
    if m >= k + 4 {
        assert(buf.take(k + 4) =~= frame(json).take(k + 4));
        lemma_frame_header(json, buf);
    } else {
        let text_line = length_line(n);
        lemma_content_length(n);
        is_ascii_chars_encode_utf8(text_line);
        assert forall|i: int| 0 <= i < k && i < m implies (#[trigger] buf[i]) != 13 by {
            assert(frame(json)[i] == line[i]);
            assert(line[i] == text_line[i] as u8);
            assert(text_line[i] != '\r');
            assert((text_line[i] as u32) < 128);
        }
        lemma_no_header_end(buf, 0, k);
    }
}

proof fn lemma_no_header_end(buf: Seq<u8>, from: int, k: int)
    requires
        0 <= from,
        buf.len() < k + 4,
        forall|i: int| 0 <= i < k && i < buf.len() ==> (#[trigger] buf[i]) != 13,
    ensures
        header_end(buf, from) is None,
    decreases buf.len() - from,
{
    if from + 4 <= buf.len() {
        assert(buf[from] != 13);
        lemma_no_header_end(buf, from + 1, k);
    }
}

/// The bytes of frames one behind another.
pub open spec fn frames(messages: Seq<Seq<char>>) -> Seq<u8>
    decreases messages.len(),
{
    if messages.len() == 0 {
        Seq::empty()
    } else {
        frame(messages[0]) + frames(messages.skip(1))
    }
}

/// The messages at the front of a buffer, up to the first bytes that hold no whole frame, and
/// those bytes.
pub open spec fn taken(buf: Seq<u8>) -> (Seq<Seq<char>>, Seq<u8>)
    decreases buf.len(),
{
    match decoded(buf) {
        Ok(Decoded::Complete { json, consumed }) => if 0 < consumed <= buf.len() {
            let (rest, left) = taken(buf.skip(consumed as int));
            (seq![json] + rest, left)
        } else {
            (Seq::empty(), buf)
        },
        _ => (Seq::empty(), buf),
    }
}

/// A decoded frame lies within the buffer and is not empty.
pub proof fn lemma_decoded_len(buf: Seq<u8>)
    ensures
        decoded(buf) matches Ok(Decoded::Complete { json, consumed }) ==> 0 < consumed
            <= buf.len(),
{
    lemma_header_end(buf, 0);
}

/// Frames come out of a buffer whole and in order, and what follows them is read by itself.
pub proof fn law_taken_frames(messages: Seq<Seq<char>>, rest: Seq<u8>)
    requires
        forall|i: int| 0 <= i < messages.len() ==> fits(#[trigger] messages[i]),
    ensures
        taken(frames(messages) + rest).0 == messages + taken(rest).0,
        taken(frames(messages) + rest).1 == taken(rest).1,
    decreases messages.len(),
{
    if messages.len() == 0 {
        assert(frames(messages) + rest =~= rest);
        assert(messages + taken(rest).0 =~= taken(rest).0);
    } else {
        let more = frames(messages.skip(1)) + rest;
        let buf = frames(messages) + rest;
        assert(buf =~= frame(messages[0]) + more);
        law_decode_frame(messages[0], more);
        lemma_frame_parts(messages[0]);
        assert(buf.skip(frame(messages[0]).len() as int) =~= more);
        assert forall|i: int| 0 <= i < messages.skip(1).len() implies fits(
            #[trigger] messages.skip(1)[i],
        ) by {
            assert(messages.skip(1)[i] == messages[i + 1]);
        }
        law_taken_frames(messages.skip(1), rest);
        assert(seq![messages[0]] + (messages.skip(1) + taken(rest).0) =~= messages + taken(
            rest,
        ).0);
    }
}

/// More bytes do not move the end of the header.
proof fn lemma_header_end_stays(first: Seq<u8>, second: Seq<u8>, from: int)
    requires
        0 <= from,
        header_end(first, from) is Some,
    ensures
        header_end(first + second, from) == header_end(first, from),
    decreases first.len() - from,
{
    if !blank_line_at(first, from) {
        assert(!blank_line_at(first + second, from));
        lemma_header_end_stays(first, second, from + 1);
    }
}

/// A frame or a fault that was decoded is decoded the same when more bytes follow.
pub proof fn law_decoded_stays(first: Seq<u8>, second: Seq<u8>)
    requires
        !(decoded(first) matches Ok(Decoded::Incomplete)),
    ensures
        decoded(first + second) == decoded(first),
{
    let end = header_end(first, 0)->0;
    lemma_header_end(first, 0);
    lemma_header_end_stays(first, second, 0);
    assert((first + second).take(end) =~= first.take(end));
    if valid_utf8(first.take(end)) {
        if let Ok(n) = content_length(decode_utf8(first.take(end))) {
            if first.len() >= end + 4 + n {
                assert((first + second).subrange(end + 4, end + 4 + n) =~= first.subrange(
                    end + 4,
                    end + 4 + n,
                ));
            }
        }
    }
}

/// However bytes are cut into two batches, the same messages come out in the same order, and the
/// same bytes are left.
pub proof fn law_taken_split(first: Seq<u8>, second: Seq<u8>)
    ensures
        taken(first + second).0 == taken(first).0 + taken(taken(first).1 + second).0,
        taken(first + second).1 == taken(taken(first).1 + second).1,
    decreases first.len(),
{
    lemma_decoded_len(first);
    match decoded(first) {
        Ok(Decoded::Complete { json, consumed }) => {
            let n = consumed as int;
            law_decoded_stays(first, second);
            assert((first + second).skip(n) =~= first.skip(n) + second);
            law_taken_split(first.skip(n), second);
            assert(taken(first + second).0 =~= taken(first).0 + taken(taken(first).1 + second).0);
        },
        _ => {
            assert(taken(first).0 + taken(first + second).0 =~= taken(first + second).0);
        },
    }
}

} // verus!
