//! Framing of messages to and from Emacs: a hexadecimal length of six digits, the UTF-8 text,
//! a newline.
//!
//! The length counts the bytes of the text and the newline.

use crate::buffer;
use crate::text;
use bytes::BytesMut;
use vstd::prelude::*;
use vstd::utf8::*;

verus! {

/// Errors in wire protocol framing.
#[derive(Debug, PartialEq, Eq)]
pub enum WireError {
    Incomplete { needed: usize },
    InvalidHexLength(String),
    FrameTooLarge(usize),
    InvalidUtf8,
}

/// The mathematical value of a [`WireError`].
pub enum WireFault {
    Incomplete { needed: nat },
    InvalidHexLength(Seq<char>),
    FrameTooLarge(nat),
    InvalidUtf8,
}

impl View for WireError {
    type V = WireFault;

    open spec fn view(&self) -> WireFault {
        match *self {
            WireError::Incomplete { needed } => WireFault::Incomplete { needed: needed as nat },
            WireError::InvalidHexLength(s) => WireFault::InvalidHexLength(s@),
            WireError::FrameTooLarge(n) => WireFault::FrameTooLarge(n as nat),
            WireError::InvalidUtf8 => WireFault::InvalidUtf8,
        }
    }
}

/// The message of a fault.
pub open spec fn fault_text(e: WireFault) -> Seq<char> {
    match e {
        WireFault::Incomplete { needed } => "incomplete frame: need "@ + text::decimal(needed)
            + " more bytes"@,
        WireFault::InvalidHexLength(s) => "invalid hex length: "@ + s,
        WireFault::FrameTooLarge(n) => "frame too large: "@ + text::decimal(n) + " bytes"@,
        WireFault::InvalidUtf8 => "invalid UTF-8 in frame"@,
    }
}

impl WireError {
    /// The message of the error.
    pub fn to_string(&self) -> (r: String)
        ensures
            r@ == fault_text(self@),
    {
        match self {
            WireError::Incomplete { needed } => {
                let mut r = String::from_str("incomplete frame: need ");
                text::push_decimal(*needed as u64, &mut r);
                r.append(" more bytes");
                r
            },
            WireError::InvalidHexLength(s) => text::concat("invalid hex length: ", s.as_str()),
            WireError::FrameTooLarge(n) => {
                let mut r = String::from_str("frame too large: ");
                text::push_decimal(*n as u64, &mut r);
                r.append(" bytes");
                r
            },
            WireError::InvalidUtf8 => String::from_str("invalid UTF-8 in frame"),
        }
    }
}

/// Maximum frame size: what six hexadecimal digits can say.
pub const MAX_FRAME_SIZE: usize = 0xFFFFFF;

/// Header size: 6 hex characters
pub const HEADER_SIZE: usize = 6;

/// The header in front of `n` bytes: lower-case hexadecimal, six digits or more.
pub open spec fn header(n: nat) -> Seq<char> {
    text::zero_padded(text::hex(n), 6)
}

/// The text of a frame.
pub open spec fn frame_text(message: Seq<char>) -> Seq<char> {
    header(encode_utf8(message).len() + 1) + message + seq!['\n']
}

/// The bytes of a frame.
pub open spec fn frame(message: Seq<char>) -> Seq<u8> {
    encode_utf8(frame_text(message))
}

fn frame_string(message: &str) -> (r: String)
    ensures
        r@ == frame_text(message@),
{
    let len: u128 = message.as_bytes().len() as u128 + 1;
    let mut r = String::new();
    text::push_hex_padded(len, 6, &mut r);
    r.append(message);
    r.push('\n');
    assert(r@ =~= frame_text(message@));
    r
}

/// Encode a message into wire format.
///
/// Produces: `{6-char hex length}{message}\n`. The length counts the trailing newline.
pub fn encode(message: &str) -> (r: Vec<u8>)
    ensures
        r@ == frame(message@),
{
    let s = frame_string(message);
    s.as_str().as_bytes_vec()
}

/// Encode a message into a BytesMut buffer.
pub fn encode_into(message: &str, buf: &mut BytesMut)
    requires
        buffer::contents(*old(buf)).len() + frame(message@).len() <= isize::MAX,
    ensures
        buffer::contents(*final(buf)) == buffer::contents(*old(buf)) + frame(message@),
{
    let s = frame_string(message);
    buf.extend_from_slice(s.as_str().as_bytes());
}

/// Result of attempting to decode a frame from a buffer.
#[derive(Debug, PartialEq, Eq)]
pub enum DecodeResult {
    /// A complete message was decoded.
    Complete {
        /// The decoded S-expression string (without trailing newline).
        message: String,
        /// Total bytes consumed from the buffer (header + payload).
        consumed: usize,
    },
    /// Not enough data yet; need more bytes.
    Incomplete {
        /// Minimum additional bytes needed.
        needed: usize,
    },
}

/// The mathematical value of a [`DecodeResult`].
#[verifier::ext_equal]
pub enum Decoded {
    Complete { message: Seq<char>, consumed: nat },
    Incomplete { needed: nat },
}

impl View for DecodeResult {
    type V = Decoded;

    open spec fn view(&self) -> Decoded {
        match *self {
            DecodeResult::Complete { message, consumed } => Decoded::Complete {
                message: message@,
                consumed: consumed as nat,
            },
            DecodeResult::Incomplete { needed } => Decoded::Incomplete { needed: needed as nat },
        }
    }
}

/// A text without the newline at its end.
pub open spec fn strip_newline(s: Seq<char>) -> Seq<char> {
    if s.len() > 0 && s.last() == '\n' {
        s.drop_last()
    } else {
        s
    }
}

/// What the bytes at the front of a buffer hold: a frame, part of one, or a fault.
pub open spec fn decoded(buf: Seq<u8>) -> Result<Decoded, WireFault> {
    if buf.len() < 6 {
        Ok(Decoded::Incomplete { needed: (6 - buf.len()) as nat })
    } else if !valid_utf8(buf.take(6)) {
        Err(WireFault::InvalidHexLength("not ASCII"@))
    } else {
        let digits = decode_utf8(buf.take(6));
        match text::hex_value(digits) {
            None => Err(WireFault::InvalidHexLength(digits)),
            Some(n) => if buf.len() < 6 + n {
                Ok(Decoded::Incomplete { needed: (6 + n - buf.len()) as nat })
            } else if !valid_utf8(buf.subrange(6, 6 + n as int)) {
                Err(WireFault::InvalidUtf8)
            } else {
                Ok(
                    Decoded::Complete {
                        message: strip_newline(decode_utf8(buf.subrange(6, 6 + n as int))),
                        consumed: 6 + n,
                    },
                )
            },
        }
    }
}

/// A text with at most six characters says at most `MAX_FRAME_SIZE`.
proof fn lemma_header_bound(buf: Seq<u8>)
    requires
        buf.len() >= 6,
        valid_utf8(buf.take(6)),
    ensures
        decode_utf8(buf.take(6)).len() <= 6,
        text::hex_value(decode_utf8(buf.take(6))) matches Some(n) ==> n <= MAX_FRAME_SIZE,
{
    let b = buf.take(6);
    let s = decode_utf8(b);
    decode_utf8_encode_utf8(b);
    text::lemma_encode_len(s);
    if let Some(n) = text::hex_value(s) {
        let digits = if s.len() > 0 && s[0] == '+' {
            s.skip(1)
        } else {
            s
        };
        text::lemma_hex_digits_bound(digits);
        text::lemma_pow16_monotonic(digits.len(), 6);
        assert(text::pow16(6) == 0x1000000) by {
            reveal_with_fuel(text::pow16, 7);
        }
    }
}

/// Try to decode one frame from a byte buffer.
///
/// Returns `DecodeResult::Complete` with the message if a full frame is available,
/// or `DecodeResult::Incomplete` if more data is needed.
pub fn decode(buf: &[u8]) -> (r: Result<DecodeResult, WireError>)
    ensures
        match decoded(buf@) {
            Ok(d) => r is Ok && r->Ok_0@ == d,
            Err(e) => r is Err && r->Err_0@ == e,
        },
{
    if buf.len() < HEADER_SIZE {
        return Ok(DecodeResult::Incomplete { needed: HEADER_SIZE - buf.len() });
    }
    let head = vstd::slice::slice_subrange(buf, 0, HEADER_SIZE);
    assert(head@ =~= buf@.take(6));
    let digits = match text::utf8_str(head) {
        Some(s) => s,
        None => return Err(WireError::InvalidHexLength("not ASCII".to_string())),
    };
    proof {
        lemma_header_bound(buf@);
    }
    let chars = text::to_chars(digits);
    let payload_len: usize = match text::parse_hex(chars.as_slice()) {
        Some(n) => n as usize,
        None => return Err(WireError::InvalidHexLength(digits.to_string())),
    };
    let total_len: usize = HEADER_SIZE + payload_len;
    if buf.len() < total_len {
        return Ok(DecodeResult::Incomplete { needed: total_len - buf.len() });
    }
    let payload = vstd::slice::slice_subrange(buf, HEADER_SIZE, total_len);
    match text::utf8_str(payload) {
        None => Err(WireError::InvalidUtf8),
        Some(s) => {
            let chars = text::to_chars(s);
            let end: usize = if chars.len() > 0 && chars[chars.len() - 1] == '\n' {
                chars.len() - 1
            } else {
                chars.len()
            };
            let kept = vstd::slice::slice_subrange(chars.as_slice(), 0, end);
            assert(kept@ =~= strip_newline(s@));
            Ok(DecodeResult::Complete { message: text::from_chars(kept), consumed: total_len })
        },
    }
}

/// A streaming decoder that manages an internal buffer.
///
/// Feed data with `push()`, extract messages with `next_message()`.
pub struct FrameDecoder {
    buf: BytesMut,
}

impl View for FrameDecoder {
    type V = Seq<u8>;

    /// The bytes that were pushed and not yet taken out as messages.
    closed spec fn view(&self) -> Seq<u8> {
        buffer::contents(self.buf)
    }
}

impl FrameDecoder {
    pub fn new() -> (r: Self)
        ensures
            r@ == Seq::<u8>::empty(),
    {
        FrameDecoder { buf: BytesMut::with_capacity(4096) }
    }

    /// Push raw bytes into the decoder buffer.
    pub fn push(&mut self, data: &[u8])
        requires
            old(self)@.len() + data@.len() <= isize::MAX,
        ensures
            final(self)@ == old(self)@ + data@,
    {
        self.buf.extend_from_slice(data);
    }

    /// Try to extract the next complete message from the buffer.
    ///
    /// Returns `None` if no complete frame is available yet.
    pub fn next_message(&mut self) -> (r: Result<Option<String>, WireError>)
        ensures
            match decoded(old(self)@) {
                Ok(Decoded::Complete { message, consumed }) => r is Ok && r->Ok_0 is Some
                    && r->Ok_0->0@ == message && final(self)@ == old(self)@.skip(consumed as int),
                Ok(Decoded::Incomplete { .. }) => r == Ok::<Option<String>, WireError>(None)
                    && final(self)@ == old(self)@,
                Err(e) => r is Err && r->Err_0@ == e && final(self)@ == old(self)@,
            },
    {
        match decode(buffer::as_slice(&self.buf)) {
            Ok(DecodeResult::Complete { message, consumed }) => {
                buffer::advance(&mut self.buf, consumed);
                Ok(Some(message))
            },
            Ok(DecodeResult::Incomplete { .. }) => Ok(None),
            Err(e) => Err(e),
        }
    }

    /// Returns true if the buffer is empty.
    pub fn is_empty(&self) -> (r: bool)
        ensures
            r == (self@.len() == 0),
    {
        self.buf.is_empty()
    }

    /// Returns the number of buffered bytes.
    pub fn buffered_len(&self) -> (r: usize)
        ensures
            r == self@.len(),
    {
        self.buf.len()
    }
}

impl Default for FrameDecoder {
    fn default() -> (r: Self)
        ensures
            r@ == Seq::<u8>::empty(),
    {
        FrameDecoder::new()
    }
}

// ---------------------------------------------------------------------------
// Laws
// ---------------------------------------------------------------------------

/// Whether six digits can say the length of the message and its newline.
pub open spec fn fits(message: Seq<char>) -> bool {
    encode_utf8(message).len() + 1 <= MAX_FRAME_SIZE
}

/// A frame is a header of six bytes and the encoded text with its newline.
proof fn lemma_frame_parts(message: Seq<char>)
    requires
        fits(message),
    ensures
        ({
            let n = encode_utf8(message).len() + 1;
            let head = encode_utf8(header(n));
            let body = encode_utf8(message + seq!['\n']);
            &&& frame(message) == head + body
            &&& head.len() == 6
            &&& body.len() == n
            &&& valid_utf8(head)
            &&& decode_utf8(head) == header(n)
            &&& text::hex_value(header(n)) == Some(n)
            &&& valid_utf8(body)
            &&& decode_utf8(body) == message + seq!['\n']
        }),
{
    let n = encode_utf8(message).len() + 1;
    assert(text::pow16(6) == 0x1000000) by {
        reveal_with_fuel(text::pow16, 7);
    }
    text::lemma_zero_padded_hex(n, 6);
    let h = header(n);
    assert forall|i: int| 0 <= i < h.len() implies (h[i] as u32) < 128 by {
        assert(text::hex_digit(h[i]) is Some);
    }
    assert(is_ascii_chars(h));
    is_ascii_chars_encode_utf8(h);
    assert(frame_text(message) =~= h + (message + seq!['\n']));
    text::lemma_encode_concat(h, message + seq!['\n']);
    text::lemma_encode_concat(message, seq!['\n']);
    text::lemma_encode_one('\n');
    encode_utf8_valid_utf8(h);
    encode_utf8_decode_utf8(h);
    encode_utf8_valid_utf8(message + seq!['\n']);
    encode_utf8_decode_utf8(message + seq!['\n']);
}

/// Decoding a frame gives its message and takes exactly the frame, whatever follows it.
pub proof fn law_decode_frame(message: Seq<char>, rest: Seq<u8>)
    requires
        fits(message),
    ensures
        decoded(frame(message) + rest) == Ok::<Decoded, WireFault>(
            Decoded::Complete { message, consumed: frame(message).len() },
        ),
{
    lemma_frame_parts(message);
    let n = encode_utf8(message).len() + 1;
    let head = encode_utf8(header(n));
    let body = encode_utf8(message + seq!['\n']);
    let buf = frame(message) + rest;
    assert(buf.take(6) =~= head);
    assert(buf.subrange(6, 6 + n as int) =~= body);
    assert((message + seq!['\n']).drop_last() =~= message);
}

/// A frame of which bytes are missing at its end is incomplete, and what is asked for does not
/// go beyond the frame.
pub proof fn law_frame_prefix_incomplete(message: Seq<char>, k: int)
    requires
        fits(message),
        0 <= k < frame(message).len(),
    ensures
        decoded(frame(message).take(k)) matches Ok(Decoded::Incomplete { needed }) && 0 < needed
            && k + needed <= frame(message).len(),
{
    lemma_frame_parts(message);
    let n = encode_utf8(message).len() + 1;
    let buf = frame(message).take(k);
    if k >= 6 {
        assert(buf.take(6) =~= encode_utf8(header(n)));
    }
}

/// The bytes of frames one behind another.
pub open spec fn frames(messages: Seq<Seq<char>>) -> Seq<u8>
    decreases messages.len(),
{
    if messages.len() == 0 {
        Seq::empty()
    } else {
        frame(messages[0]) + frames(messages.skip(1))
    }
}

/// The messages at the front of a buffer, up to the first bytes that hold no whole frame, and
/// those bytes.
pub open spec fn taken(buf: Seq<u8>) -> (Seq<Seq<char>>, Seq<u8>)
    decreases buf.len(),
{
    match decoded(buf) {
        Ok(Decoded::Complete { message, consumed }) => if 0 < consumed <= buf.len() {
            let (rest, left) = taken(buf.skip(consumed as int));
            (seq![message] + rest, left)
        } else {
            (Seq::empty(), buf)
        },
        _ => (Seq::empty(), buf),
    }
}

/// A decoded frame lies within the buffer and is not empty.
pub proof fn lemma_decoded_len(buf: Seq<u8>)
    ensures
        decoded(buf) matches Ok(Decoded::Complete { message, consumed }) ==> 0 < consumed
            <= buf.len(),
{
}

/// Frames come out of a buffer whole and in order, and what follows them is read by itself.
pub proof fn law_taken_frames(messages: Seq<Seq<char>>, rest: Seq<u8>)
    requires
        forall|i: int| 0 <= i < messages.len() ==> fits(#[trigger] messages[i]),
    ensures
        taken(frames(messages) + rest).0 == messages + taken(rest).0,
        taken(frames(messages) + rest).1 == taken(rest).1,
    decreases messages.len(),
{
    if messages.len() == 0 {
        assert(frames(messages) + rest =~= rest);
        assert(messages + taken(rest).0 =~= taken(rest).0);
    } else {
        let more = frames(messages.skip(1)) + rest;
        let buf = frames(messages) + rest;
        assert(buf =~= frame(messages[0]) + more);
        law_decode_frame(messages[0], more);
        lemma_frame_parts(messages[0]);
        assert(buf.skip(frame(messages[0]).len() as int) =~= more);
        assert forall|i: int| 0 <= i < messages.skip(1).len() implies fits(
            #[trigger] messages.skip(1)[i],
        ) by {
            assert(messages.skip(1)[i] == messages[i + 1]);
        }
        law_taken_frames(messages.skip(1), rest);
        assert(seq![messages[0]] + (messages.skip(1) + taken(rest).0) =~= messages + taken(
            rest,
        ).0);
    }
}

/// A frame or a fault that was decoded is decoded the same when more bytes follow.
pub proof fn law_decoded_stays(first: Seq<u8>, second: Seq<u8>)
    requires
        !(decoded(first) matches Ok(Decoded::Incomplete { needed })),
    ensures
        decoded(first + second) == decoded(first),
{
    assert((first + second).take(6) =~= first.take(6));
    if valid_utf8(first.take(6)) {
        if let Some(n) = text::hex_value(decode_utf8(first.take(6))) {
            let end = 6 + n as int;
            assert((first + second).subrange(6, end) =~= first.subrange(6, end));
        }
    }
}

/// However bytes are cut into two batches, the same messages come out in the same order, and the
/// same bytes are left.
pub proof fn law_taken_split(first: Seq<u8>, second: Seq<u8>)
    ensures
        taken(first + second).0 == taken(first).0 + taken(taken(first).1 + second).0,
        taken(first + second).1 == taken(taken(first).1 + second).1,
    decreases first.len(),
{
    lemma_decoded_len(first);
    match decoded(first) {
        Ok(Decoded::Complete { message, consumed }) => {
            let n = consumed as int;
            law_decoded_stays(first, second);
            assert((first + second).skip(n) =~= first.skip(n) + second);
            law_taken_split(first.skip(n), second);
            assert(taken(first + second).0 =~= taken(first).0 + taken(taken(first).1 + second).0);
        },
        _ => {
            assert(taken(first).0 + taken(first + second).0 =~= taken(first + second).0);
        },
    }
}

} // verus!
