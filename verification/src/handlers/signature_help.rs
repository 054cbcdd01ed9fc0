//! Signature help: textDocument/signatureHelp.

use crate::handlers;
use crate::handlers::{
    Call, EmacsCall, Handler, HandlerError, Request, RequestContext, Response, ResponseContext,
};
use crate::json;
use crate::json::{Jn, Json, Jv};
use crate::text;
use vstd::utf8::*;
use vstd::prelude::*;

verus! {

/// The signature that a response means: the active one, or the first.
pub open spec fn active_signature(response: Jv) -> Option<Jv> {
    match json::member(response, "signatures"@) {
        Some(Jv::Array(sigs)) => if sigs.len() == 0 {
            None
        } else {
            let active = number_under(response, "activeSignature"@);
            Some(
                if active < sigs.len() {
                    sigs[active as int]
                } else {
                    sigs[0]
                },
            )
        },
        _ => None,
    }
}

/// The whole number from zero up under a key; 0 where there is none.
pub open spec fn number_under(v: Jv, key: Seq<char>) -> u64 {
    match json::as_u64(handlers::member_or_null(v, key)) {
        Some(n) => n,
        None => 0,
    }
}

/// The characters before the first colon.
pub open spec fn before_colon(s: Seq<char>) -> Seq<char>
    decreases s.len(),
{
    if s.len() == 0 || s[0] == ':' {
        Seq::empty()
    } else {
        seq![s[0]] + before_colon(s.skip(1))
    }
}

/// The part of a text between two byte offsets, the second cut to the length; empty where they
/// are out of order or fall inside a character.
pub open spec fn byte_slice(s: Seq<char>, start: u64, end: u64) -> Seq<char> {
    let bytes = encode_utf8(s);
    let stop = if end < bytes.len() {
        end as int
    } else {
        bytes.len() as int
    };
    if start <= stop && is_char_boundary(bytes, start as int) && is_char_boundary(bytes, stop) {
        decode_utf8(bytes.subrange(start as int, stop))
    } else {
        Seq::empty()
    }
}

/// The offset that a value is; 0 where it is none.
pub open spec fn offset_of(v: Jv) -> u64 {
    match json::as_u64(v) {
        Some(n) => n,
        None => 0,
    }
}

/// How a parameter is shown: the active one with its whole label, another up to its colon; a
/// label of two offsets stands for that part of the signature's label.
pub open spec fn argument_text(param: Jv, active: bool, signature: Jv) -> Seq<char> {
    match handlers::member_or_null(param, "label"@) {
        Jv::Str(s) => if active {
            s
        } else {
            before_colon(s)
        },
        Jv::Array(a) => match json::as_str(handlers::member_or_null(signature, "label"@)) {
            Some(label) => if a.len() == 2 {
                byte_slice(label, offset_of(a[0]), offset_of(a[1]))
            } else {
                Seq::empty()
            },
            None => Seq::empty(),
        },
        _ => Seq::empty(),
    }
}

/// How the parameters are shown.
pub open spec fn argument_texts(params: Seq<Jv>, active: u64, signature: Jv) -> Seq<Seq<char>> {
    Seq::new(params.len(), |i: int| argument_text(params[i], i == active, signature))
}

fn read_number(v: &Json, key: &str) -> (r: u64)
    ensures
        r == number_under(v@, key@),
{
    match v.get(key) {
        Some(n) => match n.as_u64() {
            Some(u) => u,
            None => 0,
        },
        None => 0,
    }
}

fn read_offset(v: &Json) -> (r: u64)
    ensures
        r == offset_of(v@),
{
    match v.as_u64() {
        Some(n) => n,
        None => 0,
    }
}

fn cut_before_colon(s: &str) -> (r: String)
    ensures
        r@ == before_colon(s@),
{
    let chars = text::to_chars(s);
    let mut r = String::new();
    let mut i: usize = 0;
    assert(s@.skip(0) =~= s@);
    assert(Seq::<char>::empty() + before_colon(s@) =~= before_colon(s@));
    while i < chars.len() && chars[i] != ':'
        invariant
            chars@ == s@,
            i <= chars@.len(),
            before_colon(s@) == r@ + before_colon(s@.skip(i as int)),
        decreases chars@.len() - i,
    {
        let ghost before = r@;
        r.push(chars[i]);
        assert(s@.skip(i as int).skip(1) =~= s@.skip(i + 1));
        assert(before + (seq![s@[i as int]] + before_colon(s@.skip(i + 1))) =~= r@ + before_colon(
            s@.skip(i + 1),
        ));
        i = i + 1;
    }
    assert(r@ + Seq::<char>::empty() =~= r@);
    r
}

fn cut_bytes(s: &str, start: u64, end: u64) -> (r: String)
    ensures
        r@ == byte_slice(s@, start, end),
{
    broadcast use is_char_boundary_start_end_of_seq;

    let length: usize = s.as_bytes().len();
    let ghost bytes = encode_utf8(s@);
    let stop: usize = if end < length as u64 {
        end as usize
    } else {
        length
    };
    if start > stop as u64 {
        return String::new();
    }
    let begin: usize = start as usize;
    if !s.is_char_boundary(begin) || !s.is_char_boundary(stop) {
        return String::new();
    }
    let (front, _) = s.split_at(stop);
    proof {
        encode_utf8_valid_utf8(s@);
        lemma_boundary_prefix(bytes, begin as int, stop as int);
        assert(encode_utf8(front@) == bytes.subrange(0, stop as int));
    }
    let (_, part) = front.split_at(begin);
    proof {
        assert(bytes.subrange(0, stop as int).subrange(begin as int, stop as int)
            =~= bytes.subrange(begin as int, stop as int));
        encode_utf8_decode_utf8(part@);
    }
    part.to_string()
}

/// A character boundary stays one when the text is cut behind it.
pub proof fn lemma_boundary_prefix(bytes: Seq<u8>, i: int, n: int)
    requires
        valid_utf8(bytes),
        0 <= i <= n <= bytes.len(),
        is_char_boundary(bytes, i),
        is_char_boundary(bytes, n),
    ensures
        is_char_boundary(bytes.subrange(0, n), i),
{
    let front = bytes.subrange(0, n);
    valid_utf8_split(bytes, n);
    is_char_boundary_start_end_of_seq(front);
    if i < n {
        is_char_boundary_iff_not_is_continuation_byte(bytes, i);
        is_char_boundary_iff_not_is_continuation_byte(front, i);
    }
}

fn read_argument(param: &Json, active: bool, signature: &Json) -> (r: String)
    ensures
        r@ == argument_text(param@, active, signature@),
{
    let label = handlers::get_or_null(param, "label");
    match &label {
        Json::String(s) => if active {
            s.clone()
        } else {
            cut_before_colon(s.as_str())
        },
        Json::Array(a) => {
            proof {
                json::lemma_array_model(*a);
            }
            let whole = handlers::get_or_null(signature, "label");
            match whole.as_str() {
                Some(s) => if a.len() == 2 {
                    cut_bytes(s, read_offset(&a[0]), read_offset(&a[1]))
                } else {
                    String::new()
                },
                None => String::new(),
            }
        },
        _ => String::new(),
    }
}

fn read_arguments(params: &Vec<Json>, active: u64, signature: &Json) -> (r: Vec<String>)
    ensures
        text::texts(r@) == argument_texts(json::models(params@), active, signature@),
{
    let ghost all = json::models(params@);
    let mut r: Vec<String> = Vec::new();
    let mut i: usize = 0;
    while i < params.len()
        invariant
            all == json::models(params@),
            i <= params@.len(),
            r@.len() == i,
            forall|j: int|
                0 <= j < i ==> (#[trigger] r@[j])@ == argument_text(
                    all[j],
                    j == active,
                    signature@,
                ),
        decreases params@.len() - i,
    {
        r.push(read_argument(&params[i], i as u64 == active, signature));
        i = i + 1;
    }
    assert(text::texts(r@) =~= argument_texts(all, active, signature@));
    r
}

fn read_signature(response: &Json) -> (r: Option<&Json>)
    ensures
        match active_signature(response@) {
            Some(v) => r is Some && r->0@ == v,
            None => r is None,
        },
{
    match response.get("signatures") {
        Some(v) => match v.as_array() {
            Some(sigs) => {
                if sigs.len() == 0 {
                    return None;
                }
                let active: u64 = read_number(response, "activeSignature");
                if active < sigs.len() as u64 {
                    Some(&sigs[active as usize])
                } else {
                    Some(&sigs[0])
                }
            },
            None => None,
        },
        None => None,
    }
}

/// Shows the signature of the call around a position.
pub struct SignatureHelp;

impl Handler for SignatureHelp {
    open spec fn name_text(&self) -> Seq<char> {
        "signature_help"@
    }

    open spec fn method_text(&self) -> Seq<char> {
        "textDocument/signatureHelp"@
    }

    open spec fn cancels(&self) -> bool {
        true
    }

    open spec fn sends_uri(&self) -> bool {
        true
    }

    open spec fn request(&self, ctx: Request) -> Result<Jv, HandlerError> {
        Ok(handlers::at_position(ctx.args))
    }

    open spec fn response(&self, ctx: Response, response: Jv) -> Seq<Call> {
        match active_signature(response) {
            Some(signature) => match json::member(signature, "parameters"@) {
                Some(Jv::Array(params)) => {
                    let active = number_under(response, "activeParameter"@);
                    handlers::eval(
                        "lsp-bridge-signature-help--update"@,
                        seq![
                            Jv::Str(
                                text::joined(argument_texts(params, active, signature), ", "@),
                            ),
                            Jv::Number(Jn::PosInt(active)),
                            Jv::Str(handlers::member_text(signature, "label"@)),
                        ],
                    )
                },
                _ => Seq::empty(),
            },
            None => Seq::empty(),
        }
    }

    fn name(&self) -> (r: &'static str) {
        "signature_help"
    }

    fn method(&self) -> (r: &'static str) {
        "textDocument/signatureHelp"
    }

    fn cancel_on_change(&self) -> (r: bool) {
        true
    }

    fn send_document_uri(&self) -> (r: bool) {
        true
    }

    /// Args: [position]
    fn process_request(&self, ctx: &RequestContext) -> (r: Result<Json, HandlerError>) {
        Ok(handlers::position_params(&ctx.args))
    }

    fn process_response(&self, _ctx: &ResponseContext, response: Json) -> (r: Vec<EmacsCall>) {
        let signature = match read_signature(&response) {
            Some(s) => s,
            None => return handlers::no_calls(),
        };
        let params = match signature.get("parameters") {
            Some(v) => match v.as_array() {
                Some(a) => a,
                None => return handlers::no_calls(),
            },
            None => return handlers::no_calls(),
        };
        let active: u64 = read_number(&response, "activeParameter");
        let arguments = read_arguments(params, active, signature);
        handlers::call_eval(
            "lsp-bridge-signature-help--update",
            handlers::args3(
                Json::String(text::join(&arguments, ", ")),
                Json::unsigned(active),
                Json::String(handlers::get_text(signature, "label")),
            ),
        )
    }
}

} // verus!
