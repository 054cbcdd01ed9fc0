//! Hover: textDocument/hover.

use crate::handlers;
use crate::handlers::{
    Call, EmacsCall, Handler, HandlerError, Request, RequestContext, Response, ResponseContext,
};
use crate::json;
use crate::json::{Json, Jv};
use crate::text;
use vstd::prelude::*;

verus! {

/// Whether contents say nothing: an empty text or array, or no text in the value.
pub open spec fn is_empty(contents: Jv) -> bool {
    match contents {
        Jv::Str(s) => s.len() == 0,
        Jv::Array(a) => a.len() == 0,
        Jv::Object(_) => handlers::member_text(contents, "value"@).len() == 0,
        _ => true,
    }
}

/// A fenced code block.
pub open spec fn code_block(language: Seq<char>, content: Seq<char>) -> Seq<char> {
    "```"@ + language + "\n"@ + content + "\n```"@
}

/// The parts of markdown that contents become, in order.
pub open spec fn hover_parts(contents: Jv) -> Seq<Seq<char>>
    decreases contents,
{
    match contents {
        Jv::Str(s) => seq![
            if text::starts_with(s, "```"@) {
                s
            } else {
                code_block("text"@, s)
            },
        ],
        Jv::Object(_) => {
            let value = handlers::member_text(contents, "value"@);
            match json::as_str(handlers::member_or_null(contents, "kind"@)) {
                Some(kind) => seq![
                    if kind == "markdown"@ || kind == "plaintext"@ {
                        value
                    } else {
                        code_block(kind, value)
                    },
                ],
                None => match json::as_str(handlers::member_or_null(contents, "language"@)) {
                    Some(language) => seq![code_block(language, value)],
                    None => Seq::empty(),
                },
            }
        },
        Jv::Array(a) => hover_all_parts(a),
        _ => Seq::empty(),
    }
}

/// The parts of several contents, in order.
pub open spec fn hover_all_parts(a: Seq<Jv>) -> Seq<Seq<char>>
    decreases a,
{
    if a.len() == 0 {
        Seq::empty()
    } else {
        hover_all_parts(a.drop_last()) + hover_parts(a.last())
    }
}

/// The markdown of contents: their parts, each on lines of its own.
pub open spec fn hover_text(contents: Jv) -> Seq<char> {
    text::joined(hover_parts(contents), "\n"@)
}

fn is_empty_content(contents: &Json) -> (r: bool)
    ensures
        r == is_empty(contents@),
{
    match contents {
        Json::String(s) => s.as_str().is_empty(),
        Json::Array(a) => {
            proof {
                json::lemma_array_model(*a);
            }
            a.len() == 0
        },
        Json::Object(_) => {
            let value = handlers::get_text(contents, "value");
            value.as_str().is_empty()
        },
        _ => true,
    }
}

fn make_code_block(language: &str, content: &str) -> (r: String)
    ensures
        r@ == code_block(language@, content@),
{
    let mut r = text::concat("```", language);
    r.append("\n");
    r.append(content);
    r.append("\n```");
    r
}

fn push_part(parts: &mut Vec<String>, s: String)
    ensures
        text::texts(final(parts)@) == text::texts(old(parts)@) + seq![s@],
{
    parts.push(s);
    assert(text::texts(parts@) =~= text::texts(old(parts)@) + seq![s@]);
}

fn parse_hover_contents_inner(contents: &Json, parts: &mut Vec<String>)
    ensures
        text::texts(final(parts)@) == text::texts(old(parts)@) + hover_parts(contents@),
    decreases contents,
{
    match contents {
        Json::String(s) => {
            let chars = text::to_chars(s.as_str());
            let fence = text::to_chars("```");
            if text::has_prefix(chars.as_slice(), fence.as_slice()) {
                push_part(parts, s.clone());
            } else {
                push_part(parts, make_code_block("text", s.as_str()));
            }
        },
        Json::Object(_) => {
            let value = handlers::get_text(contents, "value");
            let kind = handlers::get_or_null(contents, "kind");
            let language = handlers::get_or_null(contents, "language");
            match kind.as_str() {
                Some(kind) => if text::str_eq(kind, "markdown") || text::str_eq(
                    kind,
                    "plaintext",
                ) {
                    push_part(parts, value);
                } else {
                    push_part(parts, make_code_block(kind, value.as_str()));
                },
                None => match language.as_str() {
                    Some(language) => push_part(
                        parts,
                        make_code_block(language, value.as_str()),
                    ),
                    None => {},
                },
            }
        },
        Json::Array(a) => {
            let ghost all = json::models(a@);
            let ghost start = text::texts(parts@);
            let mut i: usize = 0;
            assert(start =~= start + hover_all_parts(all.take(0)));
            while i < a.len()
                invariant
                    *contents == Json::Array(*a),
                    all == json::models(a@),
                    i <= a@.len(),
                    text::texts(parts@) == start + hover_all_parts(all.take(i as int)),
                decreases a@.len() - i,
            {
                assert(decreases_to!(*contents => contents->Array_0));
                assert(decreases_to!(a => a[i as int]));
                parse_hover_contents_inner(&a[i], parts);
                assert(all.take(i + 1).drop_last() =~= all.take(i as int));
                assert(all.take(i + 1).last() == a@[i as int]@);
                assert(text::texts(parts@) =~= start + hover_all_parts(all.take(i + 1)));
                i = i + 1;
            }
            assert(all.take(i as int) =~= all);
            proof {
                json::lemma_array_model(*a);
            }
        },
        _ => {},
    }
    assert(text::texts(parts@) =~= text::texts(old(parts)@) + hover_parts(contents@));
}

/// Parse hover contents into a markdown string:
///
/// - a string is wrapped in a code block if it does not open one
/// - `{ kind, value }` gives its value, or a code block of another kind
/// - `{ language, value }` is wrapped in a code block
/// - an array gives what its items give, joined with newlines
pub fn parse_hover_contents(contents: &Json) -> (r: String)
    ensures
        r@ == hover_text(contents@),
{
    let mut parts: Vec<String> = Vec::new();
    parse_hover_contents_inner(contents, &mut parts);
    assert(text::texts(Seq::<String>::empty()) + hover_parts(contents@) =~= hover_parts(
        contents@,
    ));
    text::join(&parts, "\n")
}

/// Asks for the documentation of what stands at a position.
pub struct Hover;

impl Handler for Hover {
    open spec fn name_text(&self) -> Seq<char> {
        "hover"@
    }

    open spec fn method_text(&self) -> Seq<char> {
        "textDocument/hover"@
    }

    open spec fn cancels(&self) -> bool {
        false
    }

    open spec fn sends_uri(&self) -> bool {
        true
    }

    open spec fn request(&self, ctx: Request) -> Result<Jv, HandlerError> {
        let start = handlers::arg_or(ctx.args, 0, Jv::Null);
        let end = handlers::arg_or(ctx.args, 1, Jv::Null);
        if json::equal(start, end) || ctx.server_name != "rust-analyzer"@ {
            Ok(handlers::obj(seq![("position"@, start)]))
        } else {
            let range = handlers::obj(seq![("start"@, start), ("end"@, end)]);
            Ok(handlers::obj(seq![("position"@, range)]))
        }
    }

    open spec fn response(&self, ctx: Response, response: Jv) -> Seq<Call> {
        match json::member(response, "contents"@) {
            Some(contents) => if is_empty(contents) {
                handlers::message("No documentation available."@)
            } else {
                handlers::eval(
                    "lsp-bridge-popup-documentation--callback"@,
                    seq![Jv::Str(hover_text(contents))],
                )
            },
            None => handlers::message("No documentation available."@),
        }
    }

    fn name(&self) -> (r: &'static str) {
        "hover"
    }

    fn method(&self) -> (r: &'static str) {
        "textDocument/hover"
    }

    fn cancel_on_change(&self) -> (r: bool) {
        false
    }

    fn send_document_uri(&self) -> (r: bool) {
        true
    }

    /// Args: [start, end, show_style]; only rust-analyzer takes a range.
    fn process_request(&self, ctx: &RequestContext) -> (r: Result<Json, HandlerError>) {
        let start = handlers::arg(&ctx.args, 0);
        let end = handlers::arg(&ctx.args, 1);
        if json::same(&start, &end) || !text::str_eq(ctx.server_name.as_str(), "rust-analyzer") {
            Ok(handlers::object1("position", start))
        } else {
            let range = handlers::object2("start", start, "end", end);
            Ok(handlers::object1("position", range))
        }
    }

    fn process_response(&self, _ctx: &ResponseContext, response: Json) -> (r: Vec<EmacsCall>) {
        match response.get("contents") {
            Some(contents) => {
                if is_empty_content(contents) {
                    return handlers::call_message("No documentation available.");
                }
                let shown = parse_hover_contents(contents);
                handlers::call_eval(
                    "lsp-bridge-popup-documentation--callback",
                    handlers::args1(Json::String(shown)),
                )
            },
            None => handlers::call_message("No documentation available."),
        }
    }
}

} // verus!
