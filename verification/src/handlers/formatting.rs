//! Formatting: textDocument/formatting, textDocument/rangeFormatting.

use crate::handlers;
use crate::handlers::{
    Call, EmacsCall, Handler, HandlerError, Request, RequestContext, Response, ResponseContext,
};
use crate::json;
use crate::json::{Json, Jv};
use vstd::prelude::*;

verus! {

/// The options of a formatting request.
pub open spec fn format_options(tab_size: Jv) -> Jv {
    handlers::obj(
        seq![
            ("tabSize"@, tab_size),
            ("insertSpaces"@, Jv::Bool(true)),
            ("trimTrailingWhitespace"@, Jv::Bool(true)),
            ("insertFinalNewline"@, Jv::Bool(false)),
            ("trimFinalNewlines"@, Jv::Bool(true)),
        ],
    )
}

/// Without edits there is nothing to format; else Emacs applies them.
pub open spec fn format_calls(filepath: Seq<char>, response: Jv) -> Seq<Call> {
    if response is Null || (response is Array && response->Array_0.len() == 0) {
        handlers::message("Nothing need format."@)
    } else {
        handlers::eval("lsp-bridge-format--update"@, seq![Jv::Str(filepath), response])
    }
}

fn options(tab_size: Json) -> (r: Json)
    ensures
        r@ == format_options(tab_size@),
{
    let mut members: Vec<(String, Json)> = Vec::new();
    members.push(json::field("tabSize", tab_size));
    members.push(json::field("insertSpaces", Json::Bool(true)));
    members.push(json::field("trimTrailingWhitespace", Json::Bool(true)));
    members.push(json::field("insertFinalNewline", Json::Bool(false)));
    members.push(json::field("trimFinalNewlines", Json::Bool(true)));
    assert(json::entry_models(members@) =~= seq![
        ("tabSize"@, tab_size@),
        ("insertSpaces"@, Jv::Bool(true)),
        ("trimTrailingWhitespace"@, Jv::Bool(true)),
        ("insertFinalNewline"@, Jv::Bool(false)),
        ("trimFinalNewlines"@, Jv::Bool(true)),
    ]);
    Json::from_members(members)
}

fn format_response(ctx: &ResponseContext, response: Json) -> (r: Vec<EmacsCall>)
    ensures
        handlers::calls(r@) == format_calls(ctx@.filepath, response@),
{
    let nothing = match response.as_array() {
        Some(edits) => edits.len() == 0,
        None => response.is_null(),
    };
    if nothing {
        handlers::call_message("Nothing need format.")
    } else {
        handlers::call_eval(
            "lsp-bridge-format--update",
            handlers::args2(Json::str(ctx.filepath.as_str()), response),
        )
    }
}

/// Formats a document.
pub struct Formatting;

impl Handler for Formatting {
    open spec fn name_text(&self) -> Seq<char> {
        "formatting"@
    }

    open spec fn method_text(&self) -> Seq<char> {
        "textDocument/formatting"@
    }

    open spec fn cancels(&self) -> bool {
        true
    }

    open spec fn sends_uri(&self) -> bool {
        true
    }

    open spec fn request(&self, ctx: Request) -> Result<Jv, HandlerError> {
        let tab_size = handlers::arg_or(ctx.args, 0, json::int_number(4));
        Ok(handlers::obj(seq![("options"@, format_options(tab_size))]))
    }

    open spec fn response(&self, ctx: Response, response: Jv) -> Seq<Call> {
        format_calls(ctx.filepath, response)
    }

    fn name(&self) -> (r: &'static str) {
        "formatting"
    }

    fn method(&self) -> (r: &'static str) {
        "textDocument/formatting"
    }

    fn cancel_on_change(&self) -> (r: bool) {
        true
    }

    fn send_document_uri(&self) -> (r: bool) {
        true
    }

    /// Args: [tab_size]
    fn process_request(&self, ctx: &RequestContext) -> (r: Result<Json, HandlerError>) {
        let tab_size = handlers::arg_default(&ctx.args, 0, Json::integer(4));
        Ok(handlers::object1("options", options(tab_size)))
    }

    fn process_response(&self, ctx: &ResponseContext, response: Json) -> (r: Vec<EmacsCall>) {
        format_response(ctx, response)
    }
}

/// Formats a range.
pub struct RangeFormatting;

impl Handler for RangeFormatting {
    open spec fn name_text(&self) -> Seq<char> {
        "rangeFormatting"@
    }

    open spec fn method_text(&self) -> Seq<char> {
        "textDocument/rangeFormatting"@
    }

    open spec fn cancels(&self) -> bool {
        true
    }

    open spec fn sends_uri(&self) -> bool {
        true
    }

    open spec fn request(&self, ctx: Request) -> Result<Jv, HandlerError> {
        let range = handlers::obj(
                seq![
                    ("start"@, handlers::arg_or(ctx.args, 0, Jv::Null)),
                    ("end"@, handlers::arg_or(ctx.args, 1, Jv::Null)),
                ],
            );
        let tab_size = handlers::arg_or(ctx.args, 2, json::int_number(4));
        Ok(handlers::obj(seq![("range"@, range), ("options"@, format_options(tab_size))]))
    }

    open spec fn response(&self, ctx: Response, response: Jv) -> Seq<Call> {
        format_calls(ctx.filepath, response)
    }

    fn name(&self) -> (r: &'static str) {
        "rangeFormatting"
    }

    fn method(&self) -> (r: &'static str) {
        "textDocument/rangeFormatting"
    }

    fn cancel_on_change(&self) -> (r: bool) {
        true
    }

    fn send_document_uri(&self) -> (r: bool) {
        true
    }

    /// Args: [range_start, range_end, tab_size]
    fn process_request(&self, ctx: &RequestContext) -> (r: Result<Json, HandlerError>) {
        let range = handlers::object2(
            "start",
            handlers::arg(&ctx.args, 0),
            "end",
            handlers::arg(&ctx.args, 1),
        );
        let tab_size = handlers::arg_default(&ctx.args, 2, Json::integer(4));
        Ok(handlers::object2("range", range, "options", options(tab_size)))
    }

    fn process_response(&self, ctx: &ResponseContext, response: Json) -> (r: Vec<EmacsCall>) {
        format_response(ctx, response)
    }
}

} // verus!
