//! Inlay hints: textDocument/inlayHint.

use crate::handlers;
use crate::handlers::{
    Call, EmacsCall, Handler, HandlerError, Request, RequestContext, Response, ResponseContext,
};
use crate::json::{Json, Jv};
use vstd::prelude::*;

verus! {

/// Shows hints inside the text of a range.
pub struct InlayHint;

impl Handler for InlayHint {
    open spec fn name_text(&self) -> Seq<char> {
        "inlay_hint"@
    }

    open spec fn method_text(&self) -> Seq<char> {
        "textDocument/inlayHint"@
    }

    open spec fn cancels(&self) -> bool {
        true
    }

    open spec fn sends_uri(&self) -> bool {
        true
    }

    open spec fn request(&self, ctx: Request) -> Result<Jv, HandlerError> {
        let range = handlers::obj(
                seq![
                    ("start"@, handlers::arg_or(ctx.args, 0, Jv::Null)),
                    ("end"@, handlers::arg_or(ctx.args, 1, Jv::Null)),
                ],
            );
        Ok(handlers::obj(seq![("range"@, range)]))
    }

    open spec fn response(&self, ctx: Response, response: Jv) -> Seq<Call> {
        if response is Array {
            handlers::eval(
                "lsp-bridge-inlay-hint--render"@,
                seq![Jv::Str(ctx.filepath), Jv::Str(ctx.host), response],
            )
        } else {
            Seq::empty()
        }
    }

    fn name(&self) -> (r: &'static str) {
        "inlay_hint"
    }

    fn method(&self) -> (r: &'static str) {
        "textDocument/inlayHint"
    }

    fn cancel_on_change(&self) -> (r: bool) {
        true
    }

    fn send_document_uri(&self) -> (r: bool) {
        true
    }

    /// Args: [range_start, range_end]
    fn process_request(&self, ctx: &RequestContext) -> (r: Result<Json, HandlerError>) {
        let range = handlers::object2(
            "start",
            handlers::arg(&ctx.args, 0),
            "end",
            handlers::arg(&ctx.args, 1),
        );
        Ok(handlers::object1("range", range))
    }

    fn process_response(&self, ctx: &ResponseContext, response: Json) -> (r: Vec<EmacsCall>) {
        if response.as_array().is_none() {
            return handlers::no_calls();
        }
        handlers::call_eval(
            "lsp-bridge-inlay-hint--render",
            handlers::args3(Json::str(ctx.filepath.as_str()), Json::str(ctx.host.as_str()), response),
        )
    }
}

} // verus!
