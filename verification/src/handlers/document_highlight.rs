//! Document highlight: textDocument/documentHighlight.

use crate::handlers;
use crate::handlers::{
    Call, EmacsCall, Handler, HandlerError, Request, RequestContext, Response, ResponseContext,
};
use crate::json::{Json, Jv};
use vstd::prelude::*;

verus! {

/// Highlights the occurrences of what stands at a position.
pub struct DocumentHighlight;

impl Handler for DocumentHighlight {
    open spec fn name_text(&self) -> Seq<char> {
        "document_highlight"@
    }

    open spec fn method_text(&self) -> Seq<char> {
        "textDocument/documentHighlight"@
    }

    open spec fn cancels(&self) -> bool {
        true
    }

    open spec fn sends_uri(&self) -> bool {
        true
    }

    open spec fn request(&self, ctx: Request) -> Result<Jv, HandlerError> {
        Ok(handlers::at_position(ctx.args))
    }

    open spec fn response(&self, ctx: Response, response: Jv) -> Seq<Call> {
        if response is Null {
            Seq::empty()
        } else {
            handlers::eval("lsp-bridge-document-highlight-render"@, seq![response])
        }
    }

    fn name(&self) -> (r: &'static str) {
        "document_highlight"
    }

    fn method(&self) -> (r: &'static str) {
        "textDocument/documentHighlight"
    }

    fn cancel_on_change(&self) -> (r: bool) {
        true
    }

    fn send_document_uri(&self) -> (r: bool) {
        true
    }

    /// Args: [position]
    fn process_request(&self, ctx: &RequestContext) -> (r: Result<Json, HandlerError>) {
        Ok(handlers::position_params(&ctx.args))
    }

    fn process_response(&self, ctx: &ResponseContext, response: Json) -> (r: Vec<EmacsCall>) {
        if response.is_null() {
            return handlers::no_calls();
        }
        handlers::call_eval("lsp-bridge-document-highlight-render", handlers::args1(response))
    }
}

} // verus!
