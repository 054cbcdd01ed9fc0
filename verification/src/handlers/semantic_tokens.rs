//! Semantic tokens: textDocument/semanticTokens/full.

use crate::handlers;
use crate::handlers::{
    Call, EmacsCall, Handler, HandlerError, Request, RequestContext, Response, ResponseContext,
};
use crate::json::{Json, Jv};
use vstd::prelude::*;

verus! {

/// Colours the tokens of a document.
pub struct SemanticTokens;

impl Handler for SemanticTokens {
    open spec fn name_text(&self) -> Seq<char> {
        "semantic_tokens"@
    }

    open spec fn method_text(&self) -> Seq<char> {
        "textDocument/semanticTokens/full"@
    }

    open spec fn cancels(&self) -> bool {
        false
    }

    open spec fn sends_uri(&self) -> bool {
        true
    }

    open spec fn request(&self, ctx: Request) -> Result<Jv, HandlerError> {
        Ok(handlers::obj(seq![]))
    }

    open spec fn response(&self, ctx: Response, response: Jv) -> Seq<Call> {
        if response is Null {
            Seq::empty()
        } else {
            handlers::eval(
                "lsp-bridge-semantic-tokens--render"@,
                seq![Jv::Str(ctx.filepath), Jv::Str(ctx.host), response],
            )
        }
    }

    fn name(&self) -> (r: &'static str) {
        "semantic_tokens"
    }

    fn method(&self) -> (r: &'static str) {
        "textDocument/semanticTokens/full"
    }

    fn cancel_on_change(&self) -> (r: bool) {
        false
    }

    fn send_document_uri(&self) -> (r: bool) {
        true
    }

    /// The request needs the textDocument URI only.
    fn process_request(&self, _ctx: &RequestContext) -> (r: Result<Json, HandlerError>) {
        Ok(handlers::object0())
    }

    fn process_response(&self, ctx: &ResponseContext, response: Json) -> (r: Vec<EmacsCall>) {
        if response.is_null() {
            return handlers::no_calls();
        }
        handlers::call_eval(
            "lsp-bridge-semantic-tokens--render",
            handlers::args3(Json::str(ctx.filepath.as_str()), Json::str(ctx.host.as_str()), response),
        )
    }
}

} // verus!
