//! Workspace symbol: workspace/symbol.

use crate::handlers;
use crate::handlers::{
    Call, EmacsCall, Handler, HandlerError, Request, RequestContext, Response, ResponseContext,
};
use crate::json::{Json, Jv};
use crate::text;
use vstd::prelude::*;

verus! {

/// Searches the symbols of the workspace.
pub struct WorkspaceSymbol;

impl Handler for WorkspaceSymbol {
    open spec fn name_text(&self) -> Seq<char> {
        "workspace_symbol"@
    }

    open spec fn method_text(&self) -> Seq<char> {
        "workspace/symbol"@
    }

    open spec fn cancels(&self) -> bool {
        false
    }

    open spec fn sends_uri(&self) -> bool {
        true
    }

    open spec fn request(&self, ctx: Request) -> Result<Jv, HandlerError> {
        Ok(
            handlers::obj(
                seq![("query"@, Jv::Str(text::without_white(handlers::arg_text(ctx.args, 0))))],
            ),
        )
    }

    open spec fn response(&self, ctx: Response, response: Jv) -> Seq<Call> {
        if response is Null {
            Seq::empty()
        } else {
            handlers::eval("lsp-bridge-workspace--list-symbols"@, seq![response])
        }
    }

    fn name(&self) -> (r: &'static str) {
        "workspace_symbol"
    }

    fn method(&self) -> (r: &'static str) {
        "workspace/symbol"
    }

    fn cancel_on_change(&self) -> (r: bool) {
        false
    }

    fn send_document_uri(&self) -> (r: bool) {
        true
    }

    /// Args: [query]; white space in the query is dropped.
    fn process_request(&self, ctx: &RequestContext) -> (r: Result<Json, HandlerError>) {
        let query = handlers::arg_string(&ctx.args, 0);
        let query = text::remove_white(query.as_str());
        Ok(handlers::object1("query", Json::String(query)))
    }

    fn process_response(&self, _ctx: &ResponseContext, response: Json) -> (r: Vec<EmacsCall>) {
        if response.is_null() {
            return handlers::no_calls();
        }
        handlers::call_eval("lsp-bridge-workspace--list-symbols", handlers::args1(response))
    }
}

} // verus!
