//! Code actions: textDocument/codeAction.

use crate::handlers;
use crate::handlers::{
    Call, EmacsCall, Handler, HandlerError, Request, RequestContext, Response, ResponseContext,
};
use crate::json;
use crate::json::{Json, Jv};
use vstd::prelude::*;

verus! {

/// Asks for the code actions of a range.
pub struct CodeAction;

impl Handler for CodeAction {
    open spec fn name_text(&self) -> Seq<char> {
        "code_action"@
    }

    open spec fn method_text(&self) -> Seq<char> {
        "textDocument/codeAction"@
    }

    open spec fn cancels(&self) -> bool {
        true
    }

    open spec fn sends_uri(&self) -> bool {
        true
    }

    open spec fn request(&self, ctx: Request) -> Result<Jv, HandlerError> {
        let range = handlers::obj(
                seq![
                    ("start"@, handlers::arg_or(ctx.args, 1, Jv::Null)),
                    ("end"@, handlers::arg_or(ctx.args, 2, Jv::Null)),
                ],
            );
        let diagnostics = ("diagnostics"@, handlers::arg_or(ctx.args, 0, Jv::Array(seq![])));
        let context = match json::as_str(handlers::arg_or(ctx.args, 3, Jv::Null)) {
            Some(kind) => handlers::obj(
                seq![diagnostics, ("only"@, Jv::Array(seq![Jv::Str(kind)]))],
            ),
            None => handlers::obj(seq![diagnostics]),
        };
        Ok(handlers::obj(seq![("range"@, range), ("context"@, context)]))
    }

    open spec fn response(&self, ctx: Response, response: Jv) -> Seq<Call> {
        if response is Array && response->Array_0.len() > 0 {
            handlers::eval("lsp-bridge-code-action--fix"@, seq![response, Jv::Null])
        } else {
            Seq::empty()
        }
    }

    fn name(&self) -> (r: &'static str) {
        "code_action"
    }

    fn method(&self) -> (r: &'static str) {
        "textDocument/codeAction"
    }

    fn cancel_on_change(&self) -> (r: bool) {
        true
    }

    fn send_document_uri(&self) -> (r: bool) {
        true
    }

    /// Args: [diagnostics, range_start, range_end, action_kind]
    fn process_request(&self, ctx: &RequestContext) -> (r: Result<Json, HandlerError>) {
        let range = handlers::object2(
            "start",
            handlers::arg(&ctx.args, 1),
            "end",
            handlers::arg(&ctx.args, 2),
        );
        let none: Vec<Json> = Vec::new();
        assert(json::models(none@) =~= seq![]);
        let diagnostics = handlers::arg_default(&ctx.args, 0, Json::array(none));
        let kind = handlers::arg(&ctx.args, 3);
        let context = match kind.as_str() {
            Some(s) => handlers::object2(
                "diagnostics",
                diagnostics,
                "only",
                Json::array(handlers::args1(Json::str(s))),
            ),
            None => handlers::object1("diagnostics", diagnostics),
        };
        Ok(handlers::object2("range", range, "context", context))
    }

    fn process_response(&self, _ctx: &ResponseContext, response: Json) -> (r: Vec<EmacsCall>) {
        let some = match response.as_array() {
            Some(actions) => actions.len() > 0,
            None => false,
        };
        if !some {
            return handlers::no_calls();
        }
        handlers::call_eval("lsp-bridge-code-action--fix", handlers::args2(response, Json::Null))
    }
}

} // verus!
