//! Rename: textDocument/prepareRename, textDocument/rename.

use crate::handlers;
use crate::handlers::{
    Call, EmacsCall, Handler, HandlerError, Request, RequestContext, Response, ResponseContext,
};
use crate::json;
use crate::json::{Json, Jv};
use vstd::prelude::*;

verus! {

/// Asks which range a rename would change.
pub struct PrepareRename;

impl Handler for PrepareRename {
    open spec fn name_text(&self) -> Seq<char> {
        "prepare_rename"@
    }

    open spec fn method_text(&self) -> Seq<char> {
        "textDocument/prepareRename"@
    }

    open spec fn cancels(&self) -> bool {
        false
    }

    open spec fn sends_uri(&self) -> bool {
        true
    }

    open spec fn request(&self, ctx: Request) -> Result<Jv, HandlerError> {
        Ok(handlers::at_position(ctx.args))
    }

    open spec fn response(&self, ctx: Response, response: Jv) -> Seq<Call> {
        if response is Null {
            Seq::empty()
        } else {
            let range = match json::member(response, "range"@) {
                Some(wrapped) => wrapped,
                None => response,
            };
            handlers::eval(
                "lsp-bridge-rename--highlight"@,
                seq![
                    Jv::Str(ctx.filepath),
                    Jv::Str(ctx.host),
                    handlers::member_or_null(range, "start"@),
                    handlers::member_or_null(range, "end"@),
                ],
            )
        }
    }

    fn name(&self) -> (r: &'static str) {
        "prepare_rename"
    }

    fn method(&self) -> (r: &'static str) {
        "textDocument/prepareRename"
    }

    fn cancel_on_change(&self) -> (r: bool) {
        false
    }

    fn send_document_uri(&self) -> (r: bool) {
        true
    }

    /// Args: [position]
    fn process_request(&self, ctx: &RequestContext) -> (r: Result<Json, HandlerError>) {
        Ok(handlers::position_params(&ctx.args))
    }

    fn process_response(&self, ctx: &ResponseContext, response: Json) -> (r: Vec<EmacsCall>) {
        if response.is_null() {
            return handlers::no_calls();
        }
        let range = match response.get("range") {
            Some(wrapped) => wrapped,
            None => &response,
        };
        handlers::call_eval(
            "lsp-bridge-rename--highlight",
            handlers::args4(
                Json::str(ctx.filepath.as_str()),
                Json::str(ctx.host.as_str()),
                handlers::get_or_null(range, "start"),
                handlers::get_or_null(range, "end"),
            ),
        )
    }
}

/// Renames what stands at a position.
pub struct Rename;

impl Handler for Rename {
    open spec fn name_text(&self) -> Seq<char> {
        "rename"@
    }

    open spec fn method_text(&self) -> Seq<char> {
        "textDocument/rename"@
    }

    open spec fn cancels(&self) -> bool {
        false
    }

    open spec fn sends_uri(&self) -> bool {
        true
    }

    open spec fn request(&self, ctx: Request) -> Result<Jv, HandlerError> {
        Ok(
            handlers::obj(
                seq![
                    ("position"@, handlers::arg_or(ctx.args, 0, Jv::Null)),
                    ("newName"@, Jv::Str(handlers::arg_text(ctx.args, 1))),
                ],
            ),
        )
    }

    open spec fn response(&self, ctx: Response, response: Jv) -> Seq<Call> {
        if response is Null {
            handlers::message("No rename found"@)
        } else {
            handlers::eval("lsp-bridge-workspace-apply-edit"@, seq![response])
                + handlers::message("Rename done."@)
        }
    }

    fn name(&self) -> (r: &'static str) {
        "rename"
    }

    fn method(&self) -> (r: &'static str) {
        "textDocument/rename"
    }

    fn cancel_on_change(&self) -> (r: bool) {
        false
    }

    fn send_document_uri(&self) -> (r: bool) {
        true
    }

    /// Args: [position, new_name]
    fn process_request(&self, ctx: &RequestContext) -> (r: Result<Json, HandlerError>) {
        let new_name = handlers::arg_string(&ctx.args, 1);
        Ok(
            handlers::object2(
                "position",
                handlers::arg(&ctx.args, 0),
                "newName",
                Json::String(new_name),
            ),
        )
    }

    fn process_response(&self, _ctx: &ResponseContext, response: Json) -> (r: Vec<EmacsCall>) {
        if response.is_null() {
            return handlers::call_message("No rename found");
        }
        let ghost edit = response@;
        let mut r = handlers::call_eval(
            "lsp-bridge-workspace-apply-edit",
            handlers::args1(response),
        );
        let ghost before = handlers::calls(r@);
        r.push(EmacsCall::Message("Rename done.".to_string()));
        assert(handlers::calls(r@) =~= before + handlers::message("Rename done."@));
        r
    }
}

} // verus!
