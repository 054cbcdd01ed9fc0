//! Execute command: workspace/executeCommand.

use crate::handlers;
use crate::handlers::{
    Call, EmacsCall, Handler, HandlerError, Request, RequestContext, Response, ResponseContext,
};
use crate::json;
use crate::json::{Json, Jv};
use vstd::prelude::*;

verus! {

/// Has the server execute a command; its response means nothing.
pub struct ExecuteCommand;

impl Handler for ExecuteCommand {
    open spec fn name_text(&self) -> Seq<char> {
        "execute_command"@
    }

    open spec fn method_text(&self) -> Seq<char> {
        "workspace/executeCommand"@
    }

    open spec fn cancels(&self) -> bool {
        false
    }

    open spec fn sends_uri(&self) -> bool {
        false
    }

    open spec fn request(&self, ctx: Request) -> Result<Jv, HandlerError> {
        Ok(
            handlers::obj(
                seq![
                    ("command"@, Jv::Str(handlers::arg_text(ctx.args, 1))),
                    ("arguments"@, handlers::arg_or(ctx.args, 2, Jv::Array(seq![]))),
                ],
            ),
        )
    }

    open spec fn response(&self, ctx: Response, response: Jv) -> Seq<Call> {
        Seq::empty()
    }

    fn name(&self) -> (r: &'static str) {
        "execute_command"
    }

    fn method(&self) -> (r: &'static str) {
        "workspace/executeCommand"
    }

    fn cancel_on_change(&self) -> (r: bool) {
        false
    }

    fn send_document_uri(&self) -> (r: bool) {
        false
    }

    /// Args: [server_name, command, arguments]
    fn process_request(&self, ctx: &RequestContext) -> (r: Result<Json, HandlerError>) {
        let command = handlers::arg_string(&ctx.args, 1);
        let none: Vec<Json> = Vec::new();
        assert(json::models(none@) =~= seq![]);
        let arguments = handlers::arg_default(&ctx.args, 2, Json::array(none));
        Ok(handlers::object2("command", Json::String(command), "arguments", arguments))
    }

    fn process_response(&self, _ctx: &ResponseContext, _response: Json) -> (r: Vec<EmacsCall>) {
        handlers::no_calls()
    }
}

} // verus!
