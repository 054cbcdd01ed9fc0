//! Pull-based diagnostics: textDocument/diagnostic.

use crate::handlers;
use crate::handlers::{
    Call, EmacsCall, Handler, HandlerError, Request, RequestContext, Response, ResponseContext,
};
use crate::json;
use crate::json::{Json, Jv};
use vstd::prelude::*;

verus! {

/// Asks for the diagnostics of a document.
pub struct Diagnostic;

impl Handler for Diagnostic {
    open spec fn name_text(&self) -> Seq<char> {
        "diagnostic"@
    }

    open spec fn method_text(&self) -> Seq<char> {
        "textDocument/diagnostic"@
    }

    open spec fn cancels(&self) -> bool {
        false
    }

    open spec fn sends_uri(&self) -> bool {
        true
    }

    open spec fn request(&self, ctx: Request) -> Result<Jv, HandlerError> {
        let id = json::as_str(handlers::arg_or(ctx.args, 0, Jv::Null));
        let previous = json::as_str(handlers::arg_or(ctx.args, 1, Jv::Null));
        Ok(
            handlers::obj(
                (match id {
                    Some(s) => seq![("identifier"@, Jv::Str(s))],
                    None => seq![],
                }) + (match previous {
                    Some(s) => seq![("previousResultId"@, Jv::Str(s))],
                    None => seq![],
                }),
            ),
        )
    }

    open spec fn response(&self, ctx: Response, response: Jv) -> Seq<Call> {
        match json::member(response, "items"@) {
            Some(Jv::Array(items)) => handlers::eval(
                "lsp-bridge-diagnostic--render"@,
                seq![
                    Jv::Str(ctx.filepath),
                    Jv::Str(ctx.host),
                    Jv::Array(items),
                    json::int_number(items.len() as int),
                ],
            ),
            _ => Seq::empty(),
        }
    }

    fn name(&self) -> (r: &'static str) {
        "diagnostic"
    }

    fn method(&self) -> (r: &'static str) {
        "textDocument/diagnostic"
    }

    fn cancel_on_change(&self) -> (r: bool) {
        false
    }

    fn send_document_uri(&self) -> (r: bool) {
        true
    }

    /// Args: [identifier?, previous_result_id?]
    fn process_request(&self, ctx: &RequestContext) -> (r: Result<Json, HandlerError>) {
        let mut members: Vec<(String, Json)> = Vec::new();
        let id = handlers::arg(&ctx.args, 0);
        let ghost mut wanted: Seq<(Seq<char>, Jv)> = seq![];
        match id.as_str() {
            Some(s) => {
                members.push(json::field("identifier", Json::str(s)));
                proof {
                    wanted = seq![("identifier"@, Jv::Str(s@))];
                }
            },
            None => {},
        }
        assert(json::entry_models(members@) =~= wanted);
        let previous = handlers::arg(&ctx.args, 1);
        match previous.as_str() {
            Some(s) => {
                members.push(json::field("previousResultId", Json::str(s)));
                assert(json::entry_models(members@) =~= wanted + seq![
                    ("previousResultId"@, Jv::Str(s@)),
                ]);
            },
            None => {
                assert(json::entry_models(members@) =~= wanted + seq![]);
            },
        }
        Ok(Json::from_members(members))
    }

    fn process_response(&self, ctx: &ResponseContext, response: Json) -> (r: Vec<EmacsCall>) {
        match response.get("items") {
            Some(found) => match found.as_array() {
                Some(items) => handlers::call_eval(
                    "lsp-bridge-diagnostic--render",
                    handlers::args4(
                        Json::str(ctx.filepath.as_str()),
                        Json::str(ctx.host.as_str()),
                        found.clone(),
                        Json::unsigned(items.len() as u64),
                    ),
                ),
                None => handlers::no_calls(),
            },
            None => handlers::no_calls(),
        }
    }
}

} // verus!
