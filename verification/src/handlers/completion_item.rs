//! Completion item resolve: completionItem/resolve.

use crate::handlers;
use crate::handlers::{
    Call, EmacsCall, Handler, HandlerError, Request, RequestContext, Response, ResponseContext,
};
use crate::json;
use crate::json::{Json, Jv};
use vstd::prelude::*;

verus! {

/// The text of a documentation: the string that it is, or the one in its value.
pub open spec fn documentation_text(v: Jv) -> Seq<char> {
    match v {
        Jv::Str(s) => s,
        _ => handlers::member_text(v, "value"@),
    }
}

/// The further edits of an item; none if it has no such member.
pub open spec fn additional_edits(v: Jv) -> Jv {
    match json::member(v, "additionalTextEdits"@) {
        Some(edits) => edits,
        None => Jv::Array(seq![]),
    }
}

fn get_edits(v: &Json) -> (r: Json)
    ensures
        r@ == additional_edits(v@),
{
    match v.get("additionalTextEdits") {
        Some(edits) => edits.clone(),
        None => {
            let none: Vec<Json> = Vec::new();
            assert(json::models(none@) =~= seq![]);
            Json::array(none)
        },
    }
}

fn documentation_string(v: &Json) -> (r: String)
    ensures
        r@ == documentation_text(v@),
{
    match v {
        Json::String(s) => s.clone(),
        _ => handlers::get_text(v, "value"),
    }
}

/// Asks for the details of a completion item.
pub struct CompletionItem;

impl Handler for CompletionItem {
    open spec fn name_text(&self) -> Seq<char> {
        "completion_item_resolve"@
    }

    open spec fn method_text(&self) -> Seq<char> {
        "completionItem/resolve"@
    }

    open spec fn cancels(&self) -> bool {
        false
    }

    open spec fn sends_uri(&self) -> bool {
        false
    }

    open spec fn request(&self, ctx: Request) -> Result<Jv, HandlerError> {
        if ctx.args.len() > 2 {
            Ok(ctx.args[2])
        } else {
            Err(HandlerError::MissingCompletionItem)
        }
    }

    open spec fn response(&self, ctx: Response, response: Jv) -> Seq<Call> {
        if response is Null {
            Seq::empty()
        } else {
            handlers::eval(
                "lsp-bridge-completion-item--update"@,
                seq![
                    Jv::Str(
                        documentation_text(
                            handlers::member_or_null(response, "documentation"@),
                        ),
                    ),
                    additional_edits(response),
                    Jv::Str(ctx.server_name),
                ],
            )
        }
    }

    fn name(&self) -> (r: &'static str) {
        "completion_item_resolve"
    }

    fn method(&self) -> (r: &'static str) {
        "completionItem/resolve"
    }

    fn cancel_on_change(&self) -> (r: bool) {
        false
    }

    fn send_document_uri(&self) -> (r: bool) {
        false
    }

    /// Args: [item_key, server_name, item]; the item goes to the server as it is.
    fn process_request(&self, ctx: &RequestContext) -> (r: Result<Json, HandlerError>) {
        if ctx.args.len() > 2 {
            assert(json::models(ctx.args@)[2] == ctx.args@[2]@);
            Ok(ctx.args[2].clone())
        } else {
            Err(HandlerError::MissingCompletionItem)
        }
    }

    fn process_response(&self, ctx: &ResponseContext, response: Json) -> (r: Vec<EmacsCall>) {
        if response.is_null() {
            return handlers::no_calls();
        }
        let documentation = handlers::get_or_null(&response, "documentation");
        let doc = documentation_string(&documentation);
        let edits = get_edits(&response);
        handlers::call_eval(
            "lsp-bridge-completion-item--update",
            handlers::args3(Json::String(doc), edits, Json::str(ctx.server_name.as_str())),
        )
    }
}

} // verus!
