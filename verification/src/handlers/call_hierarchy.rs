//! Call hierarchy: textDocument/prepareCallHierarchy, callHierarchy/incomingCalls,
//! callHierarchy/outgoingCalls.

use crate::handlers;
use crate::handlers::{
    Call, EmacsCall, Handler, HandlerError, Request, RequestContext, Response, ResponseContext,
};
use crate::json;
use crate::json::{Json, Jv};
use vstd::prelude::*;

verus! {

/// The first item found goes to Emacs.
pub open spec fn prepared(response: Jv, callback: Seq<char>) -> Seq<Call> {
    match response {
        Jv::Null => handlers::message("No call hierarchies found"@),
        Jv::Array(items) => if items.len() > 0 {
            handlers::eval(callback, seq![items[0]])
        } else {
            Seq::empty()
        },
        _ => Seq::empty(),
    }
}

fn prepare_response(response: Json, callback: &str) -> (r: Vec<EmacsCall>)
    ensures
        handlers::calls(r@) == prepared(response@, callback@),
{
    if response.is_null() {
        return handlers::call_message("No call hierarchies found");
    }
    match response.as_array() {
        Some(items) => if items.len() > 0 {
            assert(json::models(items@)[0] == items@[0]@);
            handlers::call_eval(callback, handlers::args1(items[0].clone()))
        } else {
            handlers::no_calls()
        },
        None => handlers::no_calls(),
    }
}

/// Asks for the item whose callers are wanted.
pub struct PrepareCallHierarchyIncoming;

impl Handler for PrepareCallHierarchyIncoming {
    open spec fn name_text(&self) -> Seq<char> {
        "prepare_call_hierarchy_incoming"@
    }

    open spec fn method_text(&self) -> Seq<char> {
        "textDocument/prepareCallHierarchy"@
    }

    open spec fn cancels(&self) -> bool {
        false
    }

    open spec fn sends_uri(&self) -> bool {
        true
    }

    open spec fn request(&self, ctx: Request) -> Result<Jv, HandlerError> {
        Ok(handlers::at_position(ctx.args))
    }

    open spec fn response(&self, ctx: Response, response: Jv) -> Seq<Call> {
        prepared(response, "lsp-bridge-call-hierarchy--incoming"@)
    }

    fn name(&self) -> (r: &'static str) {
        "prepare_call_hierarchy_incoming"
    }

    fn method(&self) -> (r: &'static str) {
        "textDocument/prepareCallHierarchy"
    }

    fn cancel_on_change(&self) -> (r: bool) {
        false
    }

    fn send_document_uri(&self) -> (r: bool) {
        true
    }

    /// Args: [position]
    fn process_request(&self, ctx: &RequestContext) -> (r: Result<Json, HandlerError>) {
        Ok(handlers::position_params(&ctx.args))
    }

    fn process_response(&self, _ctx: &ResponseContext, response: Json) -> (r: Vec<EmacsCall>) {
        prepare_response(response, "lsp-bridge-call-hierarchy--incoming")
    }
}

/// Asks for the item whose callees are wanted.
pub struct PrepareCallHierarchyOutgoing;

impl Handler for PrepareCallHierarchyOutgoing {
    open spec fn name_text(&self) -> Seq<char> {
        "prepare_call_hierarchy_outgoing"@
    }

    open spec fn method_text(&self) -> Seq<char> {
        "textDocument/prepareCallHierarchy"@
    }

    open spec fn cancels(&self) -> bool {
        false
    }

    open spec fn sends_uri(&self) -> bool {
        true
    }

    open spec fn request(&self, ctx: Request) -> Result<Jv, HandlerError> {
        Ok(handlers::at_position(ctx.args))
    }

    open spec fn response(&self, ctx: Response, response: Jv) -> Seq<Call> {
        prepared(response, "lsp-bridge-call-hierarchy--outgoing"@)
    }

    fn name(&self) -> (r: &'static str) {
        "prepare_call_hierarchy_outgoing"
    }

    fn method(&self) -> (r: &'static str) {
        "textDocument/prepareCallHierarchy"
    }

    fn cancel_on_change(&self) -> (r: bool) {
        false
    }

    fn send_document_uri(&self) -> (r: bool) {
        true
    }

    /// Args: [position]
    fn process_request(&self, ctx: &RequestContext) -> (r: Result<Json, HandlerError>) {
        Ok(handlers::position_params(&ctx.args))
    }

    fn process_response(&self, _ctx: &ResponseContext, response: Json) -> (r: Vec<EmacsCall>) {
        prepare_response(response, "lsp-bridge-call-hierarchy--outgoing")
    }
}

/// Lists the callers of an item.
pub struct CallHierarchyIncoming;

impl Handler for CallHierarchyIncoming {
    open spec fn name_text(&self) -> Seq<char> {
        "call_hierarchy_incoming"@
    }

    open spec fn method_text(&self) -> Seq<char> {
        "callHierarchy/incomingCalls"@
    }

    open spec fn cancels(&self) -> bool {
        false
    }

    open spec fn sends_uri(&self) -> bool {
        false
    }

    open spec fn request(&self, ctx: Request) -> Result<Jv, HandlerError> {
        Ok(handlers::obj(seq![("item"@, handlers::arg_or(ctx.args, 0, Jv::Null))]))
    }

    open spec fn response(&self, ctx: Response, response: Jv) -> Seq<Call> {
        if response is Null {
            Seq::empty()
        } else {
            handlers::eval("lsp-bridge-call-hierarchy--render"@, seq![Jv::Str("incoming"@), response])
        }
    }

    fn name(&self) -> (r: &'static str) {
        "call_hierarchy_incoming"
    }

    fn method(&self) -> (r: &'static str) {
        "callHierarchy/incomingCalls"
    }

    fn cancel_on_change(&self) -> (r: bool) {
        false
    }

    fn send_document_uri(&self) -> (r: bool) {
        false
    }

    /// Args: [item]
    fn process_request(&self, ctx: &RequestContext) -> (r: Result<Json, HandlerError>) {
        Ok(handlers::object1("item", handlers::arg(&ctx.args, 0)))
    }

    fn process_response(&self, _ctx: &ResponseContext, response: Json) -> (r: Vec<EmacsCall>) {
        if response.is_null() {
            return handlers::no_calls();
        }
        handlers::call_eval(
            "lsp-bridge-call-hierarchy--render",
            handlers::args2(Json::str("incoming"), response),
        )
    }
}

/// Lists the callees of an item.
pub struct CallHierarchyOutgoing;

impl Handler for CallHierarchyOutgoing {
    open spec fn name_text(&self) -> Seq<char> {
        "call_hierarchy_outgoing"@
    }

    open spec fn method_text(&self) -> Seq<char> {
        "callHierarchy/outgoingCalls"@
    }

    open spec fn cancels(&self) -> bool {
        false
    }

    open spec fn sends_uri(&self) -> bool {
        false
    }

    open spec fn request(&self, ctx: Request) -> Result<Jv, HandlerError> {
        Ok(handlers::obj(seq![("item"@, handlers::arg_or(ctx.args, 0, Jv::Null))]))
    }

    open spec fn response(&self, ctx: Response, response: Jv) -> Seq<Call> {
        if response is Null {
            Seq::empty()
        } else {
            handlers::eval("lsp-bridge-call-hierarchy--render"@, seq![Jv::Str("outgoing"@), response])
        }
    }

    fn name(&self) -> (r: &'static str) {
        "call_hierarchy_outgoing"
    }

    fn method(&self) -> (r: &'static str) {
        "callHierarchy/outgoingCalls"
    }

    fn cancel_on_change(&self) -> (r: bool) {
        false
    }

    fn send_document_uri(&self) -> (r: bool) {
        false
    }

    /// Args: [item]
    fn process_request(&self, ctx: &RequestContext) -> (r: Result<Json, HandlerError>) {
        Ok(handlers::object1("item", handlers::arg(&ctx.args, 0)))
    }

    fn process_response(&self, _ctx: &ResponseContext, response: Json) -> (r: Vec<EmacsCall>) {
        if response.is_null() {
            return handlers::no_calls();
        }
        handlers::call_eval(
            "lsp-bridge-call-hierarchy--render",
            handlers::args2(Json::str("outgoing"), response),
        )
    }
}

} // verus!
