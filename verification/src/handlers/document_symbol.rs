//! Document symbols: textDocument/documentSymbol.

use crate::handlers;
use crate::handlers::{
    Call, EmacsCall, Handler, HandlerError, Request, RequestContext, Response, ResponseContext,
};
use crate::json;
use crate::json::{Json, Jv};
use vstd::prelude::*;

verus! {

/// Lists the symbols of a document.
pub struct DocumentSymbol;

impl Handler for DocumentSymbol {
    open spec fn name_text(&self) -> Seq<char> {
        "document_symbol"@
    }

    open spec fn method_text(&self) -> Seq<char> {
        "textDocument/documentSymbol"@
    }

    open spec fn cancels(&self) -> bool {
        false
    }

    open spec fn sends_uri(&self) -> bool {
        true
    }

    open spec fn request(&self, ctx: Request) -> Result<Jv, HandlerError> {
        Ok(handlers::obj(seq![]))
    }

    open spec fn response(&self, ctx: Response, response: Jv) -> Seq<Call> {
        if response is Null {
            Seq::empty()
        } else {
            handlers::eval(
                "lsp-bridge-document-symbol--render"@,
                seq![Jv::Str(ctx.filepath), Jv::Str(ctx.host), response],
            )
        }
    }

    fn name(&self) -> (r: &'static str) {
        "document_symbol"
    }

    fn method(&self) -> (r: &'static str) {
        "textDocument/documentSymbol"
    }

    fn cancel_on_change(&self) -> (r: bool) {
        false
    }

    fn send_document_uri(&self) -> (r: bool) {
        true
    }

    fn process_request(&self, _ctx: &RequestContext) -> (r: Result<Json, HandlerError>) {
        Ok(handlers::object0())
    }

    fn process_response(&self, ctx: &ResponseContext, response: Json) -> (r: Vec<EmacsCall>) {
        if response.is_null() {
            return handlers::no_calls();
        }
        handlers::call_eval(
            "lsp-bridge-document-symbol--render",
            handlers::args3(Json::str(ctx.filepath.as_str()), Json::str(ctx.host.as_str()), response),
        )
    }
}

/// Lists the symbols of a document for the index menu.
pub struct IMenu;

impl Handler for IMenu {
    open spec fn name_text(&self) -> Seq<char> {
        "imenu"@
    }

    open spec fn method_text(&self) -> Seq<char> {
        "textDocument/documentSymbol"@
    }

    open spec fn cancels(&self) -> bool {
        false
    }

    open spec fn sends_uri(&self) -> bool {
        true
    }

    open spec fn request(&self, ctx: Request) -> Result<Jv, HandlerError> {
        Ok(handlers::obj(seq![]))
    }

    open spec fn response(&self, ctx: Response, response: Jv) -> Seq<Call> {
        if response is Null {
            Seq::empty()
        } else {
            handlers::eval("lsp-bridge-imenu--render"@, seq![response])
        }
    }

    fn name(&self) -> (r: &'static str) {
        "imenu"
    }

    fn method(&self) -> (r: &'static str) {
        "textDocument/documentSymbol"
    }

    fn cancel_on_change(&self) -> (r: bool) {
        false
    }

    fn send_document_uri(&self) -> (r: bool) {
        true
    }

    fn process_request(&self, _ctx: &RequestContext) -> (r: Result<Json, HandlerError>) {
        Ok(handlers::object0())
    }

    fn process_response(&self, _ctx: &ResponseContext, response: Json) -> (r: Vec<EmacsCall>) {
        if response.is_null() {
            return handlers::no_calls();
        }
        handlers::call_eval("lsp-bridge-imenu--render", handlers::args1(response))
    }
}

/// Lists the symbols of a document for the breadcrumb; symbols without a range are of no use.
pub struct Breadcrumb;

impl Handler for Breadcrumb {
    open spec fn name_text(&self) -> Seq<char> {
        "breadcrumb"@
    }

    open spec fn method_text(&self) -> Seq<char> {
        "textDocument/documentSymbol"@
    }

    open spec fn cancels(&self) -> bool {
        false
    }

    open spec fn sends_uri(&self) -> bool {
        true
    }

    open spec fn request(&self, ctx: Request) -> Result<Jv, HandlerError> {
        Ok(handlers::obj(seq![]))
    }

    open spec fn response(&self, ctx: Response, response: Jv) -> Seq<Call> {
        if response is Null || (response is Array && (response->Array_0.len() == 0
            || json::member(response->Array_0[0], "range"@) is None)) {
            Seq::empty()
        } else {
            handlers::eval(
                "lsp-bridge-breadcrumb--callback"@,
                seq![Jv::Str(ctx.filepath), Jv::Str(ctx.host), response],
            )
        }
    }

    fn name(&self) -> (r: &'static str) {
        "breadcrumb"
    }

    fn method(&self) -> (r: &'static str) {
        "textDocument/documentSymbol"
    }

    fn cancel_on_change(&self) -> (r: bool) {
        false
    }

    fn send_document_uri(&self) -> (r: bool) {
        true
    }

    fn process_request(&self, _ctx: &RequestContext) -> (r: Result<Json, HandlerError>) {
        Ok(handlers::object0())
    }

    fn process_response(&self, ctx: &ResponseContext, response: Json) -> (r: Vec<EmacsCall>) {
        if response.is_null() {
            return handlers::no_calls();
        }
        match response.as_array() {
            Some(items) => {
                if items.len() == 0 {
                    return handlers::no_calls();
                }
                assert(json::models(items@)[0] == items@[0]@);
                if items[0].get("range").is_none() {
                    return handlers::no_calls();
                }
            },
            None => {},
        }
        handlers::call_eval(
            "lsp-bridge-breadcrumb--callback",
            handlers::args3(Json::str(ctx.filepath.as_str()), Json::str(ctx.host.as_str()), response),
        )
    }
}

} // verus!
