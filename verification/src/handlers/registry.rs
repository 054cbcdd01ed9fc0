//! The built-in handlers, and how Emacs finds them by name.

use crate::handlers::call_hierarchy::{CallHierarchyIncoming, CallHierarchyOutgoing, PrepareCallHierarchyIncoming, PrepareCallHierarchyOutgoing};
use crate::handlers::code_action::CodeAction;
use crate::handlers::completion::Completion;
use crate::handlers::completion_item::CompletionItem;
use crate::handlers::diagnostic::Diagnostic;
use crate::handlers::document_highlight::DocumentHighlight;
use crate::handlers::document_symbol::{Breadcrumb, DocumentSymbol, IMenu};
use crate::handlers::execute_command::ExecuteCommand;
use crate::handlers::find_define::{FindDefine, FindImplementation, FindReferences, FindTypeDefine};
use crate::handlers::formatting::{Formatting, RangeFormatting};
use crate::handlers::hover::Hover;
use crate::handlers::inlay_hint::InlayHint;
use crate::handlers::rename::{PrepareRename, Rename};
use crate::handlers::semantic_tokens::SemanticTokens;
use crate::handlers::signature_help::SignatureHelp;
use crate::handlers::workspace_symbol::WorkspaceSymbol;
use crate::handlers::{
    Call, EmacsCall, Handler, HandlerError, Request, RequestContext, Response, ResponseContext,
};
use crate::json::{Json, Jv};
use crate::text;
use vstd::prelude::*;

verus! {

/// One of the built-in handlers.
#[derive(Debug, Clone, Copy, PartialEq, Eq)]
pub enum BuiltinHandler {
    Completion,
    CompletionItem,
    Hover,
    FindDefine,
    FindTypeDefine,
    FindImplementation,
    FindReferences,
    CodeAction,
    Formatting,
    RangeFormatting,
    PrepareRename,
    Rename,
    SignatureHelp,
    InlayHint,
    SemanticTokens,
    Diagnostic,
    DocumentSymbol,
    IMenu,
    Breadcrumb,
    DocumentHighlight,
    ExecuteCommand,
    WorkspaceSymbol,
    PrepareCallHierarchyIncoming,
    PrepareCallHierarchyOutgoing,
    CallHierarchyIncoming,
    CallHierarchyOutgoing,
}

impl Handler for BuiltinHandler {
    open spec fn name_text(&self) -> Seq<char> {
        match *self {
            BuiltinHandler::Completion => Completion.name_text(),
            BuiltinHandler::CompletionItem => CompletionItem.name_text(),
            BuiltinHandler::Hover => Hover.name_text(),
            BuiltinHandler::FindDefine => FindDefine.name_text(),
            BuiltinHandler::FindTypeDefine => FindTypeDefine.name_text(),
            BuiltinHandler::FindImplementation => FindImplementation.name_text(),
            BuiltinHandler::FindReferences => FindReferences.name_text(),
            BuiltinHandler::CodeAction => CodeAction.name_text(),
            BuiltinHandler::Formatting => Formatting.name_text(),
            BuiltinHandler::RangeFormatting => RangeFormatting.name_text(),
            BuiltinHandler::PrepareRename => PrepareRename.name_text(),
            BuiltinHandler::Rename => Rename.name_text(),
            BuiltinHandler::SignatureHelp => SignatureHelp.name_text(),
            BuiltinHandler::InlayHint => InlayHint.name_text(),
            BuiltinHandler::SemanticTokens => SemanticTokens.name_text(),
            BuiltinHandler::Diagnostic => Diagnostic.name_text(),
            BuiltinHandler::DocumentSymbol => DocumentSymbol.name_text(),
            BuiltinHandler::IMenu => IMenu.name_text(),
            BuiltinHandler::Breadcrumb => Breadcrumb.name_text(),
            BuiltinHandler::DocumentHighlight => DocumentHighlight.name_text(),
            BuiltinHandler::ExecuteCommand => ExecuteCommand.name_text(),
            BuiltinHandler::WorkspaceSymbol => WorkspaceSymbol.name_text(),
            BuiltinHandler::PrepareCallHierarchyIncoming => PrepareCallHierarchyIncoming.name_text(),
            BuiltinHandler::PrepareCallHierarchyOutgoing => PrepareCallHierarchyOutgoing.name_text(),
            BuiltinHandler::CallHierarchyIncoming => CallHierarchyIncoming.name_text(),
            BuiltinHandler::CallHierarchyOutgoing => CallHierarchyOutgoing.name_text(),
        }
    }

    open spec fn method_text(&self) -> Seq<char> {
        match *self {
            BuiltinHandler::Completion => Completion.method_text(),
            BuiltinHandler::CompletionItem => CompletionItem.method_text(),
            BuiltinHandler::Hover => Hover.method_text(),
            BuiltinHandler::FindDefine => FindDefine.method_text(),
            BuiltinHandler::FindTypeDefine => FindTypeDefine.method_text(),
            BuiltinHandler::FindImplementation => FindImplementation.method_text(),
            BuiltinHandler::FindReferences => FindReferences.method_text(),
            BuiltinHandler::CodeAction => CodeAction.method_text(),
            BuiltinHandler::Formatting => Formatting.method_text(),
            BuiltinHandler::RangeFormatting => RangeFormatting.method_text(),
            BuiltinHandler::PrepareRename => PrepareRename.method_text(),
            BuiltinHandler::Rename => Rename.method_text(),
            BuiltinHandler::SignatureHelp => SignatureHelp.method_text(),
            BuiltinHandler::InlayHint => InlayHint.method_text(),
            BuiltinHandler::SemanticTokens => SemanticTokens.method_text(),
            BuiltinHandler::Diagnostic => Diagnostic.method_text(),
            BuiltinHandler::DocumentSymbol => DocumentSymbol.method_text(),
            BuiltinHandler::IMenu => IMenu.method_text(),
            BuiltinHandler::Breadcrumb => Breadcrumb.method_text(),
            BuiltinHandler::DocumentHighlight => DocumentHighlight.method_text(),
            BuiltinHandler::ExecuteCommand => ExecuteCommand.method_text(),
            BuiltinHandler::WorkspaceSymbol => WorkspaceSymbol.method_text(),
            BuiltinHandler::PrepareCallHierarchyIncoming => PrepareCallHierarchyIncoming.method_text(),
            BuiltinHandler::PrepareCallHierarchyOutgoing => PrepareCallHierarchyOutgoing.method_text(),
            BuiltinHandler::CallHierarchyIncoming => CallHierarchyIncoming.method_text(),
            BuiltinHandler::CallHierarchyOutgoing => CallHierarchyOutgoing.method_text(),
        }
    }

    open spec fn cancels(&self) -> bool {
        match *self {
            BuiltinHandler::Completion => Completion.cancels(),
            BuiltinHandler::CompletionItem => CompletionItem.cancels(),
            BuiltinHandler::Hover => Hover.cancels(),
            BuiltinHandler::FindDefine => FindDefine.cancels(),
            BuiltinHandler::FindTypeDefine => FindTypeDefine.cancels(),
            BuiltinHandler::FindImplementation => FindImplementation.cancels(),
            BuiltinHandler::FindReferences => FindReferences.cancels(),
            BuiltinHandler::CodeAction => CodeAction.cancels(),
            BuiltinHandler::Formatting => Formatting.cancels(),
            BuiltinHandler::RangeFormatting => RangeFormatting.cancels(),
            BuiltinHandler::PrepareRename => PrepareRename.cancels(),
            BuiltinHandler::Rename => Rename.cancels(),
            BuiltinHandler::SignatureHelp => SignatureHelp.cancels(),
            BuiltinHandler::InlayHint => InlayHint.cancels(),
            BuiltinHandler::SemanticTokens => SemanticTokens.cancels(),
            BuiltinHandler::Diagnostic => Diagnostic.cancels(),
            BuiltinHandler::DocumentSymbol => DocumentSymbol.cancels(),
            BuiltinHandler::IMenu => IMenu.cancels(),
            BuiltinHandler::Breadcrumb => Breadcrumb.cancels(),
            BuiltinHandler::DocumentHighlight => DocumentHighlight.cancels(),
            BuiltinHandler::ExecuteCommand => ExecuteCommand.cancels(),
            BuiltinHandler::WorkspaceSymbol => WorkspaceSymbol.cancels(),
            BuiltinHandler::PrepareCallHierarchyIncoming => PrepareCallHierarchyIncoming.cancels(),
            BuiltinHandler::PrepareCallHierarchyOutgoing => PrepareCallHierarchyOutgoing.cancels(),
            BuiltinHandler::CallHierarchyIncoming => CallHierarchyIncoming.cancels(),
            BuiltinHandler::CallHierarchyOutgoing => CallHierarchyOutgoing.cancels(),
        }
    }

    open spec fn sends_uri(&self) -> bool {
        match *self {
            BuiltinHandler::Completion => Completion.sends_uri(),
            BuiltinHandler::CompletionItem => CompletionItem.sends_uri(),
            BuiltinHandler::Hover => Hover.sends_uri(),
            BuiltinHandler::FindDefine => FindDefine.sends_uri(),
            BuiltinHandler::FindTypeDefine => FindTypeDefine.sends_uri(),
            BuiltinHandler::FindImplementation => FindImplementation.sends_uri(),
            BuiltinHandler::FindReferences => FindReferences.sends_uri(),
            BuiltinHandler::CodeAction => CodeAction.sends_uri(),
            BuiltinHandler::Formatting => Formatting.sends_uri(),
            BuiltinHandler::RangeFormatting => RangeFormatting.sends_uri(),
            BuiltinHandler::PrepareRename => PrepareRename.sends_uri(),
            BuiltinHandler::Rename => Rename.sends_uri(),
            BuiltinHandler::SignatureHelp => SignatureHelp.sends_uri(),
            BuiltinHandler::InlayHint => InlayHint.sends_uri(),
            BuiltinHandler::SemanticTokens => SemanticTokens.sends_uri(),
            BuiltinHandler::Diagnostic => Diagnostic.sends_uri(),
            BuiltinHandler::DocumentSymbol => DocumentSymbol.sends_uri(),
            BuiltinHandler::IMenu => IMenu.sends_uri(),
            BuiltinHandler::Breadcrumb => Breadcrumb.sends_uri(),
            BuiltinHandler::DocumentHighlight => DocumentHighlight.sends_uri(),
            BuiltinHandler::ExecuteCommand => ExecuteCommand.sends_uri(),
            BuiltinHandler::WorkspaceSymbol => WorkspaceSymbol.sends_uri(),
            BuiltinHandler::PrepareCallHierarchyIncoming => PrepareCallHierarchyIncoming.sends_uri(),
            BuiltinHandler::PrepareCallHierarchyOutgoing => PrepareCallHierarchyOutgoing.sends_uri(),
            BuiltinHandler::CallHierarchyIncoming => CallHierarchyIncoming.sends_uri(),
            BuiltinHandler::CallHierarchyOutgoing => CallHierarchyOutgoing.sends_uri(),
        }
    }

    open spec fn request(&self, ctx: Request) -> Result<Jv, HandlerError> {
        match *self {
            BuiltinHandler::Completion => Completion.request(ctx),
            BuiltinHandler::CompletionItem => CompletionItem.request(ctx),
            BuiltinHandler::Hover => Hover.request(ctx),
            BuiltinHandler::FindDefine => FindDefine.request(ctx),
            BuiltinHandler::FindTypeDefine => FindTypeDefine.request(ctx),
            BuiltinHandler::FindImplementation => FindImplementation.request(ctx),
            BuiltinHandler::FindReferences => FindReferences.request(ctx),
            BuiltinHandler::CodeAction => CodeAction.request(ctx),
            BuiltinHandler::Formatting => Formatting.request(ctx),
            BuiltinHandler::RangeFormatting => RangeFormatting.request(ctx),
            BuiltinHandler::PrepareRename => PrepareRename.request(ctx),
            BuiltinHandler::Rename => Rename.request(ctx),
            BuiltinHandler::SignatureHelp => SignatureHelp.request(ctx),
            BuiltinHandler::InlayHint => InlayHint.request(ctx),
            BuiltinHandler::SemanticTokens => SemanticTokens.request(ctx),
            BuiltinHandler::Diagnostic => Diagnostic.request(ctx),
            BuiltinHandler::DocumentSymbol => DocumentSymbol.request(ctx),
            BuiltinHandler::IMenu => IMenu.request(ctx),
            BuiltinHandler::Breadcrumb => Breadcrumb.request(ctx),
            BuiltinHandler::DocumentHighlight => DocumentHighlight.request(ctx),
            BuiltinHandler::ExecuteCommand => ExecuteCommand.request(ctx),
            BuiltinHandler::WorkspaceSymbol => WorkspaceSymbol.request(ctx),
            BuiltinHandler::PrepareCallHierarchyIncoming => PrepareCallHierarchyIncoming.request(ctx),
            BuiltinHandler::PrepareCallHierarchyOutgoing => PrepareCallHierarchyOutgoing.request(ctx),
            BuiltinHandler::CallHierarchyIncoming => CallHierarchyIncoming.request(ctx),
            BuiltinHandler::CallHierarchyOutgoing => CallHierarchyOutgoing.request(ctx),
        }
    }

    open spec fn response(&self, ctx: Response, response: Jv) -> Seq<Call> {
        match *self {
            BuiltinHandler::Completion => Completion.response(ctx, response),
            BuiltinHandler::CompletionItem => CompletionItem.response(ctx, response),
            BuiltinHandler::Hover => Hover.response(ctx, response),
            BuiltinHandler::FindDefine => FindDefine.response(ctx, response),
            BuiltinHandler::FindTypeDefine => FindTypeDefine.response(ctx, response),
            BuiltinHandler::FindImplementation => FindImplementation.response(ctx, response),
            BuiltinHandler::FindReferences => FindReferences.response(ctx, response),
            BuiltinHandler::CodeAction => CodeAction.response(ctx, response),
            BuiltinHandler::Formatting => Formatting.response(ctx, response),
            BuiltinHandler::RangeFormatting => RangeFormatting.response(ctx, response),
            BuiltinHandler::PrepareRename => PrepareRename.response(ctx, response),
            BuiltinHandler::Rename => Rename.response(ctx, response),
            BuiltinHandler::SignatureHelp => SignatureHelp.response(ctx, response),
            BuiltinHandler::InlayHint => InlayHint.response(ctx, response),
            BuiltinHandler::SemanticTokens => SemanticTokens.response(ctx, response),
            BuiltinHandler::Diagnostic => Diagnostic.response(ctx, response),
            BuiltinHandler::DocumentSymbol => DocumentSymbol.response(ctx, response),
            BuiltinHandler::IMenu => IMenu.response(ctx, response),
            BuiltinHandler::Breadcrumb => Breadcrumb.response(ctx, response),
            BuiltinHandler::DocumentHighlight => DocumentHighlight.response(ctx, response),
            BuiltinHandler::ExecuteCommand => ExecuteCommand.response(ctx, response),
            BuiltinHandler::WorkspaceSymbol => WorkspaceSymbol.response(ctx, response),
            BuiltinHandler::PrepareCallHierarchyIncoming => PrepareCallHierarchyIncoming.response(ctx, response),
            BuiltinHandler::PrepareCallHierarchyOutgoing => PrepareCallHierarchyOutgoing.response(ctx, response),
            BuiltinHandler::CallHierarchyIncoming => CallHierarchyIncoming.response(ctx, response),
            BuiltinHandler::CallHierarchyOutgoing => CallHierarchyOutgoing.response(ctx, response),
        }
    }

    fn name(&self) -> (r: &'static str) {
        match *self {
            BuiltinHandler::Completion => Completion.name(),
            BuiltinHandler::CompletionItem => CompletionItem.name(),
            BuiltinHandler::Hover => Hover.name(),
            BuiltinHandler::FindDefine => FindDefine.name(),
            BuiltinHandler::FindTypeDefine => FindTypeDefine.name(),
            BuiltinHandler::FindImplementation => FindImplementation.name(),
            BuiltinHandler::FindReferences => FindReferences.name(),
            BuiltinHandler::CodeAction => CodeAction.name(),
            BuiltinHandler::Formatting => Formatting.name(),
            BuiltinHandler::RangeFormatting => RangeFormatting.name(),
            BuiltinHandler::PrepareRename => PrepareRename.name(),
            BuiltinHandler::Rename => Rename.name(),
            BuiltinHandler::SignatureHelp => SignatureHelp.name(),
            BuiltinHandler::InlayHint => InlayHint.name(),
            BuiltinHandler::SemanticTokens => SemanticTokens.name(),
            BuiltinHandler::Diagnostic => Diagnostic.name(),
            BuiltinHandler::DocumentSymbol => DocumentSymbol.name(),
            BuiltinHandler::IMenu => IMenu.name(),
            BuiltinHandler::Breadcrumb => Breadcrumb.name(),
            BuiltinHandler::DocumentHighlight => DocumentHighlight.name(),
            BuiltinHandler::ExecuteCommand => ExecuteCommand.name(),
            BuiltinHandler::WorkspaceSymbol => WorkspaceSymbol.name(),
            BuiltinHandler::PrepareCallHierarchyIncoming => PrepareCallHierarchyIncoming.name(),
            BuiltinHandler::PrepareCallHierarchyOutgoing => PrepareCallHierarchyOutgoing.name(),
            BuiltinHandler::CallHierarchyIncoming => CallHierarchyIncoming.name(),
            BuiltinHandler::CallHierarchyOutgoing => CallHierarchyOutgoing.name(),
        }
    }

    fn method(&self) -> (r: &'static str) {
        match *self {
            BuiltinHandler::Completion => Completion.method(),
            BuiltinHandler::CompletionItem => CompletionItem.method(),
            BuiltinHandler::Hover => Hover.method(),
            BuiltinHandler::FindDefine => FindDefine.method(),
            BuiltinHandler::FindTypeDefine => FindTypeDefine.method(),
            BuiltinHandler::FindImplementation => FindImplementation.method(),
            BuiltinHandler::FindReferences => FindReferences.method(),
            BuiltinHandler::CodeAction => CodeAction.method(),
            BuiltinHandler::Formatting => Formatting.method(),
            BuiltinHandler::RangeFormatting => RangeFormatting.method(),
            BuiltinHandler::PrepareRename => PrepareRename.method(),
            BuiltinHandler::Rename => Rename.method(),
            BuiltinHandler::SignatureHelp => SignatureHelp.method(),
            BuiltinHandler::InlayHint => InlayHint.method(),
            BuiltinHandler::SemanticTokens => SemanticTokens.method(),
            BuiltinHandler::Diagnostic => Diagnostic.method(),
            BuiltinHandler::DocumentSymbol => DocumentSymbol.method(),
            BuiltinHandler::IMenu => IMenu.method(),
            BuiltinHandler::Breadcrumb => Breadcrumb.method(),
            BuiltinHandler::DocumentHighlight => DocumentHighlight.method(),
            BuiltinHandler::ExecuteCommand => ExecuteCommand.method(),
            BuiltinHandler::WorkspaceSymbol => WorkspaceSymbol.method(),
            BuiltinHandler::PrepareCallHierarchyIncoming => PrepareCallHierarchyIncoming.method(),
            BuiltinHandler::PrepareCallHierarchyOutgoing => PrepareCallHierarchyOutgoing.method(),
            BuiltinHandler::CallHierarchyIncoming => CallHierarchyIncoming.method(),
            BuiltinHandler::CallHierarchyOutgoing => CallHierarchyOutgoing.method(),
        }
    }

    fn cancel_on_change(&self) -> (r: bool) {
        match *self {
            BuiltinHandler::Completion => Completion.cancel_on_change(),
            BuiltinHandler::CompletionItem => CompletionItem.cancel_on_change(),
            BuiltinHandler::Hover => Hover.cancel_on_change(),
            BuiltinHandler::FindDefine => FindDefine.cancel_on_change(),
            BuiltinHandler::FindTypeDefine => FindTypeDefine.cancel_on_change(),
            BuiltinHandler::FindImplementation => FindImplementation.cancel_on_change(),
            BuiltinHandler::FindReferences => FindReferences.cancel_on_change(),
            BuiltinHandler::CodeAction => CodeAction.cancel_on_change(),
            BuiltinHandler::Formatting => Formatting.cancel_on_change(),
            BuiltinHandler::RangeFormatting => RangeFormatting.cancel_on_change(),
            BuiltinHandler::PrepareRename => PrepareRename.cancel_on_change(),
            BuiltinHandler::Rename => Rename.cancel_on_change(),
            BuiltinHandler::SignatureHelp => SignatureHelp.cancel_on_change(),
            BuiltinHandler::InlayHint => InlayHint.cancel_on_change(),
            BuiltinHandler::SemanticTokens => SemanticTokens.cancel_on_change(),
            BuiltinHandler::Diagnostic => Diagnostic.cancel_on_change(),
            BuiltinHandler::DocumentSymbol => DocumentSymbol.cancel_on_change(),
            BuiltinHandler::IMenu => IMenu.cancel_on_change(),
            BuiltinHandler::Breadcrumb => Breadcrumb.cancel_on_change(),
            BuiltinHandler::DocumentHighlight => DocumentHighlight.cancel_on_change(),
            BuiltinHandler::ExecuteCommand => ExecuteCommand.cancel_on_change(),
            BuiltinHandler::WorkspaceSymbol => WorkspaceSymbol.cancel_on_change(),
            BuiltinHandler::PrepareCallHierarchyIncoming => PrepareCallHierarchyIncoming.cancel_on_change(),
            BuiltinHandler::PrepareCallHierarchyOutgoing => PrepareCallHierarchyOutgoing.cancel_on_change(),
            BuiltinHandler::CallHierarchyIncoming => CallHierarchyIncoming.cancel_on_change(),
            BuiltinHandler::CallHierarchyOutgoing => CallHierarchyOutgoing.cancel_on_change(),
        }
    }

    fn send_document_uri(&self) -> (r: bool) {
        match *self {
            BuiltinHandler::Completion => Completion.send_document_uri(),
            BuiltinHandler::CompletionItem => CompletionItem.send_document_uri(),
            BuiltinHandler::Hover => Hover.send_document_uri(),
            BuiltinHandler::FindDefine => FindDefine.send_document_uri(),
            BuiltinHandler::FindTypeDefine => FindTypeDefine.send_document_uri(),
            BuiltinHandler::FindImplementation => FindImplementation.send_document_uri(),
            BuiltinHandler::FindReferences => FindReferences.send_document_uri(),
            BuiltinHandler::CodeAction => CodeAction.send_document_uri(),
            BuiltinHandler::Formatting => Formatting.send_document_uri(),
            BuiltinHandler::RangeFormatting => RangeFormatting.send_document_uri(),
            BuiltinHandler::PrepareRename => PrepareRename.send_document_uri(),
            BuiltinHandler::Rename => Rename.send_document_uri(),
            BuiltinHandler::SignatureHelp => SignatureHelp.send_document_uri(),
            BuiltinHandler::InlayHint => InlayHint.send_document_uri(),
            BuiltinHandler::SemanticTokens => SemanticTokens.send_document_uri(),
            BuiltinHandler::Diagnostic => Diagnostic.send_document_uri(),
            BuiltinHandler::DocumentSymbol => DocumentSymbol.send_document_uri(),
            BuiltinHandler::IMenu => IMenu.send_document_uri(),
            BuiltinHandler::Breadcrumb => Breadcrumb.send_document_uri(),
            BuiltinHandler::DocumentHighlight => DocumentHighlight.send_document_uri(),
            BuiltinHandler::ExecuteCommand => ExecuteCommand.send_document_uri(),
            BuiltinHandler::WorkspaceSymbol => WorkspaceSymbol.send_document_uri(),
            BuiltinHandler::PrepareCallHierarchyIncoming => PrepareCallHierarchyIncoming.send_document_uri(),
            BuiltinHandler::PrepareCallHierarchyOutgoing => PrepareCallHierarchyOutgoing.send_document_uri(),
            BuiltinHandler::CallHierarchyIncoming => CallHierarchyIncoming.send_document_uri(),
            BuiltinHandler::CallHierarchyOutgoing => CallHierarchyOutgoing.send_document_uri(),
        }
    }

    fn process_request(&self, ctx: &RequestContext) -> (r: Result<Json, HandlerError>) {
        match *self {
            BuiltinHandler::Completion => Completion.process_request(ctx),
            BuiltinHandler::CompletionItem => CompletionItem.process_request(ctx),
            BuiltinHandler::Hover => Hover.process_request(ctx),
            BuiltinHandler::FindDefine => FindDefine.process_request(ctx),
            BuiltinHandler::FindTypeDefine => FindTypeDefine.process_request(ctx),
            BuiltinHandler::FindImplementation => FindImplementation.process_request(ctx),
            BuiltinHandler::FindReferences => FindReferences.process_request(ctx),
            BuiltinHandler::CodeAction => CodeAction.process_request(ctx),
            BuiltinHandler::Formatting => Formatting.process_request(ctx),
            BuiltinHandler::RangeFormatting => RangeFormatting.process_request(ctx),
            BuiltinHandler::PrepareRename => PrepareRename.process_request(ctx),
            BuiltinHandler::Rename => Rename.process_request(ctx),
            BuiltinHandler::SignatureHelp => SignatureHelp.process_request(ctx),
            BuiltinHandler::InlayHint => InlayHint.process_request(ctx),
            BuiltinHandler::SemanticTokens => SemanticTokens.process_request(ctx),
            BuiltinHandler::Diagnostic => Diagnostic.process_request(ctx),
            BuiltinHandler::DocumentSymbol => DocumentSymbol.process_request(ctx),
            BuiltinHandler::IMenu => IMenu.process_request(ctx),
            BuiltinHandler::Breadcrumb => Breadcrumb.process_request(ctx),
            BuiltinHandler::DocumentHighlight => DocumentHighlight.process_request(ctx),
            BuiltinHandler::ExecuteCommand => ExecuteCommand.process_request(ctx),
            BuiltinHandler::WorkspaceSymbol => WorkspaceSymbol.process_request(ctx),
            BuiltinHandler::PrepareCallHierarchyIncoming => PrepareCallHierarchyIncoming.process_request(ctx),
            BuiltinHandler::PrepareCallHierarchyOutgoing => PrepareCallHierarchyOutgoing.process_request(ctx),
            BuiltinHandler::CallHierarchyIncoming => CallHierarchyIncoming.process_request(ctx),
            BuiltinHandler::CallHierarchyOutgoing => CallHierarchyOutgoing.process_request(ctx),
        }
    }

    fn process_response(&self, ctx: &ResponseContext, response: Json) -> (r: Vec<EmacsCall>) {
        match *self {
            BuiltinHandler::Completion => Completion.process_response(ctx, response),
            BuiltinHandler::CompletionItem => CompletionItem.process_response(ctx, response),
            BuiltinHandler::Hover => Hover.process_response(ctx, response),
            BuiltinHandler::FindDefine => FindDefine.process_response(ctx, response),
            BuiltinHandler::FindTypeDefine => FindTypeDefine.process_response(ctx, response),
            BuiltinHandler::FindImplementation => FindImplementation.process_response(ctx, response),
            BuiltinHandler::FindReferences => FindReferences.process_response(ctx, response),
            BuiltinHandler::CodeAction => CodeAction.process_response(ctx, response),
            BuiltinHandler::Formatting => Formatting.process_response(ctx, response),
            BuiltinHandler::RangeFormatting => RangeFormatting.process_response(ctx, response),
            BuiltinHandler::PrepareRename => PrepareRename.process_response(ctx, response),
            BuiltinHandler::Rename => Rename.process_response(ctx, response),
            BuiltinHandler::SignatureHelp => SignatureHelp.process_response(ctx, response),
            BuiltinHandler::InlayHint => InlayHint.process_response(ctx, response),
            BuiltinHandler::SemanticTokens => SemanticTokens.process_response(ctx, response),
            BuiltinHandler::Diagnostic => Diagnostic.process_response(ctx, response),
            BuiltinHandler::DocumentSymbol => DocumentSymbol.process_response(ctx, response),
            BuiltinHandler::IMenu => IMenu.process_response(ctx, response),
            BuiltinHandler::Breadcrumb => Breadcrumb.process_response(ctx, response),
            BuiltinHandler::DocumentHighlight => DocumentHighlight.process_response(ctx, response),
            BuiltinHandler::ExecuteCommand => ExecuteCommand.process_response(ctx, response),
            BuiltinHandler::WorkspaceSymbol => WorkspaceSymbol.process_response(ctx, response),
            BuiltinHandler::PrepareCallHierarchyIncoming => PrepareCallHierarchyIncoming.process_response(ctx, response),
            BuiltinHandler::PrepareCallHierarchyOutgoing => PrepareCallHierarchyOutgoing.process_response(ctx, response),
            BuiltinHandler::CallHierarchyIncoming => CallHierarchyIncoming.process_response(ctx, response),
            BuiltinHandler::CallHierarchyOutgoing => CallHierarchyOutgoing.process_response(ctx, response),
        }
    }
}

/// All built-in handlers, in order.
pub open spec fn all_handlers() -> Seq<BuiltinHandler> {
    seq![
        BuiltinHandler::Completion,
        BuiltinHandler::CompletionItem,
        BuiltinHandler::Hover,
        BuiltinHandler::FindDefine,
        BuiltinHandler::FindTypeDefine,
        BuiltinHandler::FindImplementation,
        BuiltinHandler::FindReferences,
        BuiltinHandler::CodeAction,
        BuiltinHandler::Formatting,
        BuiltinHandler::RangeFormatting,
        BuiltinHandler::PrepareRename,
        BuiltinHandler::Rename,
        BuiltinHandler::SignatureHelp,
        BuiltinHandler::InlayHint,
        BuiltinHandler::SemanticTokens,
        BuiltinHandler::Diagnostic,
        BuiltinHandler::DocumentSymbol,
        BuiltinHandler::IMenu,
        BuiltinHandler::Breadcrumb,
        BuiltinHandler::DocumentHighlight,
        BuiltinHandler::ExecuteCommand,
        BuiltinHandler::WorkspaceSymbol,
        BuiltinHandler::PrepareCallHierarchyIncoming,
        BuiltinHandler::PrepareCallHierarchyOutgoing,
        BuiltinHandler::CallHierarchyIncoming,
        BuiltinHandler::CallHierarchyOutgoing,
    ]
}

/// Create all built-in handlers.
pub fn create_all_handlers() -> (r: Vec<BuiltinHandler>)
    ensures
        r@ == all_handlers(),
{
    let mut r: Vec<BuiltinHandler> = Vec::new();
    r.push(BuiltinHandler::Completion);
    r.push(BuiltinHandler::CompletionItem);
    r.push(BuiltinHandler::Hover);
    r.push(BuiltinHandler::FindDefine);
    r.push(BuiltinHandler::FindTypeDefine);
    r.push(BuiltinHandler::FindImplementation);
    r.push(BuiltinHandler::FindReferences);
    r.push(BuiltinHandler::CodeAction);
    r.push(BuiltinHandler::Formatting);
    r.push(BuiltinHandler::RangeFormatting);
    r.push(BuiltinHandler::PrepareRename);
    r.push(BuiltinHandler::Rename);
    r.push(BuiltinHandler::SignatureHelp);
    r.push(BuiltinHandler::InlayHint);
    r.push(BuiltinHandler::SemanticTokens);
    r.push(BuiltinHandler::Diagnostic);
    r.push(BuiltinHandler::DocumentSymbol);
    r.push(BuiltinHandler::IMenu);
    r.push(BuiltinHandler::Breadcrumb);
    r.push(BuiltinHandler::DocumentHighlight);
    r.push(BuiltinHandler::ExecuteCommand);
    r.push(BuiltinHandler::WorkspaceSymbol);
    r.push(BuiltinHandler::PrepareCallHierarchyIncoming);
    r.push(BuiltinHandler::PrepareCallHierarchyOutgoing);
    r.push(BuiltinHandler::CallHierarchyIncoming);
    r.push(BuiltinHandler::CallHierarchyOutgoing);
    assert(r@ =~= all_handlers());
    r
}

/// Handlers by name.
pub struct Registry {
    handlers: Vec<BuiltinHandler>,
}

impl View for Registry {
    type V = Seq<BuiltinHandler>;

    closed spec fn view(&self) -> Seq<BuiltinHandler> {
        self.handlers@
    }
}

/// Whether the handler at a position is the first with its name.
pub open spec fn found_at(all: Seq<BuiltinHandler>, name: Seq<char>, i: int) -> bool {
    &&& 0 <= i < all.len()
    &&& all[i].name_text() == name
    &&& forall|j: int| 0 <= j < i ==> (#[trigger] all[j]).name_text() != name
}

/// The first handler with that name.
pub open spec fn handler_named(all: Seq<BuiltinHandler>, name: Seq<char>) -> Option<BuiltinHandler>
    decreases all.len(),
{
    if all.len() == 0 {
        None
    } else if all[0].name_text() == name {
        Some(all[0])
    } else {
        handler_named(all.skip(1), name)
    }
}

impl Registry {
    /// The handler with that name.
    pub fn get(&self, name: &str) -> (r: Option<BuiltinHandler>)
        ensures
            r == handler_named(self@, name@),
            match r {
                Some(h) => exists|i: int| #[trigger]
                    found_at(self@, name@, i) && self@[i] == h,
                None => forall|i: int|
                    0 <= i < self@.len() ==> (#[trigger] self@[i]).name_text() != name@,
            },
    {
        let mut i: usize = 0;
        assert(self@.skip(0) =~= self@);
        while i < self.handlers.len()
            invariant
                i <= self.handlers@.len(),
                handler_named(self@, name@) == handler_named(self@.skip(i as int), name@),
                forall|j: int|
                    0 <= j < i ==> (#[trigger] self.handlers@[j]).name_text() != name@,
            decreases self.handlers@.len() - i,
        {
            let h = self.handlers[i];
            assert(self@.skip(i as int)[0] == h);
            assert(self@.skip(i as int).skip(1) =~= self@.skip(i + 1));
            if text::str_eq(h.name(), name) {
                assert(found_at(self@, name@, i as int));
                return Some(h);
            }
            i = i + 1;
        }
        None
    }

    /// Whether there is a handler with that name.
    pub fn contains_key(&self, name: &str) -> (r: bool)
        ensures
            r == exists|i: int| 0 <= i < self@.len() && (#[trigger] self@[i]).name_text() == name@,
    {
        self.get(name).is_some()
    }

    /// Whether there is no handler.
    pub fn is_empty(&self) -> (r: bool)
        ensures
            r == (self@.len() == 0),
    {
        self.handlers.len() == 0
    }

    /// The name of the handler at a position.
    pub fn name_at(&self, i: usize) -> (r: &'static str)
        requires
            i < self@.len(),
        ensures
            r@ == self@[i as int].name_text(),
    {
        self.handlers[i].name()
    }

    /// How many handlers there are.
    pub fn len(&self) -> (r: usize)
        ensures
            r == self@.len(),
    {
        self.handlers.len()
    }
}

/// Build a handler registry mapping names to handlers.
pub fn build_registry() -> (r: Registry)
    ensures
        r@ == all_handlers(),
{
    Registry { handlers: create_all_handlers() }
}

/// What tells the handlers' names apart: their length, and a few of their characters.
spec fn name_key(s: Seq<char>) -> (nat, char, char, char) {
    (
        s.len(),
        s[0],
        s[s.len() - 1],
        s[if s.len() >= 8 {
            s.len() - 8
        } else {
            0
        }],
    )
}

proof fn lemma_name_keys()
    ensures
        name_key("completion"@) == (10nat, 'c', 'n', 'm'),
        name_key("completion_item_resolve"@) == (23nat, 'c', 'e', '_'),
        name_key("hover"@) == (5nat, 'h', 'r', 'h'),
        name_key("find_define"@) == (11nat, 'f', 'e', 'd'),
        name_key("find_type_define"@) == (16nat, 'f', 'e', 'e'),
        name_key("find_implementation"@) == (19nat, 'f', 'n', 'e'),
        name_key("find_references"@) == (15nat, 'f', 's', 'f'),
        name_key("code_action"@) == (11nat, 'c', 'n', 'e'),
        name_key("formatting"@) == (10nat, 'f', 'g', 'r'),
        name_key("rangeFormatting"@) == (15nat, 'r', 'g', 'r'),
        name_key("prepare_rename"@) == (14nat, 'p', 'e', 'e'),
        name_key("rename"@) == (6nat, 'r', 'e', 'r'),
        name_key("signature_help"@) == (14nat, 's', 'p', 'u'),
        name_key("inlay_hint"@) == (10nat, 'i', 't', 'l'),
        name_key("semantic_tokens"@) == (15nat, 's', 's', 'c'),
        name_key("diagnostic"@) == (10nat, 'd', 'c', 'a'),
        name_key("document_symbol"@) == (15nat, 'd', 'l', 't'),
        name_key("imenu"@) == (5nat, 'i', 'u', 'i'),
        name_key("breadcrumb"@) == (10nat, 'b', 'b', 'e'),
        name_key("document_highlight"@) == (18nat, 'd', 't', 'i'),
        name_key("execute_command"@) == (15nat, 'e', 'd', '_'),
        name_key("workspace_symbol"@) == (16nat, 'w', 'l', 'e'),
        name_key("prepare_call_hierarchy_incoming"@) == (31nat, 'p', 'g', 'i'),
        name_key("prepare_call_hierarchy_outgoing"@) == (31nat, 'p', 'g', 'o'),
        name_key("call_hierarchy_incoming"@) == (23nat, 'c', 'g', 'i'),
        name_key("call_hierarchy_outgoing"@) == (23nat, 'c', 'g', 'o'),
{
    reveal_strlit("completion");
    reveal_strlit("completion_item_resolve");
    reveal_strlit("hover");
    reveal_strlit("find_define");
    reveal_strlit("find_type_define");
    reveal_strlit("find_implementation");
    reveal_strlit("find_references");
    reveal_strlit("code_action");
    reveal_strlit("formatting");
    reveal_strlit("rangeFormatting");
    reveal_strlit("prepare_rename");
    reveal_strlit("rename");
    reveal_strlit("signature_help");
    reveal_strlit("inlay_hint");
    reveal_strlit("semantic_tokens");
    reveal_strlit("diagnostic");
    reveal_strlit("document_symbol");
    reveal_strlit("imenu");
    reveal_strlit("breadcrumb");
    reveal_strlit("document_highlight");
    reveal_strlit("execute_command");
    reveal_strlit("workspace_symbol");
    reveal_strlit("prepare_call_hierarchy_incoming");
    reveal_strlit("prepare_call_hierarchy_outgoing");
    reveal_strlit("call_hierarchy_incoming");
    reveal_strlit("call_hierarchy_outgoing");
}

/// No two built-in handlers have the same name, so each is found under its own.
pub proof fn law_names_distinct(i: int, j: int)
    requires
        0 <= i < j < all_handlers().len(),
    ensures
        all_handlers()[i].name_text() != all_handlers()[j].name_text(),
        found_at(all_handlers(), all_handlers()[j].name_text(), j),
{
    lemma_name_keys();
    let all = all_handlers();
    assert forall|a: int, b: int| 0 <= a < b < all.len() implies #[trigger] name_key(
        all[a].name_text(),
    ) != #[trigger] name_key(all[b].name_text()) by {
    }
    assert(name_key(all[i].name_text()) != name_key(all[j].name_text()));
    assert forall|k: int| 0 <= k < j implies (#[trigger] all[k]).name_text()
        != all[j].name_text() by {
        assert(name_key(all[k].name_text()) != name_key(all[j].name_text()));
    }
}

} // verus!
