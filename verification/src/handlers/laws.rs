//! What every handler owes, said of what goes in and what comes out: the parameters that a request
//! carries, and the calls that a response leads to.

use crate::float;
use crate::handlers;
use crate::handlers::find_define;
use crate::handlers::hover;
use crate::handlers::registry;
use crate::handlers::registry::BuiltinHandler;
use crate::handlers::signature_help;
use crate::handlers::{Call, Handler, HandlerError, Request, Response};
use crate::json;
use crate::json::{Jn, Jv};
use crate::text;
use crate::uri;
use vstd::prelude::*;
use vstd::utf8::*;

verus! {

// ---------------------------------------------------------------------------
// Words that the laws use
// ---------------------------------------------------------------------------

/// The argument at a position; null behind the last.
pub open spec fn given(args: Seq<Jv>, i: int) -> Jv {
    if i < args.len() {
        args[i]
    } else {
        Jv::Null
    }
}

/// The text that a value is; empty for another value.
pub open spec fn said(v: Jv) -> Seq<char> {
    match v {
        Jv::Str(s) => s,
        _ => ""@,
    }
}

/// The text under a key; empty where there is none.
pub open spec fn said_under(v: Jv, key: Seq<char>) -> Seq<char> {
    match json::member(v, key) {
        Some(Jv::Str(s)) => s,
        _ => ""@,
    }
}

/// What stands under a key; null where nothing does.
pub open spec fn under(v: Jv, key: Seq<char>) -> Jv {
    if json::member(v, key) is Some {
        json::member(v, key)->0
    } else {
        Jv::Null
    }
}

/// A whole number from zero up.
pub open spec fn whole(n: u64) -> Jv {
    Jv::Number(Jn::PosInt(n))
}

/// Whether one call of a function is made, with these arguments.
pub open spec fn calls_once(calls: Seq<Call>, method: Seq<char>, args: Seq<Jv>) -> bool {
    &&& calls.len() == 1
    &&& calls[0] == Call::Eval { method, args }
}

/// Whether one message is shown and nothing else is done.
pub open spec fn shows_once(calls: Seq<Call>, s: Seq<char>) -> bool {
    &&& calls.len() == 1
    &&& calls[0] == Call::Message(s)
}

// ---------------------------------------------------------------------------
// Requests
// ---------------------------------------------------------------------------

/// Whether a handler asks about a position alone.
pub open spec fn asks_at_position(h: BuiltinHandler) -> bool {
    ||| h is FindDefine
    ||| h is FindTypeDefine
    ||| h is FindImplementation
    ||| h is PrepareRename
    ||| h is SignatureHelp
    ||| h is DocumentHighlight
    ||| h is PrepareCallHierarchyIncoming
    ||| h is PrepareCallHierarchyOutgoing
}

/// A request about a position carries the first argument as the position, and nothing else.
pub proof fn law_position_sent(h: BuiltinHandler, ctx: Request)
    requires
        asks_at_position(h),
    ensures
        h.request(ctx) is Ok,
        handlers::made_of(h.request(ctx)->Ok_0, seq![("position"@, given(ctx.args, 0))]),
{
    handlers::lemma_made_of_one("position"@, given(ctx.args, 0));
}

/// Whether a handler asks about the whole document.
pub open spec fn asks_of_document(h: BuiltinHandler) -> bool {
    ||| h is SemanticTokens
    ||| h is DocumentSymbol
    ||| h is IMenu
    ||| h is Breadcrumb
}

/// A request about a document carries nothing of its own.
pub proof fn law_document_request_is_empty(h: BuiltinHandler, ctx: Request)
    requires
        asks_of_document(h),
    ensures
        h.request(ctx) is Ok,
        handlers::made_of(h.request(ctx)->Ok_0, seq![]),
{
    handlers::lemma_made_of_none();
}

/// A request for references carries the position, and counts the declaration among them.
pub proof fn law_references_request(ctx: Request)
    ensures
        BuiltinHandler::FindReferences.request(ctx) is Ok,
        ({
            let params = BuiltinHandler::FindReferences.request(ctx)->Ok_0;
            &&& handlers::made_of(
                params,
                seq![("position"@, given(ctx.args, 0)), ("context"@, under(params, "context"@))],
            )
            &&& handlers::made_of(
                under(params, "context"@),
                seq![("includeDeclaration"@, Jv::Bool(true))],
            )
        }),
{
    reveal_strlit("position");
    reveal_strlit("context");
    let declared = handlers::obj(seq![("includeDeclaration"@, Jv::Bool(true))]);
    handlers::lemma_made_of_one("includeDeclaration"@, Jv::Bool(true));
    assert("position"@.len() != "context"@.len());
    handlers::lemma_made_of_two("position"@, given(ctx.args, 0), "context"@, declared);
}

/// A completion request carries the position and what started it: the typed text where it is one
/// of the server's trigger characters, and the user else.
pub proof fn law_completion_request(ctx: Request)
    ensures
        BuiltinHandler::Completion.request(ctx) is Ok,
        ({
            let params = BuiltinHandler::Completion.request(ctx)->Ok_0;
            let typed = said(given(ctx.args, 1));
            &&& handlers::made_of(
                params,
                seq![("position"@, given(ctx.args, 0)), ("context"@, under(params, "context"@))],
            )
            &&& (exists|i: int|
                0 <= i < ctx.trigger_characters.len() && #[trigger] ctx.trigger_characters[i]
                    == typed) ==> handlers::made_of(
                under(params, "context"@),
                seq![("triggerCharacter"@, Jv::Str(typed)), ("triggerKind"@, whole(2))],
            )
            &&& (forall|i: int|
                0 <= i < ctx.trigger_characters.len() ==> #[trigger] ctx.trigger_characters[i]
                    != typed) ==> handlers::made_of(
                under(params, "context"@),
                seq![("triggerKind"@, whole(1))],
            )
        }),
{
    reveal_strlit("position");
    reveal_strlit("context");
    reveal_strlit("triggerCharacter");
    reveal_strlit("triggerKind");
    let typed = said(given(ctx.args, 1));
    assert(handlers::arg_text(ctx.args, 1) == typed);
    let context = under(BuiltinHandler::Completion.request(ctx)->Ok_0, "context"@);
    assert("position"@.len() != "context"@.len());
    assert("triggerCharacter"@.len() != "triggerKind"@.len());
    handlers::lemma_made_of_two(
        "triggerCharacter"@,
        Jv::Str(typed),
        "triggerKind"@,
        whole(2),
    );
    handlers::lemma_made_of_one("triggerKind"@, whole(1));
    let with = handlers::obj(
        seq![("triggerCharacter"@, Jv::Str(typed)), ("triggerKind"@, whole(2))],
    );
    let without = handlers::obj(seq![("triggerKind"@, whole(1))]);
    handlers::lemma_made_of_two("position"@, given(ctx.args, 0), "context"@, with);
    handlers::lemma_made_of_two("position"@, given(ctx.args, 0), "context"@, without);
}

/// An item to resolve goes to the server as it came, and a request without one is refused.
pub proof fn law_item_sent_unchanged(ctx: Request)
    ensures
        ctx.args.len() >= 3 ==> BuiltinHandler::CompletionItem.request(ctx) == Ok::<
            Jv,
            HandlerError,
        >(ctx.args[2]),
        ctx.args.len() < 3 ==> BuiltinHandler::CompletionItem.request(ctx) == Err::<
            Jv,
            HandlerError,
        >(HandlerError::MissingCompletionItem),
{
}

/// Only rust-analyzer is asked about a range, and only where it is no single position.
pub proof fn law_hover_request(ctx: Request)
    ensures
        BuiltinHandler::Hover.request(ctx) is Ok,
        ({
            let params = BuiltinHandler::Hover.request(ctx)->Ok_0;
            let start = given(ctx.args, 0);
            let end = given(ctx.args, 1);
            &&& handlers::made_of(params, seq![("position"@, under(params, "position"@))])
            &&& ctx.server_name != "rust-analyzer"@ ==> under(params, "position"@) == start
            &&& json::equal(start, end) ==> under(params, "position"@) == start
            &&& ctx.server_name == "rust-analyzer"@ && !json::equal(start, end)
                ==> handlers::made_of(
                under(params, "position"@),
                seq![("start"@, start), ("end"@, end)],
            )
        }),
{
    reveal_strlit("start");
    reveal_strlit("end");
    let start = given(ctx.args, 0);
    let end = given(ctx.args, 1);
    assert("start"@.len() != "end"@.len());
    handlers::lemma_made_of_two("start"@, start, "end"@, end);
    handlers::lemma_made_of_one("position"@, start);
    handlers::lemma_made_of_one(
        "position"@,
        handlers::obj(seq![("start"@, start), ("end"@, end)]),
    );
}

/// A code action request carries the range of the second and third argument, the diagnostics of
/// the first, and the wanted kind where the fourth names one.
pub proof fn law_code_action_request(ctx: Request)
    ensures
        BuiltinHandler::CodeAction.request(ctx) is Ok,
        ({
            let params = BuiltinHandler::CodeAction.request(ctx)->Ok_0;
            let diagnostics = if ctx.args.len() > 0 {
                ctx.args[0]
            } else {
                Jv::Array(Seq::empty())
            };
            &&& handlers::made_of(
                params,
                seq![("range"@, under(params, "range"@)), ("context"@, under(params, "context"@))],
            )
            &&& handlers::made_of(
                under(params, "range"@),
                seq![("start"@, given(ctx.args, 1)), ("end"@, given(ctx.args, 2))],
            )
            &&& given(ctx.args, 3) is Str ==> handlers::made_of(
                under(params, "context"@),
                seq![
                    ("diagnostics"@, diagnostics),
                    ("only"@, Jv::Array(seq![given(ctx.args, 3)])),
                ],
            )
            &&& !(given(ctx.args, 3) is Str) ==> handlers::made_of(
                under(params, "context"@),
                seq![("diagnostics"@, diagnostics)],
            )
        }),
{
    reveal_strlit("start");
    reveal_strlit("end");
    reveal_strlit("range");
    reveal_strlit("context");
    reveal_strlit("diagnostics");
    reveal_strlit("only");
    assert("start"@.len() != "end"@.len());
    assert("range"@.len() != "context"@.len());
    assert("diagnostics"@.len() != "only"@.len());
    let start = given(ctx.args, 1);
    let end = given(ctx.args, 2);
    let diagnostics = if ctx.args.len() > 0 {
        ctx.args[0]
    } else {
        Jv::Array(Seq::empty())
    };
    let only = Jv::Array(seq![given(ctx.args, 3)]);
    let range = handlers::obj(seq![("start"@, start), ("end"@, end)]);
    handlers::lemma_made_of_two("start"@, start, "end"@, end);
    handlers::lemma_made_of_two("diagnostics"@, diagnostics, "only"@, only);
    handlers::lemma_made_of_one("diagnostics"@, diagnostics);
    handlers::lemma_made_of_two(
        "range"@,
        range,
        "context"@,
        handlers::obj(seq![("diagnostics"@, diagnostics), ("only"@, only)]),
    );
    handlers::lemma_made_of_two(
        "range"@,
        range,
        "context"@,
        handlers::obj(seq![("diagnostics"@, diagnostics)]),
    );
}

/// Whether a value is the options of a formatting request with that width of a tab.
pub open spec fn formats_with(v: Jv, tab_size: Jv) -> bool {
    handlers::made_of(
        v,
        seq![
            ("tabSize"@, tab_size),
            ("insertSpaces"@, Jv::Bool(true)),
            ("trimTrailingWhitespace"@, Jv::Bool(true)),
            ("insertFinalNewline"@, Jv::Bool(false)),
            ("trimFinalNewlines"@, Jv::Bool(true)),
        ],
    )
}

proof fn lemma_formats_with(tab_size: Jv)
    ensures
        formats_with(handlers::formatting::format_options(tab_size), tab_size),
{
    reveal_strlit("tabSize");
    reveal_strlit("insertSpaces");
    reveal_strlit("trimTrailingWhitespace");
    reveal_strlit("insertFinalNewline");
    reveal_strlit("trimFinalNewlines");
    assert("tabSize"@.len() == 7);
    assert("insertSpaces"@.len() == 12);
    assert("trimTrailingWhitespace"@.len() == 22);
    assert("insertFinalNewline"@.len() == 18);
    assert("trimFinalNewlines"@.len() == 17);
    handlers::lemma_made_of(
        seq![
            ("tabSize"@, tab_size),
            ("insertSpaces"@, Jv::Bool(true)),
            ("trimTrailingWhitespace"@, Jv::Bool(true)),
            ("insertFinalNewline"@, Jv::Bool(false)),
            ("trimFinalNewlines"@, Jv::Bool(true)),
        ],
    );
}

/// A formatting request carries the width of a tab, four where none is given; one for a range
/// carries the range too.
pub proof fn law_formatting_request(ctx: Request)
    ensures
        BuiltinHandler::Formatting.request(ctx) is Ok,
        ({
            let params = BuiltinHandler::Formatting.request(ctx)->Ok_0;
            let width = if ctx.args.len() > 0 {
                ctx.args[0]
            } else {
                whole(4)
            };
            &&& handlers::made_of(params, seq![("options"@, under(params, "options"@))])
            &&& formats_with(under(params, "options"@), width)
        }),
        BuiltinHandler::RangeFormatting.request(ctx) is Ok,
        ({
            let params = BuiltinHandler::RangeFormatting.request(ctx)->Ok_0;
            let width = if ctx.args.len() > 2 {
                ctx.args[2]
            } else {
                whole(4)
            };
            &&& handlers::made_of(
                params,
                seq![("range"@, under(params, "range"@)), ("options"@, under(params, "options"@))],
            )
            &&& handlers::made_of(
                under(params, "range"@),
                seq![("start"@, given(ctx.args, 0)), ("end"@, given(ctx.args, 1))],
            )
            &&& formats_with(under(params, "options"@), width)
        }),
{
    reveal_strlit("start");
    reveal_strlit("end");
    reveal_strlit("range");
    reveal_strlit("options");
    assert("start"@.len() != "end"@.len());
    assert("range"@.len() != "options"@.len());
    let width = if ctx.args.len() > 0 {
        ctx.args[0]
    } else {
        whole(4)
    };
    lemma_formats_with(width);
    handlers::lemma_made_of_one("options"@, handlers::formatting::format_options(width));
    let width2 = if ctx.args.len() > 2 {
        ctx.args[2]
    } else {
        whole(4)
    };
    lemma_formats_with(width2);
    let start = given(ctx.args, 0);
    let end = given(ctx.args, 1);
    handlers::lemma_made_of_two("start"@, start, "end"@, end);
    handlers::lemma_made_of_two(
        "range"@,
        handlers::obj(seq![("start"@, start), ("end"@, end)]),
        "options"@,
        handlers::formatting::format_options(width2),
    );
}

/// A rename request carries the position and the new name.
pub proof fn law_rename_request(ctx: Request)
    ensures
        BuiltinHandler::Rename.request(ctx) is Ok,
        handlers::made_of(
            BuiltinHandler::Rename.request(ctx)->Ok_0,
            seq![
                ("position"@, given(ctx.args, 0)),
                ("newName"@, Jv::Str(said(given(ctx.args, 1)))),
            ],
        ),
{
    reveal_strlit("position");
    reveal_strlit("newName");
    assert("position"@.len() != "newName"@.len());
    handlers::lemma_made_of_two(
        "position"@,
        given(ctx.args, 0),
        "newName"@,
        Jv::Str(said(given(ctx.args, 1))),
    );
}

/// A request for inlay hints carries the range of its two arguments.
pub proof fn law_inlay_hint_request(ctx: Request)
    ensures
        BuiltinHandler::InlayHint.request(ctx) is Ok,
        ({
            let params = BuiltinHandler::InlayHint.request(ctx)->Ok_0;
            &&& handlers::made_of(params, seq![("range"@, under(params, "range"@))])
            &&& handlers::made_of(
                under(params, "range"@),
                seq![("start"@, given(ctx.args, 0)), ("end"@, given(ctx.args, 1))],
            )
        }),
{
    reveal_strlit("start");
    reveal_strlit("end");
    assert("start"@.len() != "end"@.len());
    let start = given(ctx.args, 0);
    let end = given(ctx.args, 1);
    handlers::lemma_made_of_two("start"@, start, "end"@, end);
    handlers::lemma_made_of_one("range"@, handlers::obj(seq![("start"@, start), ("end"@, end)]));
}

/// A request for diagnostics carries the identifier and the previous result where they are texts.
pub proof fn law_diagnostic_request(ctx: Request)
    ensures
        BuiltinHandler::Diagnostic.request(ctx) is Ok,
        ({
            let params = BuiltinHandler::Diagnostic.request(ctx)->Ok_0;
            let id = given(ctx.args, 0);
            let previous = given(ctx.args, 1);
            &&& params is Object
            &&& json::member(params, "identifier"@) == if id is Str {
                Some(id)
            } else {
                None
            }
            &&& json::member(params, "previousResultId"@) == if previous is Str {
                Some(previous)
            } else {
                None
            }
            &&& forall|key: Seq<char>|
                key != "identifier"@ && key != "previousResultId"@ ==> (#[trigger] json::member(
                    params,
                    key,
                )) is None
        }),
{
    reveal_strlit("identifier");
    reveal_strlit("previousResultId");
    assert("identifier"@.len() != "previousResultId"@.len());
    let params = BuiltinHandler::Diagnostic.request(ctx)->Ok_0;
    let id = given(ctx.args, 0);
    let previous = given(ctx.args, 1);
    let front = if id is Str {
        seq![("identifier"@, id)]
    } else {
        seq![]
    };
    let back = if previous is Str {
        seq![("previousResultId"@, previous)]
    } else {
        seq![]
    };
    let members = front + back;
    assert(params == handlers::obj(members));
    handlers::lemma_made_of(members);
    if id is Str {
        assert(members[0] == ("identifier"@, id));
    }
    if previous is Str {
        assert(members[members.len() - 1] == ("previousResultId"@, previous));
    }
}

/// A command goes to the server with its name and its arguments.
pub proof fn law_execute_command_request(ctx: Request)
    ensures
        BuiltinHandler::ExecuteCommand.request(ctx) is Ok,
        handlers::made_of(
            BuiltinHandler::ExecuteCommand.request(ctx)->Ok_0,
            seq![
                ("command"@, Jv::Str(said(given(ctx.args, 1)))),
                (
                    "arguments"@,
                    if ctx.args.len() > 2 {
                        ctx.args[2]
                    } else {
                        Jv::Array(Seq::empty())
                    },
                ),
            ],
        ),
{
    reveal_strlit("command");
    reveal_strlit("arguments");
    assert("command"@.len() != "arguments"@.len());
    handlers::lemma_made_of_two(
        "command"@,
        Jv::Str(said(given(ctx.args, 1))),
        "arguments"@,
        if ctx.args.len() > 2 {
            ctx.args[2]
        } else {
            Jv::Array(Seq::empty())
        },
    );
}

/// A request about the calls of an item carries the item.
pub proof fn law_calls_request(h: BuiltinHandler, ctx: Request)
    requires
        h is CallHierarchyIncoming || h is CallHierarchyOutgoing,
    ensures
        h.request(ctx) is Ok,
        handlers::made_of(h.request(ctx)->Ok_0, seq![("item"@, given(ctx.args, 0))]),
{
    handlers::lemma_made_of_one("item"@, given(ctx.args, 0));
}

/// A search for symbols carries the characters of the first argument that are no white space, in
/// their order.
pub proof fn law_workspace_symbol_request(ctx: Request)
    ensures
        BuiltinHandler::WorkspaceSymbol.request(ctx) is Ok,
        handlers::made_of(
            BuiltinHandler::WorkspaceSymbol.request(ctx)->Ok_0,
            seq![
                (
                    "query"@,
                    Jv::Str(said(given(ctx.args, 0)).filter(|c: char| !text::is_white(c))),
                ),
            ],
        ),
{
    let query = Jv::Str(said(given(ctx.args, 0)).filter(|c: char| !text::is_white(c)));
    handlers::lemma_made_of_one("query"@, query);
}

// ---------------------------------------------------------------------------
// Responses that are handed on whole
// ---------------------------------------------------------------------------

/// A response of null leads to nothing where there is nothing to say about it.
pub proof fn law_null_ignored(h: BuiltinHandler, ctx: Response)
    requires
        ({
            ||| h is CompletionItem
            ||| h is PrepareRename
            ||| h is SignatureHelp
            ||| h is CodeAction
            ||| h is InlayHint
            ||| h is SemanticTokens
            ||| h is Diagnostic
            ||| h is DocumentSymbol
            ||| h is IMenu
            ||| h is Breadcrumb
            ||| h is DocumentHighlight
            ||| h is WorkspaceSymbol
            ||| h is CallHierarchyIncoming
            ||| h is CallHierarchyOutgoing
        }),
    ensures
        h.response(ctx, Jv::Null).len() == 0,
{
}

/// A response of null where something was asked for is reported.
pub proof fn law_null_reported(ctx: Response)
    ensures
        shows_once(BuiltinHandler::Hover.response(ctx, Jv::Null), "No documentation available."@),
        shows_once(BuiltinHandler::FindDefine.response(ctx, Jv::Null), "No definition found."@),
        shows_once(BuiltinHandler::FindTypeDefine.response(ctx, Jv::Null), "No definition found."@),
        shows_once(
            BuiltinHandler::FindImplementation.response(ctx, Jv::Null),
            "No definition found."@,
        ),
        shows_once(BuiltinHandler::FindReferences.response(ctx, Jv::Null), "No references found."@),
        shows_once(BuiltinHandler::Formatting.response(ctx, Jv::Null), "Nothing need format."@),
        shows_once(BuiltinHandler::RangeFormatting.response(ctx, Jv::Null), "Nothing need format."@),
        shows_once(BuiltinHandler::Rename.response(ctx, Jv::Null), "No rename found"@),
        shows_once(
            BuiltinHandler::PrepareCallHierarchyIncoming.response(ctx, Jv::Null),
            "No call hierarchies found"@,
        ),
        shows_once(
            BuiltinHandler::PrepareCallHierarchyOutgoing.response(ctx, Jv::Null),
            "No call hierarchies found"@,
        ),
{
}

/// The result of a command means nothing, whatever it is.
pub proof fn law_command_result_ignored(ctx: Response, response: Jv)
    ensures
        BuiltinHandler::ExecuteCommand.response(ctx, response).len() == 0,
{
}

/// Every response but null is handed on whole, with the file and its host where Emacs needs them.
pub proof fn law_handed_on_whole(ctx: Response, response: Jv)
    requires
        !(response is Null),
    ensures
        calls_once(
            BuiltinHandler::DocumentHighlight.response(ctx, response),
            "lsp-bridge-document-highlight-render"@,
            seq![response],
        ),
        calls_once(
            BuiltinHandler::IMenu.response(ctx, response),
            "lsp-bridge-imenu--render"@,
            seq![response],
        ),
        calls_once(
            BuiltinHandler::WorkspaceSymbol.response(ctx, response),
            "lsp-bridge-workspace--list-symbols"@,
            seq![response],
        ),
        calls_once(
            BuiltinHandler::DocumentSymbol.response(ctx, response),
            "lsp-bridge-document-symbol--render"@,
            seq![Jv::Str(ctx.filepath), Jv::Str(ctx.host), response],
        ),
        calls_once(
            BuiltinHandler::SemanticTokens.response(ctx, response),
            "lsp-bridge-semantic-tokens--render"@,
            seq![Jv::Str(ctx.filepath), Jv::Str(ctx.host), response],
        ),
        calls_once(
            BuiltinHandler::CallHierarchyIncoming.response(ctx, response),
            "lsp-bridge-call-hierarchy--render"@,
            seq![Jv::Str("incoming"@), response],
        ),
        calls_once(
            BuiltinHandler::CallHierarchyOutgoing.response(ctx, response),
            "lsp-bridge-call-hierarchy--render"@,
            seq![Jv::Str("outgoing"@), response],
        ),
{
}

/// A list of code actions is handed on whole; an empty one, or another value, leads to nothing.
pub proof fn law_code_actions_offered(ctx: Response, response: Jv)
    ensures
        (exists|a: Seq<Jv>| response == Jv::Array(a) && #[trigger] a.len() > 0) ==> calls_once(
            BuiltinHandler::CodeAction.response(ctx, response),
            "lsp-bridge-code-action--fix"@,
            seq![response, Jv::Null],
        ),
        (forall|a: Seq<Jv>| response == Jv::Array(a) ==> #[trigger] a.len() == 0)
            ==> BuiltinHandler::CodeAction.response(ctx, response).len() == 0,
{
    if response is Array {
        let a = response->Array_0;
        assert(response == Jv::Array(a) && (a.len() > 0 || a.len() == 0));
    }
}

/// Every array of inlay hints is handed on whole, an empty one too; nothing else is.
pub proof fn law_inlay_hints_rendered(ctx: Response, response: Jv)
    ensures
        response is Array ==> calls_once(
            BuiltinHandler::InlayHint.response(ctx, response),
            "lsp-bridge-inlay-hint--render"@,
            seq![Jv::Str(ctx.filepath), Jv::Str(ctx.host), response],
        ),
        !(response is Array) ==> BuiltinHandler::InlayHint.response(ctx, response).len() == 0,
{
}

/// Edits are applied as they came; an empty array of edits is reported.
pub proof fn law_edits_applied(ctx: Response, response: Jv)
    requires
        !(response is Null),
    ensures
        response != Jv::Array(Seq::empty()) ==> calls_once(
            BuiltinHandler::Formatting.response(ctx, response),
            "lsp-bridge-format--update"@,
            seq![Jv::Str(ctx.filepath), response],
        ) && calls_once(
            BuiltinHandler::RangeFormatting.response(ctx, response),
            "lsp-bridge-format--update"@,
            seq![Jv::Str(ctx.filepath), response],
        ),
        response == Jv::Array(Seq::empty()) ==> shows_once(
            BuiltinHandler::Formatting.response(ctx, response),
            "Nothing need format."@,
        ) && shows_once(
            BuiltinHandler::RangeFormatting.response(ctx, response),
            "Nothing need format."@,
        ),
{
    if response is Array && response->Array_0.len() == 0 {
        assert(response->Array_0 =~= Seq::<Jv>::empty());
    }
}

/// An edit of the workspace is applied as it came, and then the rename is reported as done.
pub proof fn law_rename_applied(ctx: Response, response: Jv)
    requires
        !(response is Null),
    ensures
        ({
            let calls = BuiltinHandler::Rename.response(ctx, response);
            &&& calls.len() == 2
            &&& calls[0] == Call::Eval {
                method: "lsp-bridge-workspace-apply-edit"@,
                args: seq![response],
            }
            &&& calls[1] == Call::Message("Rename done."@)
        }),
{
}

/// The range to rename is the one under `range`, or the response itself where there is none; its
/// two ends go to Emacs.
pub proof fn law_rename_range_shown(ctx: Response, response: Jv, range: Jv)
    requires
        !(response is Null),
        json::member(response, "range"@) == Some(range) || (json::member(response, "range"@) is None
            && range == response),
    ensures
        calls_once(
            BuiltinHandler::PrepareRename.response(ctx, response),
            "lsp-bridge-rename--highlight"@,
            seq![
                Jv::Str(ctx.filepath),
                Jv::Str(ctx.host),
                under(range, "start"@),
                under(range, "end"@),
            ],
        ),
{
}

/// Of the items of a call hierarchy the first is taken; without items nothing happens.
pub proof fn law_first_item_taken(ctx: Response, items: Seq<Jv>)
    ensures
        items.len() > 0 ==> calls_once(
            BuiltinHandler::PrepareCallHierarchyIncoming.response(ctx, Jv::Array(items)),
            "lsp-bridge-call-hierarchy--incoming"@,
            seq![items[0]],
        ) && calls_once(
            BuiltinHandler::PrepareCallHierarchyOutgoing.response(ctx, Jv::Array(items)),
            "lsp-bridge-call-hierarchy--outgoing"@,
            seq![items[0]],
        ),
        items.len() == 0 ==> BuiltinHandler::PrepareCallHierarchyIncoming.response(
            ctx,
            Jv::Array(items),
        ).len() == 0 && BuiltinHandler::PrepareCallHierarchyOutgoing.response(
            ctx,
            Jv::Array(items),
        ).len() == 0,
{
}

/// Symbols for the breadcrumb are handed on whole, unless they are a list that is empty or whose
/// first symbol has no range.
pub proof fn law_breadcrumb_shown(ctx: Response, response: Jv)
    requires
        !(response is Null),
    ensures
        ({
            let calls = BuiltinHandler::Breadcrumb.response(ctx, response);
            let useless = match response {
                Jv::Array(a) => a.len() == 0 || json::member(a[0], "range"@) is None,
                _ => false,
            };
            &&& useless ==> calls.len() == 0
            &&& !useless ==> calls_once(
                calls,
                "lsp-bridge-breadcrumb--callback"@,
                seq![Jv::Str(ctx.filepath), Jv::Str(ctx.host), response],
            )
        }),
{
}

/// All diagnostics of a report are rendered, and their number with them; a report without a list
/// of them leads to nothing.
pub proof fn law_diagnostics_rendered(ctx: Response, response: Jv, items: Seq<Jv>)
    requires
        items.len() <= u64::MAX,
    ensures
        json::member(response, "items"@) == Some(Jv::Array(items)) ==> calls_once(
            BuiltinHandler::Diagnostic.response(ctx, response),
            "lsp-bridge-diagnostic--render"@,
            seq![
                Jv::Str(ctx.filepath),
                Jv::Str(ctx.host),
                Jv::Array(items),
                whole(items.len() as u64),
            ],
        ),
        !(under(response, "items"@) is Array) ==> BuiltinHandler::Diagnostic.response(
            ctx,
            response,
        ).len() == 0,
{
}

/// A resolved item gives its documentation, a text or the text in its value, and its further
/// edits.
pub proof fn law_item_details_shown(ctx: Response, response: Jv)
    requires
        !(response is Null),
    ensures
        ({
            let documentation = under(response, "documentation"@);
            calls_once(
                BuiltinHandler::CompletionItem.response(ctx, response),
                "lsp-bridge-completion-item--update"@,
                seq![
                    Jv::Str(
                        if documentation is Str {
                            documentation->Str_0
                        } else {
                            said_under(documentation, "value"@)
                        },
                    ),
                    if json::member(response, "additionalTextEdits"@) is Some {
                        json::member(response, "additionalTextEdits"@)->0
                    } else {
                        Jv::Array(Seq::empty())
                    },
                    Jv::Str(ctx.server_name),
                ],
            )
        }),
{
}

// ---------------------------------------------------------------------------
// Places
// ---------------------------------------------------------------------------

/// Whether a range starts at that line and character.
pub open spec fn starts_at(range: Jv, line: u64, character: u64) -> bool {
    let start = under(range, "start"@);
    &&& json::member(start, "line"@) == Some(whole(line))
    &&& json::member(start, "character"@) == Some(whole(character))
}

/// Whether a value is a location: a URI and a range that starts at that line and character.
pub open spec fn is_location(v: Jv, uri: Seq<char>, line: u64, character: u64) -> bool {
    &&& json::member(v, "uri"@) == Some(Jv::Str(uri))
    &&& starts_at(under(v, "range"@), line, character)
}

/// Whether a value is a link to a location, without being a location itself.
pub open spec fn is_link(v: Jv, uri: Seq<char>, line: u64, character: u64) -> bool {
    &&& json::member(v, "uri"@) is None
    &&& json::member(v, "targetUri"@) == Some(Jv::Str(uri))
    &&& if json::member(v, "targetSelectionRange"@) is Some {
        starts_at(under(v, "targetSelectionRange"@), line, character)
    } else {
        starts_at(under(v, "targetRange"@), line, character)
    }
}

/// Whether a handler jumps to the place that a response names.
pub open spec fn jumps(h: BuiltinHandler) -> bool {
    h is FindDefine || h is FindTypeDefine || h is FindImplementation
}

/// Emacs jumps to the place that a response names: the location that it is, or the first of
/// several locations or links.
pub proof fn law_jump_to_place(
    h: BuiltinHandler,
    ctx: Response,
    response: Jv,
    uri: Seq<char>,
    line: u64,
    character: u64,
)
    requires
        jumps(h),
        is_location(response, uri, line, character) || (response is Array
            && response->Array_0.len() > 0 && (is_location(
            response->Array_0[0],
            uri,
            line,
            character,
        ) || is_link(response->Array_0[0], uri, line, character))),
    ensures
        ({
            let calls = h.response(ctx, response);
            &&& calls.len() == 1
            &&& calls[0] is Eval
            &&& calls[0]->method == "lsp-bridge-define--jump"@
            &&& calls[0]->args.len() == 3
            &&& calls[0]->args[0] == Jv::Str(uri::path_of(uri))
            &&& calls[0]->args[1] == Jv::Str(ctx.host)
            &&& handlers::made_of(
                calls[0]->args[2],
                seq![("line"@, whole(line)), ("character"@, whole(character))],
            )
        }),
{
    reveal_strlit("line");
    reveal_strlit("character");
    assert("line"@.len() != "character"@.len());
    handlers::lemma_made_of_two("line"@, whole(line), "character"@, whole(character));
}

/// Where a response names no place, that is reported.
pub proof fn law_no_place_reported(h: BuiltinHandler, ctx: Response, response: Jv)
    requires
        jumps(h),
        match response {
            Jv::Object(_) => json::member(response, "uri"@) is None || json::member(
                response,
                "range"@,
            ) is None,
            Jv::Array(a) => a.len() == 0 || !(a[0] is Object),
            _ => true,
        },
    ensures
        shows_once(h.response(ctx, response), "No definition found."@),
{
}

/// Whether a value is what Emacs gets of a place.
pub open spec fn shows_place(v: Jv, uri: Seq<char>, line: u64, character: u64) -> bool {
    handlers::made_of(
        v,
        seq![
            ("filepath"@, Jv::Str(uri::path_of(uri))),
            ("line"@, whole(line)),
            ("character"@, whole(character)),
        ],
    )
}

proof fn lemma_shows_place(uri: Seq<char>, line: u64, character: u64)
    ensures
        shows_place(
            find_define::reference_info(
                find_define::Place { path: uri::path_of(uri), line, character },
            ),
            uri,
            line,
            character,
        ),
{
    reveal_strlit("filepath");
    reveal_strlit("line");
    reveal_strlit("character");
    assert("filepath"@.len() == 8);
    assert("line"@.len() == 4);
    assert("character"@.len() == 9);
    handlers::lemma_made_of(
        seq![
            ("filepath"@, Jv::Str(uri::path_of(uri))),
            ("line"@, whole(line)),
            ("character"@, whole(character)),
        ],
    );
}

/// The references of two lists together are those of the first and then those of the second.
pub proof fn law_references_concat(a: Seq<Jv>, b: Seq<Jv>)
    ensures
        find_define::reference_infos(a + b) == find_define::reference_infos(a)
            + find_define::reference_infos(b),
    decreases b.len(),
{
    if b.len() == 0 {
        assert(a + b =~= a);
    } else {
        assert((a + b).drop_last() =~= a + b.drop_last());
        assert((a + b).last() == b.last());
        law_references_concat(a, b.drop_last());
    }
    assert(find_define::reference_infos(a + b) =~= find_define::reference_infos(a)
        + find_define::reference_infos(b));
}

/// A list of one location gives the one reference to its place, and a list of one value that is no
/// location gives none.
pub proof fn law_reference_of_location(v: Jv, uri: Seq<char>, line: u64, character: u64)
    ensures
        is_location(v, uri, line, character) ==> find_define::reference_infos(seq![v]).len() == 1
            && shows_place(find_define::reference_infos(seq![v])[0], uri, line, character),
        !(under(v, "uri"@) is Str) || !(under(under(under(v, "range"@), "start"@), "line"@) is Number)
            || !(under(under(under(v, "range"@), "start"@), "character"@) is Number)
            ==> find_define::reference_infos(seq![v]).len() == 0,
{
    assert(seq![v].drop_last() =~= Seq::<Jv>::empty());
    assert(find_define::reference_infos(Seq::<Jv>::empty()) =~= Seq::<Jv>::empty());
    lemma_shows_place(uri, line, character);
}

/// Where every value is a location, every one is listed, in order, each with its own place.
pub proof fn law_every_reference_listed(
    ctx: Response,
    a: Seq<Jv>,
    uris: Seq<Seq<char>>,
    lines: Seq<u64>,
    characters: Seq<u64>,
)
    requires
        a.len() > 0,
        uris.len() == a.len(),
        lines.len() == a.len(),
        characters.len() == a.len(),
        forall|i: int|
            0 <= i < a.len() ==> is_location(#[trigger] a[i], uris[i], lines[i], characters[i]),
    ensures
        ({
            let calls = BuiltinHandler::FindReferences.response(ctx, Jv::Array(a));
            &&& calls.len() == 1
            &&& calls[0] is Eval
            &&& calls[0]->method == "lsp-bridge-references--popup"@
            &&& calls[0]->args.len() == 1
            &&& calls[0]->args[0] is Array
            &&& calls[0]->args[0]->Array_0.len() == a.len()
            &&& forall|i: int|
                0 <= i < a.len() ==> shows_place(
                    #[trigger] calls[0]->args[0]->Array_0[i],
                    uris[i],
                    lines[i],
                    characters[i],
                )
        }),
{
    lemma_every_reference(a, uris, lines, characters);
}

proof fn lemma_every_reference(
    a: Seq<Jv>,
    uris: Seq<Seq<char>>,
    lines: Seq<u64>,
    characters: Seq<u64>,
)
    requires
        uris.len() == a.len(),
        lines.len() == a.len(),
        characters.len() == a.len(),
        forall|i: int|
            0 <= i < a.len() ==> is_location(#[trigger] a[i], uris[i], lines[i], characters[i]),
    ensures
        find_define::reference_infos(a).len() == a.len(),
        forall|i: int|
            0 <= i < a.len() ==> shows_place(
                #[trigger] find_define::reference_infos(a)[i],
                uris[i],
                lines[i],
                characters[i],
            ),
    decreases a.len(),
{
    if a.len() > 0 {
        let n = a.len() - 1;
        let front = a.drop_last();
        assert forall|i: int| 0 <= i < front.len() implies is_location(
            #[trigger] front[i],
            uris.drop_last()[i],
            lines.drop_last()[i],
            characters.drop_last()[i],
        ) by {
            assert(front[i] == a[i]);
        }
        lemma_every_reference(
            front,
            uris.drop_last(),
            lines.drop_last(),
            characters.drop_last(),
        );
        assert(is_location(a[n], uris[n], lines[n], characters[n]));
        lemma_shows_place(uris[n], lines[n], characters[n]);
        assert forall|i: int| 0 <= i < a.len() implies shows_place(
            #[trigger] find_define::reference_infos(a)[i],
            uris[i],
            lines[i],
            characters[i],
        ) by {
            if i < n {
                assert(find_define::reference_infos(a)[i] == find_define::reference_infos(front)[i]);
            }
        }
    }
}

// ---------------------------------------------------------------------------
// Completion
// ---------------------------------------------------------------------------

/// Whether a value is what Emacs gets of a completion item: its texts and edits as they are, the
/// name of its kind or else its detail as the icon, and whether a tag calls it deprecated.
pub open spec fn shows_item(v: Jv, item: Jv, server: Seq<char>) -> bool {
    let label = said_under(item, "label"@);
    let detail = said_under(item, "detail"@);
    handlers::made_of(
        v,
        seq![
            ("key"@, Jv::Str(label + "_"@ + detail)),
            ("icon"@, Jv::Str(icon(under(item, "kind"@), detail))),
            ("label"@, Jv::Str(label)),
            ("displayLabel"@, Jv::Str(label)),
            ("deprecated"@, Jv::Bool(tagged_deprecated(under(item, "tags"@)))),
            ("insertText"@, under(item, "insertText"@)),
            (
                "insertTextFormat"@,
                if json::member(item, "insertTextFormat"@) is Some {
                    under(item, "insertTextFormat"@)
                } else {
                    Jv::Str(""@)
                },
            ),
            ("textEdit"@, under(item, "textEdit"@)),
            ("score"@, Jv::Number(Jn::Float(score(under(item, "score"@))))),
            ("sortText"@, Jv::Str(said_under(item, "sortText"@))),
            ("filterText"@, under(item, "filterText"@)),
            ("server"@, Jv::Str(server)),
            ("backend"@, Jv::Str("lsp"@)),
        ],
    )
}

/// The icon of an item: the name of a kind from 1 to 25 in small letters, else the detail.
pub open spec fn icon(kind: Jv, detail: Seq<char>) -> Seq<char> {
    if exists|k: u64| 1 <= k <= 25 && kind == #[trigger] whole(k) {
        let k = kind->Number_0->PosInt_0;
        kind_names()[k - 1].map_values(|c: char| text::lower_char(c))
    } else {
        detail
    }
}

/// Whether one of several tags is the number one.
pub open spec fn tagged_deprecated(tags: Jv) -> bool {
    tags is Array && tags->Array_0.contains(whole(1))
}

/// The score of an item: the numeral of its number as a float, a thousand where it has none.
pub open spec fn score(v: Jv) -> Seq<char> {
    let read = match v {
        Jv::Number(Jn::PosInt(u)) => float::number_text(text::decimal(u as nat)),
        Jv::Number(Jn::NegInt(i)) => float::number_text(text::signed_decimal(i as int)),
        Jv::Number(Jn::Float(s)) => float::number_text(s),
        _ => None,
    };
    if read is Some {
        read->0
    } else {
        "1000.0"@
    }
}

/// The names of the kinds of completion items, from kind 1 on.
pub open spec fn kind_names() -> Seq<Seq<char>> {
    seq![
        "Text"@,
        "Method"@,
        "Function"@,
        "Constructor"@,
        "Field"@,
        "Variable"@,
        "Class"@,
        "Interface"@,
        "Module"@,
        "Property"@,
        "Unit"@,
        "Value"@,
        "Enum"@,
        "Keyword"@,
        "Snippet"@,
        "Color"@,
        "File"@,
        "Reference"@,
        "Folder"@,
        "EnumMember"@,
        "Constant"@,
        "Struct"@,
        "Event"@,
        "Operator"@,
        "TypeParameter"@,
    ]
}

/// The names of the kinds of symbols, from kind 1 on.
pub open spec fn symbol_names() -> Seq<Seq<char>> {
    seq![
        "File"@,
        "Module"@,
        "Namespace"@,
        "Package"@,
        "Class"@,
        "Method"@,
        "Property"@,
        "Field"@,
        "Constructor"@,
        "Enum"@,
        "Interface"@,
        "Function"@,
        "Variable"@,
        "Constant"@,
        "String"@,
        "Number"@,
        "Boolean"@,
        "Array"@,
        "Object"@,
        "Key"@,
        "Null"@,
        "EnumMember"@,
        "Struct"@,
        "Event"@,
        "Operator"@,
        "TypeParameter"@,
    ]
}

/// Each kind has the name that stands for it; another number has none.
pub proof fn law_kind_names(kind: u64)
    ensures
        1 <= kind <= 25 ==> handlers::kind_text(kind) == kind_names()[kind - 1],
        !(1 <= kind <= 25) ==> handlers::kind_text(kind).len() == 0,
{
    reveal_strlit("");
    let names = handlers::KIND_MAP;
    assert(names@.len() == 26);
    assert(kind_names().len() == 25);
    assert forall|k: int| 1 <= k <= 25 implies #[trigger] names[k]@ == kind_names()[k - 1] by {}
}

/// Each kind of symbol has the name that stands for it, and kind 0 has none.
pub proof fn law_symbol_names(kind: int)
    requires
        0 <= kind < handlers::SYMBOL_MAP@.len(),
    ensures
        handlers::SYMBOL_MAP@.len() == symbol_names().len() + 1,
        kind >= 1 ==> handlers::SYMBOL_MAP[kind]@ == symbol_names()[kind - 1],
        kind == 0 ==> handlers::SYMBOL_MAP[kind]@.len() == 0,
{
    reveal_strlit("");
    let names = handlers::SYMBOL_MAP;
    assert(names@.len() == 27);
    assert forall|k: int| 1 <= k <= 26 implies #[trigger] names[k]@ == symbol_names()[k - 1] by {}
}

/// What tells the names of an item's members apart.
spec fn member_key(s: Seq<char>) -> (nat, char) {
    (s.len(), s[0])
}

proof fn lemma_kind_shown(item: Jv)
    ensures
        handlers::completion::annotation_of(item) == icon(
            under(item, "kind"@),
            said_under(item, "detail"@),
        ),
{
    let kind = under(item, "kind"@);
    let name = handlers::completion::kind_of(item);
    if kind is Number && kind->Number_0 is PosInt {
        let k = kind->Number_0->PosInt_0;
        assert(kind == whole(k));
        law_kind_names(k);
        if 1 <= k <= 25 {
            lemma_kind_name_len(k - 1);
            assert(name =~= kind_names()[k - 1].map_values(|c: char| text::lower_char(c)));
            assert(name.len() > 0);
        } else {
            assert(name.len() == 0);
            assert forall|j: u64| 1 <= j <= 25 implies kind != #[trigger] whole(j) by {}
        }
    } else {
        law_kind_names(0);
        assert(name.len() == 0);
        assert forall|j: u64| 1 <= j <= 25 implies kind != #[trigger] whole(j) by {}
    }
}

proof fn lemma_kind_name_len(i: int)
    requires
        0 <= i < 25,
    ensures
        kind_names()[i].len() > 0,
{
    reveal_strlit("Text");
    reveal_strlit("Method");
    reveal_strlit("Function");
    reveal_strlit("Constructor");
    reveal_strlit("Field");
    reveal_strlit("Variable");
    reveal_strlit("Class");
    reveal_strlit("Interface");
    reveal_strlit("Module");
    reveal_strlit("Property");
    reveal_strlit("Unit");
    reveal_strlit("Value");
    reveal_strlit("Enum");
    reveal_strlit("Keyword");
    reveal_strlit("Snippet");
    reveal_strlit("Color");
    reveal_strlit("File");
    reveal_strlit("Reference");
    reveal_strlit("Folder");
    reveal_strlit("EnumMember");
    reveal_strlit("Constant");
    reveal_strlit("Struct");
    reveal_strlit("Event");
    reveal_strlit("Operator");
    reveal_strlit("TypeParameter");
}

proof fn lemma_shows_item(item: Jv, server: Seq<char>)
    ensures
        shows_item(handlers::completion::candidate(item, server), item, server),
{
    reveal_strlit("key");
    reveal_strlit("icon");
    reveal_strlit("label");
    reveal_strlit("displayLabel");
    reveal_strlit("deprecated");
    reveal_strlit("insertText");
    reveal_strlit("insertTextFormat");
    reveal_strlit("textEdit");
    reveal_strlit("score");
    reveal_strlit("sortText");
    reveal_strlit("filterText");
    reveal_strlit("server");
    reveal_strlit("backend");
    lemma_kind_shown(item);
    let label = said_under(item, "label"@);
    let detail = said_under(item, "detail"@);
    let tags = under(item, "tags"@);
    if tagged_deprecated(tags) {
        let i = choose|i: int| 0 <= i < tags->Array_0.len() && tags->Array_0[i] == whole(1);
        assert(json::as_u64(tags->Array_0[i]) == Some(1u64));
    }
    if handlers::completion::is_deprecated(item) {
        let i = choose|i: int|
            0 <= i < tags->Array_0.len() && json::as_u64(#[trigger] tags->Array_0[i]) == Some(1u64);
        assert(tags->Array_0[i] == whole(1));
    }
    let members = seq![
        ("key"@, Jv::Str(label + "_"@ + detail)),
        ("icon"@, Jv::Str(icon(under(item, "kind"@), detail))),
        ("label"@, Jv::Str(label)),
        ("displayLabel"@, Jv::Str(label)),
        ("deprecated"@, Jv::Bool(tagged_deprecated(under(item, "tags"@)))),
        ("insertText"@, under(item, "insertText"@)),
        (
            "insertTextFormat"@,
            if json::member(item, "insertTextFormat"@) is Some {
                under(item, "insertTextFormat"@)
            } else {
                Jv::Str(""@)
            },
        ),
        ("textEdit"@, under(item, "textEdit"@)),
        ("score"@, Jv::Number(Jn::Float(score(under(item, "score"@))))),
        ("sortText"@, Jv::Str(said_under(item, "sortText"@))),
        ("filterText"@, under(item, "filterText"@)),
        ("server"@, Jv::Str(server)),
        ("backend"@, Jv::Str("lsp"@)),
    ];
    assert(member_key(members[0].0) == (3nat, 'k'));
    assert(member_key(members[1].0) == (4nat, 'i'));
    assert(member_key(members[2].0) == (5nat, 'l'));
    assert(member_key(members[3].0) == (12nat, 'd'));
    assert(member_key(members[4].0) == (10nat, 'd'));
    assert(member_key(members[5].0) == (10nat, 'i'));
    assert(member_key(members[6].0) == (16nat, 'i'));
    assert(member_key(members[7].0) == (8nat, 't'));
    assert(member_key(members[8].0) == (5nat, 's'));
    assert(member_key(members[9].0) == (8nat, 's'));
    assert(member_key(members[10].0) == (10nat, 'f'));
    assert(member_key(members[11].0) == (6nat, 's'));
    assert(member_key(members[12].0) == (7nat, 'b'));
    assert forall|i: int, j: int| 0 <= i < j < members.len() implies (#[trigger] members[i]).0 != (
    #[trigger] members[j]).0 by {
        assert(member_key(members[i].0) != member_key(members[j].0));
    }
    handlers::lemma_made_of(members);
    assert(handlers::completion::candidate(item, server) == handlers::obj(members));
}

/// Every item of a completion list is shown, in order, whatever else the list holds; an array of
/// items is such a list too, and any other response holds no items.
pub proof fn law_every_item_shown(ctx: Response, response: Jv, items: Seq<Jv>)
    requires
        ({
            ||| json::member(response, "items"@) == Some(Jv::Array(items))
            ||| response == Jv::Array(items)
            ||| !(response is Array) && !(under(response, "items"@) is Array) && items.len() == 0
        }),
    ensures
        ({
            let calls = BuiltinHandler::Completion.response(ctx, response);
            &&& calls.len() == 1
            &&& calls[0] is Eval
            &&& calls[0]->method == "lsp-bridge-completion--record-items"@
            &&& calls[0]->args.len() == 7
            &&& calls[0]->args[0] == Jv::Str(ctx.filepath)
            &&& calls[0]->args[1] == Jv::Str(ctx.host)
            &&& calls[0]->args[2] is Array
            &&& calls[0]->args[2]->Array_0.len() == items.len()
            &&& forall|i: int|
                0 <= i < items.len() ==> shows_item(
                    #[trigger] calls[0]->args[2]->Array_0[i],
                    items[i],
                    ctx.server_name,
                )
            &&& calls[0]->args[3] == Jv::Null
            &&& calls[0]->args[4] == Jv::Str(ctx.server_name)
            &&& lists_texts(calls[0]->args[5], ctx.trigger_characters)
            &&& lists_texts(calls[0]->args[6], ctx.server_names)
        }),
{
    let shown = handlers::completion::candidates(
        handlers::completion::items_of(response),
        ctx.server_name,
    );
    assert forall|i: int| 0 <= i < items.len() implies shows_item(
        #[trigger] shown[i],
        items[i],
        ctx.server_name,
    ) by {
        lemma_shows_item(items[i], ctx.server_name);
    }
}

/// Whether a value is an array of exactly these texts.
pub open spec fn lists_texts(v: Jv, all: Seq<Seq<char>>) -> bool {
    &&& v is Array
    &&& v->Array_0.len() == all.len()
    &&& forall|i: int| 0 <= i < all.len() ==> #[trigger] v->Array_0[i] == Jv::Str(all[i])
}

// ---------------------------------------------------------------------------
// Documentation
// ---------------------------------------------------------------------------

/// Several contents give what each of them gives, one after the other.
pub proof fn law_contents_concat(a: Seq<Jv>, b: Seq<Jv>)
    ensures
        hover::hover_parts(Jv::Array(a + b)) == hover::hover_parts(Jv::Array(a))
            + hover::hover_parts(Jv::Array(b)),
        forall|v: Jv| #[trigger]
            hover::hover_parts(Jv::Array(seq![v])) == hover::hover_parts(v),
{
    lemma_all_parts_concat(a, b);
    assert forall|v: Jv| #[trigger]
        hover::hover_parts(Jv::Array(seq![v])) == hover::hover_parts(v) by {
        assert(seq![v].drop_last() =~= Seq::<Jv>::empty());
        assert(hover::hover_all_parts(seq![v].drop_last()) =~= Seq::<Seq<char>>::empty());
        assert(hover::hover_all_parts(seq![v]) =~= hover::hover_parts(v));
    }
}

proof fn lemma_all_parts_concat(a: Seq<Jv>, b: Seq<Jv>)
    ensures
        hover::hover_all_parts(a + b) == hover::hover_all_parts(a) + hover::hover_all_parts(b),
    decreases b.len(),
{
    if b.len() == 0 {
        assert(a + b =~= a);
        assert(hover::hover_all_parts(b) =~= Seq::<Seq<char>>::empty());
    } else {
        assert((a + b).drop_last() =~= a + b.drop_last());
        assert((a + b).last() == b.last());
        lemma_all_parts_concat(a, b.drop_last());
    }
    assert(hover::hover_all_parts(a + b) =~= hover::hover_all_parts(a) + hover::hover_all_parts(b));
}

/// A text that opens a code block stays as it is, and another is put into one.
pub proof fn law_plain_content(s: Seq<char>)
    ensures
        (exists|rest: Seq<char>| s == "```"@ + rest) ==> hover::hover_parts(Jv::Str(s)) == seq![s],
        (forall|rest: Seq<char>| s != "```"@ + rest) ==> hover::hover_parts(Jv::Str(s)) == seq![
            "```text\n"@ + s + "\n```"@,
        ],
{
    reveal_strlit("```");
    reveal_strlit("text");
    reveal_strlit("\n");
    reveal_strlit("```text\n");
    assert("```"@ + "text"@ + "\n"@ =~= "```text\n"@);
    if text::starts_with(s, "```"@) {
        assert(s =~= "```"@ + s.skip(3));
    } else {
        assert forall|rest: Seq<char>| s != "```"@ + rest by {
            if s == "```"@ + rest {
                assert(s.take(3) =~= "```"@);
            }
        }
    }
}

/// Markup gives its value: as it is where its kind is markdown or plain text, in a code block of
/// its kind or of its language else. Without either it gives nothing.
pub proof fn law_marked_content(v: Jv, kind: Seq<char>)
    requires
        v is Object,
    ensures
        ({
            let value = said_under(v, "value"@);
            &&& json::member(v, "kind"@) == Some(Jv::Str(kind)) && (kind == "markdown"@ || kind
                == "plaintext"@) ==> hover::hover_parts(v) == seq![value]
            &&& json::member(v, "kind"@) == Some(Jv::Str(kind)) && kind != "markdown"@ && kind
                != "plaintext"@ ==> hover::hover_parts(v) == seq![
                "```"@ + kind + "\n"@ + value + "\n```"@,
            ]
            &&& !(under(v, "kind"@) is Str) && json::member(v, "language"@) == Some(Jv::Str(kind))
                ==> hover::hover_parts(v) == seq!["```"@ + kind + "\n"@ + value + "\n```"@]
            &&& !(under(v, "kind"@) is Str) && !(under(v, "language"@) is Str)
                ==> hover::hover_parts(v).len() == 0
        }),
{
}

/// The documentation of a response is shown with all its parts, each on lines of its own; empty
/// contents, or none, are reported.
pub proof fn law_documentation_shown(ctx: Response, response: Jv, contents: Jv)
    requires
        json::member(response, "contents"@) == Some(contents),
    ensures
        ({
            let calls = BuiltinHandler::Hover.response(ctx, response);
            let empty = match contents {
                Jv::Str(s) => s == ""@,
                Jv::Array(a) => a.len() == 0,
                Jv::Object(_) => said_under(contents, "value"@) == ""@,
                _ => true,
            };
            &&& empty ==> shows_once(calls, "No documentation available."@)
            &&& !empty ==> calls_once(
                calls,
                "lsp-bridge-popup-documentation--callback"@,
                seq![Jv::Str(text::joined(hover::hover_parts(contents), "\n"@))],
            )
        }),
{
    reveal_strlit("");
    match contents {
        Jv::Str(s) => {
            if s.len() == 0 {
                assert(s =~= ""@);
            }
        },
        Jv::Object(_) => {
            if said_under(contents, "value"@).len() == 0 {
                assert(said_under(contents, "value"@) =~= ""@);
            }
        },
        _ => {},
    }
}

// ---------------------------------------------------------------------------
// Signatures
// ---------------------------------------------------------------------------

/// Whether the signature at a position is the one to show: the active one, or the first where
/// none is named or the number is out of range.
pub open spec fn is_active(response: Jv, sigs: Seq<Jv>, k: int) -> bool {
    &&& 0 <= k < sigs.len()
    &&& match json::member(response, "activeSignature"@) {
        Some(Jv::Number(Jn::PosInt(n))) => if n < sigs.len() {
            k == n
        } else {
            k == 0
        },
        _ => k == 0,
    }
}

/// Whether a text is how a parameter is shown. The active one is shown with its whole label,
/// another up to its first colon. A label of two offsets stands for the bytes of the signature's
/// label between them.
pub open spec fn shows_parameter(shown: Seq<char>, param: Jv, active: bool, signature: Jv) -> bool {
    match json::member(param, "label"@) {
        Some(Jv::Str(s)) => {
            &&& active ==> shown == s
            &&& !active ==> ({
                &&& shown.len() <= s.len()
                &&& shown == s.take(shown.len() as int)
                &&& !shown.contains(':')
                &&& shown.len() < s.len() ==> s[shown.len() as int] == ':'
            })
        },
        Some(Jv::Array(a)) => if a.len() == 2 {
            let bytes = encode_utf8(said_under(signature, "label"@));
            let start = offset(a[0]);
            let stop = if offset(a[1]) <= bytes.len() {
                offset(a[1])
            } else {
                bytes.len() as int
            };
            if start <= stop && is_char_boundary(bytes, start) && is_char_boundary(bytes, stop) {
                encode_utf8(shown) == bytes.subrange(start, stop)
            } else {
                shown.len() == 0
            }
        } else {
            shown.len() == 0
        },
        _ => shown.len() == 0,
    }
}

/// The whole number that an offset is; zero for another value.
pub open spec fn offset(v: Jv) -> int {
    match v {
        Jv::Number(Jn::PosInt(n)) => n as int,
        _ => 0,
    }
}

proof fn lemma_before_colon(s: Seq<char>)
    ensures
        ({
            let shown = signature_help::before_colon(s);
            &&& shown.len() <= s.len()
            &&& shown == s.take(shown.len() as int)
            &&& !shown.contains(':')
            &&& shown.len() < s.len() ==> s[shown.len() as int] == ':'
        }),
    decreases s.len(),
{
    let shown = signature_help::before_colon(s);
    if s.len() == 0 || s[0] == ':' {
        assert(shown =~= s.take(0));
    } else {
        lemma_before_colon(s.skip(1));
        let rest = signature_help::before_colon(s.skip(1));
        assert(shown =~= s.take(shown.len() as int)) by {
            assert forall|i: int| 0 <= i < shown.len() implies shown[i] == s[i] by {
                if i > 0 {
                    assert(shown[i] == rest[i - 1]);
                    assert(rest[i - 1] == s.skip(1).take(rest.len() as int)[i - 1]);
                }
            }
        }
        if shown.contains(':') {
            let i = choose|i: int| 0 <= i < shown.len() && shown[i] == ':';
            assert(i > 0);
            assert(rest[i - 1] == ':');
            assert(rest.contains(':'));
        }
    }
}

proof fn lemma_shows_parameter(param: Jv, active: bool, signature: Jv)
    ensures
        shows_parameter(
            signature_help::argument_text(param, active, signature),
            param,
            active,
            signature,
        ),
{
    let shown = signature_help::argument_text(param, active, signature);
    match json::member(param, "label"@) {
        Some(Jv::Str(s)) => {
            lemma_before_colon(s);
        },
        Some(Jv::Array(a)) => {
            reveal_strlit("");
            let label = said_under(signature, "label"@);
            let bytes = encode_utf8(label);
            encode_utf8_valid_utf8(label);
            if a.len() == 2 {
                let start = offset(a[0]);
                let stop = if offset(a[1]) <= bytes.len() {
                    offset(a[1])
                } else {
                    bytes.len() as int
                };
                if json::as_str(under(signature, "label"@)) is Some {
                    if start <= stop && is_char_boundary(bytes, start) && is_char_boundary(
                        bytes,
                        stop,
                    ) {
                        lemma_slice_decodes(bytes, start, stop);
                    }
                } else {
                    assert(label =~= Seq::<char>::empty());
                    assert(bytes =~= Seq::<u8>::empty());
                    assert(shown =~= Seq::<char>::empty());
                    assert(encode_utf8(shown) =~= Seq::<u8>::empty());
                    if start <= stop {
                        assert(bytes.subrange(start, stop) =~= Seq::<u8>::empty());
                    }
                }
            }
        },
        _ => {},
    }
}

/// The bytes between two character boundaries are those of a text.
proof fn lemma_slice_decodes(bytes: Seq<u8>, start: int, end: int)
    requires
        valid_utf8(bytes),
        0 <= start <= end <= bytes.len(),
        is_char_boundary(bytes, start),
        is_char_boundary(bytes, end),
    ensures
        encode_utf8(decode_utf8(bytes.subrange(start, end))) == bytes.subrange(start, end),
{
    let front = bytes.subrange(0, end);
    valid_utf8_split(bytes, end);
    signature_help::lemma_boundary_prefix(bytes, start, end);
    valid_utf8_split(front, start);
    assert(front.subrange(start, end) =~= bytes.subrange(start, end));
    decode_utf8_encode_utf8(bytes.subrange(start, end));
}

/// The signature that is shown is the active one: its label, and each of its parameters in order,
/// with the number of the active one.
pub proof fn law_active_signature_shown(
    ctx: Response,
    response: Jv,
    sigs: Seq<Jv>,
    k: int,
    params: Seq<Jv>,
)
    requires
        json::member(response, "signatures"@) == Some(Jv::Array(sigs)),
        is_active(response, sigs, k),
        json::member(sigs[k], "parameters"@) == Some(Jv::Array(params)),
    ensures
        ({
            let calls = BuiltinHandler::SignatureHelp.response(ctx, response);
            let active = match json::member(response, "activeParameter"@) {
                Some(Jv::Number(Jn::PosInt(n))) => n,
                _ => 0,
            };
            let shown = signature_help::argument_texts(params, active, sigs[k]);
            &&& calls_once(
                calls,
                "lsp-bridge-signature-help--update"@,
                seq![
                    Jv::Str(text::joined(shown, ", "@)),
                    whole(active),
                    Jv::Str(said_under(sigs[k], "label"@)),
                ],
            )
            &&& shown.len() == params.len()
            &&& forall|i: int|
                0 <= i < params.len() ==> shows_parameter(
                    #[trigger] shown[i],
                    params[i],
                    i == active,
                    sigs[k],
                )
        }),
{
    let active = match json::member(response, "activeParameter"@) {
        Some(Jv::Number(Jn::PosInt(n))) => n,
        _ => 0,
    };
    let shown = signature_help::argument_texts(params, active, sigs[k]);
    assert forall|i: int| 0 <= i < params.len() implies shows_parameter(
        #[trigger] shown[i],
        params[i],
        i == active,
        sigs[k],
    ) by {
        lemma_shows_parameter(params[i], i == active, sigs[k]);
    }
}

/// Without signatures, or without a list of parameters of the active one, nothing is shown.
pub proof fn law_no_signature_no_call(ctx: Response, response: Jv, sigs: Seq<Jv>, k: int)
    requires
        ({
            ||| !(under(response, "signatures"@) is Array)
            ||| json::member(response, "signatures"@) == Some(Jv::Array(Seq::<Jv>::empty()))
            ||| json::member(response, "signatures"@) == Some(Jv::Array(sigs)) && is_active(
                response,
                sigs,
                k,
            ) && !(under(sigs[k], "parameters"@) is Array)
        }),
    ensures
        BuiltinHandler::SignatureHelp.response(ctx, response).len() == 0,
{
}

// ---------------------------------------------------------------------------
// The handlers
// ---------------------------------------------------------------------------

/// A handler: the name that Emacs knows it by, the method that it asks the server for, whether a
/// change of the file or the cursor makes its response stale, and whether it names the document.
pub struct Row {
    pub handler: BuiltinHandler,
    pub name: Seq<char>,
    pub method: Seq<char>,
    pub cancels: bool,
    pub names_document: bool,
}

/// All handlers.
pub open spec fn rows() -> Seq<Row> {
    seq![
        Row {
            handler: BuiltinHandler::Completion,
            name: "completion"@,
            method: "textDocument/completion"@,
            cancels: true,
            names_document: true,
        },
        Row {
            handler: BuiltinHandler::CompletionItem,
            name: "completion_item_resolve"@,
            method: "completionItem/resolve"@,
            cancels: false,
            names_document: false,
        },
        Row {
            handler: BuiltinHandler::Hover,
            name: "hover"@,
            method: "textDocument/hover"@,
            cancels: false,
            names_document: true,
        },
        Row {
            handler: BuiltinHandler::FindDefine,
            name: "find_define"@,
            method: "textDocument/definition"@,
            cancels: true,
            names_document: true,
        },
        Row {
            handler: BuiltinHandler::FindTypeDefine,
            name: "find_type_define"@,
            method: "textDocument/typeDefinition"@,
            cancels: true,
            names_document: true,
        },
        Row {
            handler: BuiltinHandler::FindImplementation,
            name: "find_implementation"@,
            method: "textDocument/implementation"@,
            cancels: true,
            names_document: true,
        },
        Row {
            handler: BuiltinHandler::FindReferences,
            name: "find_references"@,
            method: "textDocument/references"@,
            cancels: true,
            names_document: true,
        },
        Row {
            handler: BuiltinHandler::CodeAction,
            name: "code_action"@,
            method: "textDocument/codeAction"@,
            cancels: true,
            names_document: true,
        },
        Row {
            handler: BuiltinHandler::Formatting,
            name: "formatting"@,
            method: "textDocument/formatting"@,
            cancels: true,
            names_document: true,
        },
        Row {
            handler: BuiltinHandler::RangeFormatting,
            name: "rangeFormatting"@,
            method: "textDocument/rangeFormatting"@,
            cancels: true,
            names_document: true,
        },
        Row {
            handler: BuiltinHandler::PrepareRename,
            name: "prepare_rename"@,
            method: "textDocument/prepareRename"@,
            cancels: false,
            names_document: true,
        },
        Row {
            handler: BuiltinHandler::Rename,
            name: "rename"@,
            method: "textDocument/rename"@,
            cancels: false,
            names_document: true,
        },
        Row {
            handler: BuiltinHandler::SignatureHelp,
            name: "signature_help"@,
            method: "textDocument/signatureHelp"@,
            cancels: true,
            names_document: true,
        },
        Row {
            handler: BuiltinHandler::InlayHint,
            name: "inlay_hint"@,
            method: "textDocument/inlayHint"@,
            cancels: true,
            names_document: true,
        },
        Row {
            handler: BuiltinHandler::SemanticTokens,
            name: "semantic_tokens"@,
            method: "textDocument/semanticTokens/full"@,
            cancels: false,
            names_document: true,
        },
        Row {
            handler: BuiltinHandler::Diagnostic,
            name: "diagnostic"@,
            method: "textDocument/diagnostic"@,
            cancels: false,
            names_document: true,
        },
        Row {
            handler: BuiltinHandler::DocumentSymbol,
            name: "document_symbol"@,
            method: "textDocument/documentSymbol"@,
            cancels: false,
            names_document: true,
        },
        Row {
            handler: BuiltinHandler::IMenu,
            name: "imenu"@,
            method: "textDocument/documentSymbol"@,
            cancels: false,
            names_document: true,
        },
        Row {
            handler: BuiltinHandler::Breadcrumb,
            name: "breadcrumb"@,
            method: "textDocument/documentSymbol"@,
            cancels: false,
            names_document: true,
        },
        Row {
            handler: BuiltinHandler::DocumentHighlight,
            name: "document_highlight"@,
            method: "textDocument/documentHighlight"@,
            cancels: true,
            names_document: true,
        },
        Row {
            handler: BuiltinHandler::ExecuteCommand,
            name: "execute_command"@,
            method: "workspace/executeCommand"@,
            cancels: false,
            names_document: false,
        },
        Row {
            handler: BuiltinHandler::WorkspaceSymbol,
            name: "workspace_symbol"@,
            method: "workspace/symbol"@,
            cancels: false,
            names_document: true,
        },
        Row {
            handler: BuiltinHandler::PrepareCallHierarchyIncoming,
            name: "prepare_call_hierarchy_incoming"@,
            method: "textDocument/prepareCallHierarchy"@,
            cancels: false,
            names_document: true,
        },
        Row {
            handler: BuiltinHandler::PrepareCallHierarchyOutgoing,
            name: "prepare_call_hierarchy_outgoing"@,
            method: "textDocument/prepareCallHierarchy"@,
            cancels: false,
            names_document: true,
        },
        Row {
            handler: BuiltinHandler::CallHierarchyIncoming,
            name: "call_hierarchy_incoming"@,
            method: "callHierarchy/incomingCalls"@,
            cancels: false,
            names_document: false,
        },
        Row {
            handler: BuiltinHandler::CallHierarchyOutgoing,
            name: "call_hierarchy_outgoing"@,
            method: "callHierarchy/outgoingCalls"@,
            cancels: false,
            names_document: false,
        },
    ]
}

/// The handlers are those of the rows, in their order, each as its row says.
pub proof fn law_handlers_of_rows(i: int)
    requires
        0 <= i < rows().len(),
    ensures
        registry::all_handlers().len() == rows().len(),
        registry::all_handlers()[i] == rows()[i].handler,
        rows()[i].handler.name_text() == rows()[i].name,
        rows()[i].handler.method_text() == rows()[i].method,
        rows()[i].handler.cancels() == rows()[i].cancels,
        rows()[i].handler.sends_uri() == rows()[i].names_document,
{
    if i == 0 {
        assert(rows()[i].handler == BuiltinHandler::Completion);
    }
    if i == 1 {
        assert(rows()[i].handler == BuiltinHandler::CompletionItem);
    }
    if i == 2 {
        assert(rows()[i].handler == BuiltinHandler::Hover);
    }
    if i == 3 {
        assert(rows()[i].handler == BuiltinHandler::FindDefine);
    }
    if i == 4 {
        assert(rows()[i].handler == BuiltinHandler::FindTypeDefine);
    }
    if i == 5 {
        assert(rows()[i].handler == BuiltinHandler::FindImplementation);
    }
    if i == 6 {
        assert(rows()[i].handler == BuiltinHandler::FindReferences);
    }
    if i == 7 {
        assert(rows()[i].handler == BuiltinHandler::CodeAction);
    }
    if i == 8 {
        assert(rows()[i].handler == BuiltinHandler::Formatting);
    }
    if i == 9 {
        assert(rows()[i].handler == BuiltinHandler::RangeFormatting);
    }
    if i == 10 {
        assert(rows()[i].handler == BuiltinHandler::PrepareRename);
    }
    if i == 11 {
        assert(rows()[i].handler == BuiltinHandler::Rename);
    }
    if i == 12 {
        assert(rows()[i].handler == BuiltinHandler::SignatureHelp);
    }
    if i == 13 {
        assert(rows()[i].handler == BuiltinHandler::InlayHint);
    }
    if i == 14 {
        assert(rows()[i].handler == BuiltinHandler::SemanticTokens);
    }
    if i == 15 {
        assert(rows()[i].handler == BuiltinHandler::Diagnostic);
    }
    if i == 16 {
        assert(rows()[i].handler == BuiltinHandler::DocumentSymbol);
    }
    if i == 17 {
        assert(rows()[i].handler == BuiltinHandler::IMenu);
    }
    if i == 18 {
        assert(rows()[i].handler == BuiltinHandler::Breadcrumb);
    }
    if i == 19 {
        assert(rows()[i].handler == BuiltinHandler::DocumentHighlight);
    }
    if i == 20 {
        assert(rows()[i].handler == BuiltinHandler::ExecuteCommand);
    }
    if i == 21 {
        assert(rows()[i].handler == BuiltinHandler::WorkspaceSymbol);
    }
    if i == 22 {
        assert(rows()[i].handler == BuiltinHandler::PrepareCallHierarchyIncoming);
    }
    if i == 23 {
        assert(rows()[i].handler == BuiltinHandler::PrepareCallHierarchyOutgoing);
    }
    if i == 24 {
        assert(rows()[i].handler == BuiltinHandler::CallHierarchyIncoming);
    }
    if i == 25 {
        assert(rows()[i].handler == BuiltinHandler::CallHierarchyOutgoing);
    }
}

/// Looking for a name finds the first handler that has it, and nothing only where none has it.
pub proof fn law_handler_found(all: Seq<BuiltinHandler>, name: Seq<char>, i: int)
    ensures
        0 <= i < all.len() && all[i].name_text() == name && (forall|j: int|
            0 <= j < i ==> (#[trigger] all[j]).name_text() != name) ==> registry::handler_named(
            all,
            name,
        ) == Some(all[i]),
        (forall|j: int| 0 <= j < all.len() ==> (#[trigger] all[j]).name_text() != name)
            ==> registry::handler_named(all, name) is None,
    decreases all.len(),
{
    if all.len() > 0 && all[0].name_text() != name {
        let rest = all.skip(1);
        law_handler_found(rest, name, i - 1);
        assert forall|j: int| 0 <= j < rest.len() implies #[trigger] rest[j] == all[j + 1] by {}
        if i > 0 && forall|j: int| 0 <= j < i ==> (#[trigger] all[j]).name_text() != name {
            assert forall|j: int| 0 <= j < i - 1 && j < rest.len() implies (
            #[trigger] rest[j]).name_text() != name by {
                assert(all[j + 1].name_text() != name);
            }
        }
    }
}

/// A response is wanted exactly where no newer request was recorded and, for a handler that changes
/// cancel, neither the file nor the cursor changed since.
pub proof fn law_staleness(
    state: handlers::HandlerState,
    id: i64,
    cancel: bool,
    file_time: u64,
    cursor_time: u64,
)
    ensures
        id != state.latest_request_id ==> !state.fresh(id, cancel, file_time, cursor_time),
        id == state.latest_request_id && !cancel ==> state.fresh(
            id,
            cancel,
            file_time,
            cursor_time,
        ),
        cancel && (file_time != state.last_change_file_time || cursor_time
            != state.last_change_cursor_time) ==> !state.fresh(id, cancel, file_time, cursor_time),
        id == state.latest_request_id && file_time == state.last_change_file_time && cursor_time
            == state.last_change_cursor_time ==> state.fresh(id, cancel, file_time, cursor_time),
{
}

} // verus!
