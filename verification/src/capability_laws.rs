//! What the capabilities owe: what the client announces, how a config overrides it, and which flags
//! a server's capabilities set.

use crate::capabilities;
use crate::capabilities::TextDocumentSyncKind;
use crate::handlers;
use crate::handlers::laws;
use crate::json;
use crate::json::Jv;
use vstd::prelude::*;

verus! {

// ---------------------------------------------------------------------------
// Flags
// ---------------------------------------------------------------------------

/// Whether a provider is announced: by true, or by anything else but false and null.
pub open spec fn announced(v: Jv, key: Seq<char>) -> bool {
    match json::member(v, key) {
        None => false,
        Some(Jv::Null) => false,
        Some(Jv::Bool(b)) => b,
        Some(_) => true,
    }
}

/// Whether something is said under a key, be it only false.
pub open spec fn mentioned(v: Jv, key: Seq<char>) -> bool {
    !(laws::under(v, key) is Null)
}

/// Whether a switch is on.
pub open spec fn switched_on(v: Jv, key: Seq<char>) -> bool {
    json::member(v, key) == Some(Jv::Bool(true))
}

/// Each flag is set by the provider that it is named after, and by no other.
pub proof fn law_flags_follow_providers(v: Jv)
    ensures
        ({
            let flags = capabilities::flags_of(capabilities::caps_of(v));
            &&& flags.code_action == announced(v, "codeActionProvider"@)
            &&& flags.code_format == announced(v, "documentFormattingProvider"@)
            &&& flags.range_format == announced(v, "documentRangeFormattingProvider"@)
            &&& flags.document_highlight == announced(v, "documentHighlightProvider"@)
            &&& flags.workspace_symbol == announced(v, "workspaceSymbolProvider"@)
            &&& flags.inlay_hint == announced(v, "inlayHintProvider"@)
            &&& flags.signature_help == mentioned(v, "signatureHelpProvider"@)
            &&& flags.semantic_tokens == mentioned(v, "semanticTokensProvider"@)
            &&& flags.diagnostic == mentioned(v, "diagnosticProvider"@)
        }),
{
}

/// Items can be resolved where the provider of completions says so, and its trigger characters
/// are the strings that it lists, none where it lists none.
pub proof fn law_completion_flags(v: Jv, characters: Seq<Jv>)
    ensures
        ({
            let flags = capabilities::flags_of(capabilities::caps_of(v));
            let provider = laws::under(v, "completionProvider"@);
            &&& flags.completion_resolve == switched_on(provider, "resolveProvider"@)
            &&& json::member(provider, "triggerCharacters"@) == Some(Jv::Array(characters))
                ==> flags.completion_trigger_characters == capabilities::strings_of(characters)
            &&& !(laws::under(provider, "triggerCharacters"@) is Array)
                ==> flags.completion_trigger_characters.len() == 0
        }),
{
}

/// A rename can be prepared where the provider is true, or an object that says so.
pub proof fn law_rename_flag(v: Jv)
    ensures
        capabilities::flags_of(capabilities::caps_of(v)).rename_prepare == (json::member(
            v,
            "renameProvider"@,
        ) == Some(Jv::Bool(true)) || switched_on(
            laws::under(v, "renameProvider"@),
            "prepareProvider"@,
        )),
{
}

/// What a number says of how changes reach the server.
pub open spec fn kind_numbered(n: u64, kind: TextDocumentSyncKind) -> bool {
    &&& n == 0 ==> kind == TextDocumentSyncKind::NONE
    &&& n == 1 ==> kind == TextDocumentSyncKind::FULL
    &&& n == 2 ==> kind == TextDocumentSyncKind::INCREMENTAL
}

/// How changes reach the server is said by a number, or by the number under `change`; where
/// neither is there, by what changed.
pub proof fn law_change_flag(v: Jv, n: u64)
    ensures
        ({
            let kind = capabilities::flags_of(capabilities::caps_of(v)).sync_kind;
            let sync = laws::under(v, "textDocumentSync"@);
            &&& n <= 2 && sync == laws::whole(n) ==> kind_numbered(n, kind)
            &&& n <= 2 && json::member(sync, "change"@) == Some(laws::whole(n)) ==> kind_numbered(
                n,
                kind,
            )
            &&& 2 < n <= i64::MAX && sync == laws::whole(n) ==> kind == TextDocumentSyncKind::Other(
                n as i64,
            )
            &&& !(sync is Number) && !(laws::under(sync, "change"@) is Number) ==> kind
                == TextDocumentSyncKind::INCREMENTAL
        }),
{
}

/// Saves reach the server unless it says no, and carry the text only where it says so.
pub proof fn law_save_flags(v: Jv)
    ensures
        ({
            let flags = capabilities::flags_of(capabilities::caps_of(v));
            let sync = laws::under(v, "textDocumentSync"@);
            let save = laws::under(sync, "save"@);
            &&& flags.save == (save != Jv::Bool(false))
            &&& flags.save_include_text == switched_on(save, "includeText"@)
        }),
{
}

/// The capabilities of a server are those under `capabilities` in its first answer, where they can
/// be read.
pub proof fn law_capabilities_read(result: Jv)
    ensures
        match json::member(result, "capabilities"@) {
            Some(told) => match capabilities::lsp_capabilities(told) {
                Some(read) => capabilities::server_caps(result) == Some(
                    capabilities::caps_of(read),
                ),
                None => capabilities::server_caps(result) is None,
            },
            None => capabilities::server_caps(result) is None,
        },
{
}

// ---------------------------------------------------------------------------
// Overrides
// ---------------------------------------------------------------------------

/// A value that is no object replaces what it is merged into, and so does an object that is merged
/// into no object.
pub proof fn law_merge_replaces(target: Jv, source: Jv)
    requires
        !(target is Object) || !(source is Object),
    ensures
        capabilities::merged(target, source) == source,
{
}

/// An object that is merged into an object leaves an object.
pub proof fn law_merge_of_objects(t: Seq<(Seq<char>, Jv)>, s: Seq<(Seq<char>, Jv)>, key: Seq<char>)
    requires
        forall|i: int| 0 <= i < s.len() ==> (#[trigger] s[i]).0 != key,
    ensures
        capabilities::merged(Jv::Object(t), Jv::Object(s)) is Object,
        json::member(capabilities::merged(Jv::Object(t), Jv::Object(s)), key) == json::member(
            Jv::Object(t),
            key,
        ),
{
    capabilities::law_merge_keeps_others(t, s, key);
}

/// Overrides are merged in where they are an object and leave readable capabilities, and change
/// nothing else.
pub proof fn law_overrides(base: Jv, overrides: Jv)
    ensures
        !(overrides is Object) ==> capabilities::overridden(base, overrides) == base,
        overrides is Object ==> capabilities::overridden(base, overrides)
            == if capabilities::reads_as_client(capabilities::merged(base, overrides)) {
            capabilities::merged(base, overrides)
        } else {
            base
        },
{
}

// ---------------------------------------------------------------------------
// The client
// ---------------------------------------------------------------------------

/// Whether a value says whether a capability can be registered later.
pub open spec fn registers(v: Jv, later: bool) -> bool {
    handlers::made_of(v, seq![("dynamicRegistration"@, Jv::Bool(later))])
}

/// What tells the names of capabilities apart.
spec fn capability_key(s: Seq<char>) -> (nat, char, char) {
    (s.len(), s[0], s[2])
}

/// The client announces what concerns documents, the window and the workspace.
pub proof fn law_client_announces(enable: bool)
    ensures
        ({
            let client = capabilities::client_json(enable);
            let window = laws::under(client, "window"@);
            &&& handlers::made_of(
                client,
                seq![
                    ("textDocument"@, capabilities::text_document_json(enable)),
                    ("window"@, window),
                    ("workspace"@, capabilities::workspace_json()),
                ],
            )
            &&& handlers::made_of(window, seq![("workDoneProgress"@, Jv::Bool(true))])
        }),
{
    reveal_strlit("textDocument");
    reveal_strlit("window");
    reveal_strlit("workspace");
    assert("textDocument"@.len() == 12 && "window"@.len() == 6 && "workspace"@.len() == 9);
    let window = handlers::obj(seq![("workDoneProgress"@, Jv::Bool(true))]);
    handlers::lemma_made_of_one("workDoneProgress"@, Jv::Bool(true));
    let members = seq![
        ("textDocument"@, capabilities::text_document_json(enable)),
        ("window"@, window),
        ("workspace"@, capabilities::workspace_json()),
    ];
    handlers::lemma_made_of(members);
    assert(members[1].0 == "window"@);
}

/// What the client announces for the workspace.
pub proof fn law_client_workspace()
    ensures
        ({
            let v = capabilities::workspace_json();
            let config = laws::under(v, "didChangeConfiguration"@);
            let files = laws::under(v, "didChangeWatchedFiles"@);
            let symbol = laws::under(v, "symbol"@);
            let resolved = laws::under(symbol, "resolveSupport"@);
            &&& handlers::made_of(
                v,
                seq![
                    ("applyEdit"@, Jv::Bool(true)),
                    ("configuration"@, Jv::Bool(true)),
                    ("didChangeConfiguration"@, config),
                    ("didChangeWatchedFiles"@, files),
                    ("symbol"@, symbol),
                    ("workspaceFolders"@, Jv::Bool(true)),
                ],
            )
            &&& registers(config, true)
            &&& handlers::made_of(
                files,
                seq![
                    ("dynamicRegistration"@, Jv::Bool(true)),
                    ("relativePatternSupport"@, Jv::Bool(true)),
                ],
            )
            &&& handlers::made_of(symbol, seq![("resolveSupport"@, resolved)])
            &&& handlers::made_of(resolved, seq![("properties"@, Jv::Array(Seq::empty()))])
        }),
{
    reveal_strlit("applyEdit");
    reveal_strlit("configuration");
    reveal_strlit("didChangeConfiguration");
    reveal_strlit("didChangeWatchedFiles");
    reveal_strlit("symbol");
    reveal_strlit("workspaceFolders");
    reveal_strlit("dynamicRegistration");
    reveal_strlit("relativePatternSupport");
    assert("applyEdit"@.len() == 9 && "configuration"@.len() == 13
        && "didChangeConfiguration"@.len() == 22 && "didChangeWatchedFiles"@.len() == 21
        && "symbol"@.len() == 6 && "workspaceFolders"@.len() == 16);
    assert("dynamicRegistration"@.len() != "relativePatternSupport"@.len());
    handlers::lemma_made_of_one("dynamicRegistration"@, Jv::Bool(true));
    handlers::lemma_made_of_two(
        "dynamicRegistration"@,
        Jv::Bool(true),
        "relativePatternSupport"@,
        Jv::Bool(true),
    );
    handlers::lemma_made_of_one("properties"@, Jv::Array(Seq::empty()));
    let resolved = handlers::obj(seq![("properties"@, Jv::Array(Seq::<Jv>::empty()))]);
    handlers::lemma_made_of_one("resolveSupport"@, resolved);
    let members = seq![
        ("applyEdit"@, Jv::Bool(true)),
        ("configuration"@, Jv::Bool(true)),
        ("didChangeConfiguration"@, capabilities::dynamic(true)),
        (
            "didChangeWatchedFiles"@,
            handlers::obj(
                seq![
                    ("dynamicRegistration"@, Jv::Bool(true)),
                    ("relativePatternSupport"@, Jv::Bool(true)),
                ],
            ),
        ),
        ("symbol"@, handlers::obj(seq![("resolveSupport"@, resolved)])),
        ("workspaceFolders"@, Jv::Bool(true)),
    ];
    handlers::lemma_made_of(members);
    assert(members[2].0 == "didChangeConfiguration"@);
    assert(members[3].0 == "didChangeWatchedFiles"@);
    assert(members[4].0 == "symbol"@);
}

/// What the client announces for diagnostics that the server sends: everything that can be
/// switched is as asked for, and both tags are known.
pub proof fn law_client_diagnostics(enable: bool)
    ensures
        ({
            let v = capabilities::diagnostics_json(enable);
            let tags = laws::under(v, "tagSupport"@);
            &&& handlers::made_of(
                v,
                seq![
                    ("codeDescriptionSupport"@, Jv::Bool(enable)),
                    ("dataSupport"@, Jv::Bool(enable)),
                    ("relatedInformation"@, Jv::Bool(enable)),
                    ("tagSupport"@, tags),
                    ("versionSupport"@, Jv::Bool(enable)),
                ],
            )
            &&& handlers::made_of(
                tags,
                seq![("valueSet"@, Jv::Array(seq![laws::whole(1), laws::whole(2)]))],
            )
        }),
{
    reveal_strlit("codeDescriptionSupport");
    reveal_strlit("dataSupport");
    reveal_strlit("relatedInformation");
    reveal_strlit("tagSupport");
    reveal_strlit("versionSupport");
    assert("codeDescriptionSupport"@.len() == 22 && "dataSupport"@.len() == 11
        && "relatedInformation"@.len() == 18 && "tagSupport"@.len() == 10
        && "versionSupport"@.len() == 14);
    let both = Jv::Array(seq![laws::whole(1), laws::whole(2)]);
    handlers::lemma_made_of_one("valueSet"@, both);
    let members = seq![
        ("codeDescriptionSupport"@, Jv::Bool(enable)),
        ("dataSupport"@, Jv::Bool(enable)),
        ("relatedInformation"@, Jv::Bool(enable)),
        ("tagSupport"@, handlers::obj(seq![("valueSet"@, both)])),
        ("versionSupport"@, Jv::Bool(enable)),
    ];
    handlers::lemma_made_of(members);
    assert(members[3].0 == "tagSupport"@);
}

/// What the client announces for completion: snippets, deprecated items, and which properties of
/// an item may come later.
pub proof fn law_client_completion()
    ensures
        ({
            let v = capabilities::completion_json();
            let item = laws::under(v, "completionItem"@);
            let resolved = laws::under(item, "resolveSupport"@);
            let tags = laws::under(item, "tagSupport"@);
            &&& handlers::made_of(v, seq![("completionItem"@, item)])
            &&& handlers::made_of(
                item,
                seq![
                    ("deprecatedSupport"@, Jv::Bool(true)),
                    ("resolveSupport"@, resolved),
                    ("snippetSupport"@, Jv::Bool(true)),
                    ("tagSupport"@, tags),
                ],
            )
            &&& handlers::made_of(
                resolved,
                seq![("properties"@, laws::under(resolved, "properties"@))],
            )
            &&& laws::lists_texts(
                laws::under(resolved, "properties"@),
                seq!["documentation"@, "detail"@, "additionalTextEdits"@],
            )
            &&& handlers::made_of(tags, seq![("valueSet"@, Jv::Array(seq![laws::whole(1)]))])
        }),
{
    reveal_strlit("deprecatedSupport");
    reveal_strlit("resolveSupport");
    reveal_strlit("snippetSupport");
    reveal_strlit("tagSupport");
    assert("deprecatedSupport"@.len() == 17 && "resolveSupport"@.len() == 14
        && "snippetSupport"@.len() == 14 && "tagSupport"@.len() == 10);
    assert("resolveSupport"@[0] == 'r' && "snippetSupport"@[0] == 's');
    let properties = capabilities::texts_array(
        seq!["documentation"@, "detail"@, "additionalTextEdits"@],
    );
    let resolved = handlers::obj(seq![("properties"@, properties)]);
    let one = Jv::Array(seq![laws::whole(1)]);
    let tags = handlers::obj(seq![("valueSet"@, one)]);
    handlers::lemma_made_of_one("properties"@, properties);
    handlers::lemma_made_of_one("valueSet"@, one);
    let members = seq![
        ("deprecatedSupport"@, Jv::Bool(true)),
        ("resolveSupport"@, resolved),
        ("snippetSupport"@, Jv::Bool(true)),
        ("tagSupport"@, tags),
    ];
    handlers::lemma_made_of(members);
    assert(members[1].0 == "resolveSupport"@);
    assert(members[3].0 == "tagSupport"@);
    handlers::lemma_made_of_one("completionItem"@, handlers::obj(members));
}

/// What the client announces for code actions: the kinds that it knows.
pub proof fn law_client_code_actions()
    ensures
        ({
            let v = capabilities::code_action_json();
            let literal = laws::under(v, "codeActionLiteralSupport"@);
            let kind = laws::under(literal, "codeActionKind"@);
            &&& handlers::made_of(
                v,
                seq![
                    ("codeActionLiteralSupport"@, literal),
                    ("dynamicRegistration"@, Jv::Bool(false)),
                    ("isPreferredSupport"@, Jv::Bool(true)),
                ],
            )
            &&& handlers::made_of(literal, seq![("codeActionKind"@, kind)])
            &&& handlers::made_of(kind, seq![("valueSet"@, laws::under(kind, "valueSet"@))])
            &&& laws::lists_texts(
                laws::under(kind, "valueSet"@),
                seq![
                    "quickfix"@,
                    "refactor"@,
                    "refactor.extract"@,
                    "refactor.inline"@,
                    "refactor.rewrite"@,
                    "source"@,
                    "source.organizeImports"@,
                ],
            )
        }),
{
    reveal_strlit("codeActionLiteralSupport");
    reveal_strlit("dynamicRegistration");
    reveal_strlit("isPreferredSupport");
    assert("codeActionLiteralSupport"@.len() == 24 && "dynamicRegistration"@.len() == 19
        && "isPreferredSupport"@.len() == 18);
    let kinds = capabilities::texts_array(
        seq![
            "quickfix"@,
            "refactor"@,
            "refactor.extract"@,
            "refactor.inline"@,
            "refactor.rewrite"@,
            "source"@,
            "source.organizeImports"@,
        ],
    );
    let kind = handlers::obj(seq![("valueSet"@, kinds)]);
    handlers::lemma_made_of_one("valueSet"@, kinds);
    handlers::lemma_made_of_one("codeActionKind"@, kind);
    let literal = handlers::obj(seq![("codeActionKind"@, kind)]);
    let members = seq![
        ("codeActionLiteralSupport"@, literal),
        ("dynamicRegistration"@, Jv::Bool(false)),
        ("isPreferredSupport"@, Jv::Bool(true)),
    ];
    handlers::lemma_made_of(members);
    assert(members[0].0 == "codeActionLiteralSupport"@);
}

/// What the client announces for documents.
pub proof fn law_client_documents(enable: bool)
    ensures
        ({
            let v = capabilities::text_document_json(enable);
            let hover = laws::under(v, "hover"@);
            &&& handlers::made_of(
                v,
                seq![
                    ("codeAction"@, capabilities::code_action_json()),
                    ("completion"@, capabilities::completion_json()),
                    ("diagnostic"@, laws::under(v, "diagnostic"@)),
                    ("documentSymbol"@, laws::under(v, "documentSymbol"@)),
                    ("formatting"@, laws::under(v, "formatting"@)),
                    ("hover"@, hover),
                    ("inlayHint"@, laws::under(v, "inlayHint"@)),
                    ("onTypeFormatting"@, laws::under(v, "onTypeFormatting"@)),
                    ("publishDiagnostics"@, capabilities::diagnostics_json(enable)),
                    ("rangeFormatting"@, laws::under(v, "rangeFormatting"@)),
                    ("signatureHelp"@, laws::under(v, "signatureHelp"@)),
                ],
            )
            &&& handlers::made_of(
                laws::under(v, "diagnostic"@),
                seq![
                    ("dynamicRegistration"@, Jv::Bool(false)),
                    ("relatedDocumentSupport"@, Jv::Bool(false)),
                ],
            )
            &&& handlers::made_of(
                laws::under(v, "documentSymbol"@),
                seq![("hierarchicalDocumentSymbolSupport"@, Jv::Bool(true))],
            )
            &&& registers(laws::under(v, "formatting"@), true)
            &&& registers(laws::under(v, "inlayHint"@), false)
            &&& registers(laws::under(v, "onTypeFormatting"@), true)
            &&& registers(laws::under(v, "rangeFormatting"@), true)
            &&& handlers::made_of(laws::under(v, "signatureHelp"@), seq![])
            &&& handlers::made_of(
                hover,
                seq![
                    ("contentFormat"@, laws::under(hover, "contentFormat"@)),
                    ("dynamicRegistration"@, Jv::Bool(true)),
                ],
            )
            &&& laws::lists_texts(
                laws::under(hover, "contentFormat"@),
                seq!["markdown"@, "plaintext"@],
            )
        }),
{
    reveal_strlit("codeAction");
    reveal_strlit("completion");
    reveal_strlit("diagnostic");
    reveal_strlit("documentSymbol");
    reveal_strlit("formatting");
    reveal_strlit("hover");
    reveal_strlit("inlayHint");
    reveal_strlit("onTypeFormatting");
    reveal_strlit("publishDiagnostics");
    reveal_strlit("rangeFormatting");
    reveal_strlit("signatureHelp");
    reveal_strlit("dynamicRegistration");
    reveal_strlit("relatedDocumentSupport");
    reveal_strlit("contentFormat");
    assert("dynamicRegistration"@.len() == 19 && "relatedDocumentSupport"@.len() == 22
        && "contentFormat"@.len() == 13);
    let formats = capabilities::texts_array(seq!["markdown"@, "plaintext"@]);
    handlers::lemma_made_of_one("dynamicRegistration"@, Jv::Bool(true));
    handlers::lemma_made_of_one("dynamicRegistration"@, Jv::Bool(false));
    handlers::lemma_made_of_one("hierarchicalDocumentSymbolSupport"@, Jv::Bool(true));
    handlers::lemma_made_of_none();
    handlers::lemma_made_of_two(
        "dynamicRegistration"@,
        Jv::Bool(false),
        "relatedDocumentSupport"@,
        Jv::Bool(false),
    );
    handlers::lemma_made_of_two(
        "contentFormat"@,
        formats,
        "dynamicRegistration"@,
        Jv::Bool(true),
    );
    let members = seq![
        ("codeAction"@, capabilities::code_action_json()),
        ("completion"@, capabilities::completion_json()),
        (
            "diagnostic"@,
            handlers::obj(
                seq![
                    ("dynamicRegistration"@, Jv::Bool(false)),
                    ("relatedDocumentSupport"@, Jv::Bool(false)),
                ],
            ),
        ),
        (
            "documentSymbol"@,
            handlers::obj(seq![("hierarchicalDocumentSymbolSupport"@, Jv::Bool(true))]),
        ),
        ("formatting"@, capabilities::dynamic(true)),
        (
            "hover"@,
            handlers::obj(
                seq![("contentFormat"@, formats), ("dynamicRegistration"@, Jv::Bool(true))],
            ),
        ),
        ("inlayHint"@, capabilities::dynamic(false)),
        ("onTypeFormatting"@, capabilities::dynamic(true)),
        ("publishDiagnostics"@, capabilities::diagnostics_json(enable)),
        ("rangeFormatting"@, capabilities::dynamic(true)),
        ("signatureHelp"@, handlers::obj(seq![])),
    ];
    assert(capability_key(members[0].0) == (10nat, 'c', 'd'));
    assert(capability_key(members[1].0) == (10nat, 'c', 'm'));
    assert(capability_key(members[2].0) == (10nat, 'd', 'a'));
    assert(capability_key(members[3].0) == (14nat, 'd', 'c'));
    assert(capability_key(members[4].0) == (10nat, 'f', 'r'));
    assert(capability_key(members[5].0) == (5nat, 'h', 'v'));
    assert(capability_key(members[6].0) == (9nat, 'i', 'l'));
    assert(capability_key(members[7].0) == (16nat, 'o', 'T'));
    assert(capability_key(members[8].0) == (18nat, 'p', 'b'));
    assert(capability_key(members[9].0) == (15nat, 'r', 'n'));
    assert(capability_key(members[10].0) == (13nat, 's', 'g'));
    assert forall|i: int, j: int| 0 <= i < j < members.len() implies (#[trigger] members[i]).0 != (
    #[trigger] members[j]).0 by {
        assert(capability_key(members[i].0) != capability_key(members[j].0));
    }
    handlers::lemma_made_of(members);
    let v = handlers::obj(members);
    assert(v == capabilities::text_document_json(enable));
    assert forall|i: int| 0 <= i < members.len() implies laws::under(v, (#[trigger] members[i]).0)
        == members[i].1 by {}
    assert(members[2].0 == "diagnostic"@ && members[3].0 == "documentSymbol"@ && members[4].0
        == "formatting"@ && members[5].0 == "hover"@ && members[6].0 == "inlayHint"@
        && members[7].0 == "onTypeFormatting"@ && members[9].0 == "rangeFormatting"@
        && members[10].0 == "signatureHelp"@);
}

} // verus!
