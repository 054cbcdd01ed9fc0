//! What the client can do, and what a server says that it can do.

use crate::handlers;
use crate::json;
use crate::json::{Json, JsonMap, Jv};
use crate::text;
use vstd::prelude::*;

verus! {

// ---------------------------------------------------------------------------
// Client
// ---------------------------------------------------------------------------

/// Texts as an array of strings.
pub open spec fn texts_array(v: Seq<Seq<char>>) -> Jv {
    Jv::Array(handlers::strings(v))
}

/// Whether a capability can be registered later.
pub open spec fn dynamic(b: bool) -> Jv {
    handlers::obj(seq![("dynamicRegistration"@, Jv::Bool(b))])
}

pub open spec fn workspace_json() -> Jv {
    let no_properties = handlers::obj(seq![("properties"@, Jv::Array(seq![]))]);
    handlers::obj(
        seq![
            ("applyEdit"@, Jv::Bool(true)),
            ("configuration"@, Jv::Bool(true)),
            ("didChangeConfiguration"@, dynamic(true)),
            (
                "didChangeWatchedFiles"@,
                handlers::obj(
                    seq![
                        ("dynamicRegistration"@, Jv::Bool(true)),
                        ("relativePatternSupport"@, Jv::Bool(true)),
                    ],
                ),
            ),
            ("symbol"@, handlers::obj(seq![("resolveSupport"@, no_properties)])),
            ("workspaceFolders"@, Jv::Bool(true)),
        ],
    )
}

pub open spec fn completion_json() -> Jv {
    let resolved = handlers::obj(
        seq![
            (
                "properties"@,
                texts_array(seq!["documentation"@, "detail"@, "additionalTextEdits"@]),
            ),
        ],
    );
    let item = handlers::obj(
        seq![
            ("deprecatedSupport"@, Jv::Bool(true)),
            ("resolveSupport"@, resolved),
            ("snippetSupport"@, Jv::Bool(true)),
            (
                "tagSupport"@,
                handlers::obj(seq![("valueSet"@, Jv::Array(seq![json::int_number(1)]))]),
            ),
        ],
    );
    handlers::obj(seq![("completionItem"@, item)])
}

pub open spec fn code_action_json() -> Jv {
    let kinds = texts_array(
        seq![
            "quickfix"@,
            "refactor"@,
            "refactor.extract"@,
            "refactor.inline"@,
            "refactor.rewrite"@,
            "source"@,
            "source.organizeImports"@,
        ],
    );
    let kind = handlers::obj(seq![("valueSet"@, kinds)]);
    handlers::obj(
        seq![
            ("codeActionLiteralSupport"@, handlers::obj(seq![("codeActionKind"@, kind)])),
            ("dynamicRegistration"@, Jv::Bool(false)),
            ("isPreferredSupport"@, Jv::Bool(true)),
        ],
    )
}

pub open spec fn diagnostics_json(enable: bool) -> Jv {
    let tags = Jv::Array(seq![json::int_number(1), json::int_number(2)]);
    handlers::obj(
        seq![
            ("codeDescriptionSupport"@, Jv::Bool(enable)),
            ("dataSupport"@, Jv::Bool(enable)),
            ("relatedInformation"@, Jv::Bool(enable)),
            ("tagSupport"@, handlers::obj(seq![("valueSet"@, tags)])),
            ("versionSupport"@, Jv::Bool(enable)),
        ],
    )
}

pub open spec fn text_document_json(enable: bool) -> Jv {
    handlers::obj(
        seq![
            ("codeAction"@, code_action_json()),
            ("completion"@, completion_json()),
            (
                "diagnostic"@,
                handlers::obj(
                    seq![
                        ("dynamicRegistration"@, Jv::Bool(false)),
                        ("relatedDocumentSupport"@, Jv::Bool(false)),
                    ],
                ),
            ),
            (
                "documentSymbol"@,
                handlers::obj(seq![("hierarchicalDocumentSymbolSupport"@, Jv::Bool(true))]),
            ),
            ("formatting"@, dynamic(true)),
            (
                "hover"@,
                handlers::obj(
                    seq![
                        ("contentFormat"@, texts_array(seq!["markdown"@, "plaintext"@])),
                        ("dynamicRegistration"@, Jv::Bool(true)),
                    ],
                ),
            ),
            ("inlayHint"@, dynamic(false)),
            ("onTypeFormatting"@, dynamic(true)),
            ("publishDiagnostics"@, diagnostics_json(enable)),
            ("rangeFormatting"@, dynamic(true)),
            ("signatureHelp"@, handlers::obj(seq![])),
        ],
    )
}

/// What the client says that it can do.
pub open spec fn client_json(enable_diagnostics: bool) -> Jv {
    handlers::obj(
        seq![
            ("textDocument"@, text_document_json(enable_diagnostics)),
            ("window"@, handlers::obj(seq![("workDoneProgress"@, Jv::Bool(true))])),
            ("workspace"@, workspace_json()),
        ],
    )
}

fn dynamic_registration(b: bool) -> (r: Json)
    ensures
        r@ == dynamic(b),
{
    handlers::object1("dynamicRegistration", Json::Bool(b))
}

fn push_text(items: &mut Vec<Json>, s: &str)
    ensures
        json::models(final(items)@) == json::models(old(items)@).push(Jv::Str(s@)),
{
    items.push(Json::str(s));
    assert(json::models(items@) =~= json::models(old(items)@).push(Jv::Str(s@)));
}

fn workspace() -> (r: Json)
    ensures
        r@ == workspace_json(),
{
    let none: Vec<Json> = Vec::new();
    assert(json::models(none@) =~= seq![]);
    let no_properties = handlers::object1("properties", Json::array(none));
    let watched = handlers::object2(
        "dynamicRegistration",
        Json::Bool(true),
        "relativePatternSupport",
        Json::Bool(true),
    );
    let symbol = handlers::object1("resolveSupport", no_properties);
    let mut members: Vec<(String, Json)> = Vec::new();
    members.push(json::field("applyEdit", Json::Bool(true)));
    members.push(json::field("configuration", Json::Bool(true)));
    members.push(json::field("didChangeConfiguration", dynamic_registration(true)));
    members.push(json::field("didChangeWatchedFiles", watched));
    members.push(json::field("symbol", symbol));
    members.push(json::field("workspaceFolders", Json::Bool(true)));
    assert(json::entry_models(members@) =~= seq![
        ("applyEdit"@, Jv::Bool(true)),
        ("configuration"@, Jv::Bool(true)),
        ("didChangeConfiguration"@, dynamic(true)),
        ("didChangeWatchedFiles"@, watched@),
        ("symbol"@, symbol@),
        ("workspaceFolders"@, Jv::Bool(true)),
    ]);
    Json::from_members(members)
}

fn completion() -> (r: Json)
    ensures
        r@ == completion_json(),
{
    let mut properties: Vec<Json> = Vec::new();
    assert(json::models(properties@) =~= seq![]);
    push_text(&mut properties, "documentation");
    push_text(&mut properties, "detail");
    push_text(&mut properties, "additionalTextEdits");
    assert(json::models(properties@) =~= handlers::strings(
        seq!["documentation"@, "detail"@, "additionalTextEdits"@],
    ));
    let resolved = handlers::object1("properties", Json::array(properties));
    let tags = handlers::object1("valueSet", Json::array(handlers::args1(Json::integer(1))));
    let mut members: Vec<(String, Json)> = Vec::new();
    members.push(json::field("deprecatedSupport", Json::Bool(true)));
    members.push(json::field("resolveSupport", resolved));
    members.push(json::field("snippetSupport", Json::Bool(true)));
    members.push(json::field("tagSupport", tags));
    assert(json::entry_models(members@) =~= seq![
        ("deprecatedSupport"@, Jv::Bool(true)),
        ("resolveSupport"@, resolved@),
        ("snippetSupport"@, Jv::Bool(true)),
        ("tagSupport"@, tags@),
    ]);
    let item = Json::from_members(members);
    handlers::object1("completionItem", item)
}

fn code_action() -> (r: Json)
    ensures
        r@ == code_action_json(),
{
    let mut kinds: Vec<Json> = Vec::new();
    assert(json::models(kinds@) =~= seq![]);
    push_text(&mut kinds, "quickfix");
    push_text(&mut kinds, "refactor");
    push_text(&mut kinds, "refactor.extract");
    push_text(&mut kinds, "refactor.inline");
    push_text(&mut kinds, "refactor.rewrite");
    push_text(&mut kinds, "source");
    push_text(&mut kinds, "source.organizeImports");
    assert(json::models(kinds@) =~= handlers::strings(
        seq![
            "quickfix"@,
            "refactor"@,
            "refactor.extract"@,
            "refactor.inline"@,
            "refactor.rewrite"@,
            "source"@,
            "source.organizeImports"@,
        ],
    ));
    let kind = handlers::object1("valueSet", Json::array(kinds));
    let literal = handlers::object1("codeActionKind", kind);
    let mut members: Vec<(String, Json)> = Vec::new();
    members.push(json::field("codeActionLiteralSupport", literal));
    members.push(json::field("dynamicRegistration", Json::Bool(false)));
    members.push(json::field("isPreferredSupport", Json::Bool(true)));
    assert(json::entry_models(members@) =~= seq![
        ("codeActionLiteralSupport"@, literal@),
        ("dynamicRegistration"@, Jv::Bool(false)),
        ("isPreferredSupport"@, Jv::Bool(true)),
    ]);
    Json::from_members(members)
}

fn diagnostics(enable: bool) -> (r: Json)
    ensures
        r@ == diagnostics_json(enable),
{
    let tags = handlers::object1(
        "valueSet",
        Json::array(handlers::args2(Json::integer(1), Json::integer(2))),
    );
    let mut members: Vec<(String, Json)> = Vec::new();
    members.push(json::field("codeDescriptionSupport", Json::Bool(enable)));
    members.push(json::field("dataSupport", Json::Bool(enable)));
    members.push(json::field("relatedInformation", Json::Bool(enable)));
    members.push(json::field("tagSupport", tags));
    members.push(json::field("versionSupport", Json::Bool(enable)));
    assert(json::entry_models(members@) =~= seq![
        ("codeDescriptionSupport"@, Jv::Bool(enable)),
        ("dataSupport"@, Jv::Bool(enable)),
        ("relatedInformation"@, Jv::Bool(enable)),
        ("tagSupport"@, tags@),
        ("versionSupport"@, Jv::Bool(enable)),
    ]);
    Json::from_members(members)
}

fn text_document(enable: bool) -> (r: Json)
    ensures
        r@ == text_document_json(enable),
{
    let diagnostic = handlers::object2(
        "dynamicRegistration",
        Json::Bool(false),
        "relatedDocumentSupport",
        Json::Bool(false),
    );
    let symbols = handlers::object1("hierarchicalDocumentSymbolSupport", Json::Bool(true));
    let mut formats: Vec<Json> = Vec::new();
    assert(json::models(formats@) =~= seq![]);
    push_text(&mut formats, "markdown");
    push_text(&mut formats, "plaintext");
    assert(json::models(formats@) =~= handlers::strings(seq!["markdown"@, "plaintext"@]));
    let hover = handlers::object2(
        "contentFormat",
        Json::array(formats),
        "dynamicRegistration",
        Json::Bool(true),
    );
    let mut members: Vec<(String, Json)> = Vec::new();
    members.push(json::field("codeAction", code_action()));
    members.push(json::field("completion", completion()));
    members.push(json::field("diagnostic", diagnostic));
    members.push(json::field("documentSymbol", symbols));
    members.push(json::field("formatting", dynamic_registration(true)));
    members.push(json::field("hover", hover));
    members.push(json::field("inlayHint", dynamic_registration(false)));
    members.push(json::field("onTypeFormatting", dynamic_registration(true)));
    members.push(json::field("publishDiagnostics", diagnostics(enable)));
    members.push(json::field("rangeFormatting", dynamic_registration(true)));
    members.push(json::field("signatureHelp", handlers::object0()));
    assert(json::entry_models(members@) =~= seq![
        ("codeAction"@, code_action_json()),
        ("completion"@, completion_json()),
        ("diagnostic"@, diagnostic@),
        ("documentSymbol"@, symbols@),
        ("formatting"@, dynamic(true)),
        ("hover"@, hover@),
        ("inlayHint"@, dynamic(false)),
        ("onTypeFormatting"@, dynamic(true)),
        ("publishDiagnostics"@, diagnostics_json(enable)),
        ("rangeFormatting"@, dynamic(true)),
        ("signatureHelp"@, handlers::obj(seq![])),
    ]);
    Json::from_members(members)
}

/// Build default client capabilities, as the JSON object that a server gets.
///
/// Server-specific overrides from config are merged on top.
pub fn default_client_capabilities(enable_diagnostics: bool) -> (r: Json)
    ensures
        r@ == client_json(enable_diagnostics),
{
    let window = handlers::object1("workDoneProgress", Json::Bool(true));
    let mut members: Vec<(String, Json)> = Vec::new();
    members.push(json::field("textDocument", text_document(enable_diagnostics)));
    members.push(json::field("window", window));
    members.push(json::field("workspace", workspace()));
    assert(json::entry_models(members@) =~= seq![
        ("textDocument"@, text_document_json(enable_diagnostics)),
        ("window"@, window@),
        ("workspace"@, workspace_json()),
    ]);
    Json::from_members(members)
}

// ---------------------------------------------------------------------------
// Merging
// ---------------------------------------------------------------------------

/// `source` merged into `target`: objects key by key, anything else replaced.
pub open spec fn merged(target: Jv, source: Jv) -> Jv
    decreases source,
{
    match (target, source) {
        (Jv::Object(t), Jv::Object(s)) => Jv::Object(merged_entries(t, s)),
        _ => source,
    }
}

/// The members of `s` merged, one after another, into the members `t`.
pub open spec fn merged_entries(t: Seq<(Seq<char>, Jv)>, s: Seq<(Seq<char>, Jv)>) -> Seq<
    (Seq<char>, Jv),
>
    decreases s,
{
    if s.len() == 0 {
        t
    } else {
        let m = merged_entries(t, s.drop_last());
        let last = s[s.len() - 1];
        let under = match json::lookup(m, last.0) {
            Some(v) => v,
            None => Jv::Null,
        };
        json::insert(m, last.0, merged(under, last.1))
    }
}

fn merge(target: &Json, source: &Json) -> (r: Json)
    ensures
        r@ == merged(target@, source@),
    decreases source,
{
    match (target, source) {
        (Json::Object(t), Json::Object(s)) => {
            let ghost all = s@;
            let mut m = match target.clone() {
                Json::Object(copy) => copy,
                _ => JsonMap::new(),
            };
            proof {
                json::lemma_object_model(*t);
                json::lemma_object_model(*s);
                json::lemma_object_model(m);
            }
            let mut i: usize = 0;
            assert(all.take(0) =~= Seq::empty());
            while i < s.entries.len()
                invariant
                    *source == Json::Object(*s),
                    all == s@,
                    i <= s.entries@.len(),
                    m@ == merged_entries(t@, all.take(i as int)),
                decreases s.entries@.len() - i,
            {
                assert(decreases_to!(*source => source->Object_0));
                assert(decreases_to!(source->Object_0 => source->Object_0.entries));
                assert(decreases_to!(s.entries => s.entries[i as int]));
                assert(decreases_to!(s.entries[i as int] => s.entries[i as int].1));
                let e = &s.entries[i];
                assert(all.take(i + 1).drop_last() =~= all.take(i as int));
                assert(all.take(i + 1)[i as int] == (e.0@, e.1@));
                let value = match m.get(e.0.as_str()) {
                    Some(under) => merge(under, &e.1),
                    None => merge(&Json::Null, &e.1),
                };
                m.insert(e.0.as_str(), value);
                i = i + 1;
            }
            assert(all.take(i as int) =~= all);
            Json::object(m)
        },
        _ => source.clone(),
    }
}

/// Deep merge `source` into `target`.
///
/// - Objects: recursively merge keys
/// - Arrays: replace (don't concatenate)
/// - Scalars: source overrides target
pub fn deep_merge(target: &mut Json, source: &Json)
    ensures
        final(target)@ == merged(old(target)@, source@),
{
    let result = merge(target, source);
    *target = result;
}

/// Whether `lsp_types` reads the capabilities of a client out of a value.
pub uninterp spec fn reads_as_client(v: Jv) -> bool;

/// `serde_json::from_value` into `lsp_types::ClientCapabilities`: whether it succeeds. Which values
/// are read is named, not described.
#[verifier::external_body]
fn client_capabilities_read(v: &Json) -> (r: bool)
    ensures
        r == reads_as_client(v@),
{
    serde_json::from_value::<lsp_types::ClientCapabilities>(json::to_value(v)).is_ok()
}

/// The capabilities with the overrides of a config: merged in, if the overrides are an object and
/// the result is still readable.
pub open spec fn overridden(base: Jv, overrides: Jv) -> Jv {
    if overrides is Object && reads_as_client(merged(base, overrides)) {
        merged(base, overrides)
    } else {
        base
    }
}

/// Merge server-specific capability overrides from config JSON.
///
/// Some servers need custom capability fields (e.g., clangd). Config files can specify a
/// `"capabilities"` object that gets deep-merged into the default capabilities; anything that
/// is no object, and an object that makes the capabilities unreadable, changes nothing.
pub fn merge_capabilities(base: &Json, overrides: &Json) -> (r: Json)
    ensures
        r@ == overridden(base@, overrides@),
{
    match overrides {
        Json::Object(_) => {
            let result = merge(base, overrides);
            if client_capabilities_read(&result) {
                result
            } else {
                base.clone()
            }
        },
        _ => base.clone(),
    }
}

/// Merging touches no key that the source does not have.
pub proof fn law_merge_keeps_others(
    t: Seq<(Seq<char>, Jv)>,
    s: Seq<(Seq<char>, Jv)>,
    key: Seq<char>,
)
    requires
        forall|i: int| 0 <= i < s.len() ==> (#[trigger] s[i]).0 != key,
    ensures
        json::lookup(merged_entries(t, s), key) == json::lookup(t, key),
    decreases s.len(),
{
    if s.len() > 0 {
        let front = s.drop_last();
        let last = s[s.len() - 1];
        let m = merged_entries(t, front);
        let under = match json::lookup(m, last.0) {
            Some(v) => v,
            None => Jv::Null,
        };
        law_merge_keeps_others(t, front, key);
        json::law_lookup_insert(m, last.0, merged(under, last.1), key);
    }
}

/// Under a key that the source has once, the two values are merged.
pub proof fn law_merge_key(t: Seq<(Seq<char>, Jv)>, s: Seq<(Seq<char>, Jv)>, i: int)
    requires
        json::distinct_keys(s),
        0 <= i < s.len(),
    ensures
        json::lookup(merged_entries(t, s), s[i].0) == Some(
            merged(
                match json::lookup(t, s[i].0) {
                    Some(v) => v,
                    None => Jv::Null,
                },
                s[i].1,
            ),
        ),
    decreases s.len(),
{
    let front = s.drop_last();
    let last = s[s.len() - 1];
    let m = merged_entries(t, front);
    let under = match json::lookup(m, last.0) {
        Some(v) => v,
        None => Jv::Null,
    };
    json::law_lookup_insert(m, last.0, merged(under, last.1), s[i].0);
    if i == s.len() - 1 {
        assert forall|j: int| 0 <= j < front.len() implies (#[trigger] front[j]).0 != last.0 by {
            assert(s[j].0 != s[s.len() - 1].0);
        }
        law_merge_keeps_others(t, front, last.0);
    } else {
        assert(s[i].0 != s[s.len() - 1].0);
        law_merge_key(t, front, i);
    }
}

// ---------------------------------------------------------------------------
// Server
// ---------------------------------------------------------------------------

/// How changes of a document reach the server.
#[allow(non_camel_case_types)]
#[derive(Debug, Clone, Copy, PartialEq, Eq)]
pub enum TextDocumentSyncKind {
    /// Documents are not synced.
    NONE,
    /// Documents are synced by sending their full content.
    FULL,
    /// Documents are synced by sending what changed.
    INCREMENTAL,
    /// A kind that the protocol does not name.
    Other(i64),
}

/// A provider that is switched on or off, or described by options.
#[derive(Debug, Clone, Copy, PartialEq, Eq)]
pub enum Provider {
    Simple(bool),
    Options,
}

/// A provider of renames.
#[derive(Debug, Clone, Copy, PartialEq, Eq)]
pub enum RenameProvider {
    Simple(bool),
    Options { prepare_provider: Option<bool> },
}

/// A provider of completions.
#[derive(Debug)]
pub struct CompletionOptions {
    pub trigger_characters: Option<Vec<String>>,
    pub resolve_provider: Option<bool>,
}

/// How saves of a document reach the server.
#[derive(Debug, Clone, Copy, PartialEq, Eq)]
pub enum SaveOptions {
    Supported(bool),
    Options { include_text: Option<bool> },
}

/// How a document is kept in step with the server.
#[derive(Debug, Clone, Copy, PartialEq, Eq)]
pub enum TextDocumentSync {
    Kind(TextDocumentSyncKind),
    Options { change: Option<TextDocumentSyncKind>, save: Option<SaveOptions> },
}

/// What a server can do, as far as it matters here.
#[derive(Debug)]
pub struct ServerCapabilities {
    pub completion_provider: Option<CompletionOptions>,
    pub rename_provider: Option<RenameProvider>,
    pub code_action_provider: Option<Provider>,
    pub document_formatting_provider: Option<Provider>,
    pub document_range_formatting_provider: Option<Provider>,
    pub document_highlight_provider: Option<Provider>,
    pub signature_help_provider: bool,
    pub workspace_symbol_provider: Option<Provider>,
    pub inlay_hint_provider: Option<Provider>,
    pub semantic_tokens_provider: bool,
    pub diagnostic_provider: bool,
    pub text_document_sync: Option<TextDocumentSync>,
}

/// The mathematical value of [`ServerCapabilities`].
pub struct Caps {
    pub completion: Option<(Option<Seq<Seq<char>>>, Option<bool>)>,
    pub rename: Option<RenameProvider>,
    pub code_action: Option<Provider>,
    pub formatting: Option<Provider>,
    pub range_formatting: Option<Provider>,
    pub highlight: Option<Provider>,
    pub signature_help: bool,
    pub workspace_symbol: Option<Provider>,
    pub inlay_hint: Option<Provider>,
    pub semantic_tokens: bool,
    pub diagnostic: bool,
    pub sync: Option<TextDocumentSync>,
}

impl View for CompletionOptions {
    type V = (Option<Seq<Seq<char>>>, Option<bool>);

    open spec fn view(&self) -> (Option<Seq<Seq<char>>>, Option<bool>) {
        (
            match self.trigger_characters {
                Some(v) => Some(text::texts(v@)),
                None => None,
            },
            self.resolve_provider,
        )
    }
}

impl View for ServerCapabilities {
    type V = Caps;

    open spec fn view(&self) -> Caps {
        Caps {
            completion: match self.completion_provider {
                Some(c) => Some(c@),
                None => None,
            },
            rename: self.rename_provider,
            code_action: self.code_action_provider,
            formatting: self.document_formatting_provider,
            range_formatting: self.document_range_formatting_provider,
            highlight: self.document_highlight_provider,
            signature_help: self.signature_help_provider,
            workspace_symbol: self.workspace_symbol_provider,
            inlay_hint: self.inlay_hint_provider,
            semantic_tokens: self.semantic_tokens_provider,
            diagnostic: self.diagnostic_provider,
            sync: self.text_document_sync,
        }
    }
}

/// The boolean that a value is.
pub open spec fn bool_of(v: Jv) -> Option<bool> {
    match v {
        Jv::Bool(b) => Some(b),
        _ => None,
    }
}

/// A member that is there and not null.
pub open spec fn present(v: Jv, key: Seq<char>) -> Option<Jv> {
    match json::member(v, key) {
        Some(Jv::Null) => None,
        m => m,
    }
}

/// A provider: a boolean, or options.
pub open spec fn provider_of(v: Option<Jv>) -> Option<Provider> {
    match v {
        Some(Jv::Bool(b)) => Some(Provider::Simple(b)),
        Some(_) => Some(Provider::Options),
        None => None,
    }
}

/// The strings among the values.
pub open spec fn strings_of(a: Seq<Jv>) -> Seq<Seq<char>>
    decreases a.len(),
{
    if a.len() == 0 {
        Seq::empty()
    } else {
        match json::as_str(a.last()) {
            Some(s) => strings_of(a.drop_last()).push(s),
            None => strings_of(a.drop_last()),
        }
    }
}

/// The kind of synchronisation that a number stands for.
pub open spec fn sync_kind(n: int) -> TextDocumentSyncKind {
    if n == 0 {
        TextDocumentSyncKind::NONE
    } else if n == 1 {
        TextDocumentSyncKind::FULL
    } else if n == 2 {
        TextDocumentSyncKind::INCREMENTAL
    } else {
        TextDocumentSyncKind::Other(n as i64)
    }
}

pub open spec fn completion_of(v: Jv) -> (Option<Seq<Seq<char>>>, Option<bool>) {
    (
        match present(v, "triggerCharacters"@) {
            Some(Jv::Array(a)) => Some(strings_of(a)),
            _ => None,
        },
        bool_of(handlers::member_or_null(v, "resolveProvider"@)),
    )
}

pub open spec fn rename_of(v: Jv) -> RenameProvider {
    match v {
        Jv::Bool(b) => RenameProvider::Simple(b),
        _ => RenameProvider::Options {
            prepare_provider: bool_of(handlers::member_or_null(v, "prepareProvider"@)),
        },
    }
}

pub open spec fn save_of(v: Jv) -> SaveOptions {
    match v {
        Jv::Bool(b) => SaveOptions::Supported(b),
        _ => SaveOptions::Options {
            include_text: bool_of(handlers::member_or_null(v, "includeText"@)),
        },
    }
}

pub open spec fn sync_of(v: Jv) -> TextDocumentSync {
    match json::as_i64(v) {
        Some(n) => TextDocumentSync::Kind(sync_kind(n as int)),
        None => TextDocumentSync::Options {
            change: match json::as_i64(handlers::member_or_null(v, "change"@)) {
                Some(n) => Some(sync_kind(n as int)),
                None => None,
            },
            save: match present(v, "save"@) {
                Some(s) => Some(save_of(s)),
                None => None,
            },
        },
    }
}

/// What a capabilities object says.
pub open spec fn caps_of(v: Jv) -> Caps {
    Caps {
        completion: match present(v, "completionProvider"@) {
            Some(c) => Some(completion_of(c)),
            None => None,
        },
        rename: match present(v, "renameProvider"@) {
            Some(p) => Some(rename_of(p)),
            None => None,
        },
        code_action: provider_of(present(v, "codeActionProvider"@)),
        formatting: provider_of(present(v, "documentFormattingProvider"@)),
        range_formatting: provider_of(present(v, "documentRangeFormattingProvider"@)),
        highlight: provider_of(present(v, "documentHighlightProvider"@)),
        signature_help: present(v, "signatureHelpProvider"@) is Some,
        workspace_symbol: provider_of(present(v, "workspaceSymbolProvider"@)),
        inlay_hint: provider_of(present(v, "inlayHintProvider"@)),
        semantic_tokens: present(v, "semanticTokensProvider"@) is Some,
        diagnostic: present(v, "diagnosticProvider"@) is Some,
        sync: match present(v, "textDocumentSync"@) {
            Some(s) => Some(sync_of(s)),
            None => None,
        },
    }
}

fn get_present<'a>(v: &'a Json, key: &str) -> (r: Option<&'a Json>)
    ensures
        match present(v@, key@) {
            Some(m) => r is Some && r->0@ == m,
            None => r is None,
        },
{
    match v.get(key) {
        Some(m) => if m.is_null() {
            None
        } else {
            Some(m)
        },
        None => None,
    }
}

fn get_bool(v: &Json, key: &str) -> (r: Option<bool>)
    ensures
        r == bool_of(handlers::member_or_null(v@, key@)),
{
    match v.get(key) {
        Some(m) => m.as_bool(),
        None => None,
    }
}

fn get_provider(v: &Json, key: &str) -> (r: Option<Provider>)
    ensures
        r == provider_of(present(v@, key@)),
{
    match get_present(v, key) {
        Some(m) => match m.as_bool() {
            Some(b) => Some(Provider::Simple(b)),
            None => Some(Provider::Options),
        },
        None => None,
    }
}

fn read_strings(a: &Vec<Json>) -> (r: Vec<String>)
    ensures
        text::texts(r@) == strings_of(json::models(a@)),
{
    let ghost all = json::models(a@);
    let mut r: Vec<String> = Vec::new();
    let mut i: usize = 0;
    assert(all.take(0) =~= Seq::<Jv>::empty());
    assert(text::texts(r@) =~= Seq::<Seq<char>>::empty());
    while i < a.len()
        invariant
            all == json::models(a@),
            i <= a@.len(),
            text::texts(r@) == strings_of(all.take(i as int)),
        decreases a@.len() - i,
    {
        let ghost before = text::texts(r@);
        assert(all.take(i + 1).drop_last() =~= all.take(i as int));
        assert(all.take(i + 1).last() == a@[i as int]@);
        match a[i].as_str() {
            Some(s) => {
                r.push(s.to_string());
                assert(text::texts(r@) =~= before.push(s@));
            },
            None => {},
        }
        i = i + 1;
    }
    assert(all.take(i as int) =~= all);
    r
}

fn read_sync_kind(n: i64) -> (r: TextDocumentSyncKind)
    ensures
        r == sync_kind(n as int),
{
    if n == 0 {
        TextDocumentSyncKind::NONE
    } else if n == 1 {
        TextDocumentSyncKind::FULL
    } else if n == 2 {
        TextDocumentSyncKind::INCREMENTAL
    } else {
        TextDocumentSyncKind::Other(n)
    }
}

fn read_completion(v: &Json) -> (r: CompletionOptions)
    ensures
        r@ == completion_of(v@),
{
    let trigger_characters = match get_present(v, "triggerCharacters") {
        Some(m) => match m.as_array() {
            Some(a) => Some(read_strings(a)),
            None => None,
        },
        None => None,
    };
    CompletionOptions { trigger_characters, resolve_provider: get_bool(v, "resolveProvider") }
}

fn read_rename(v: &Json) -> (r: RenameProvider)
    ensures
        r == rename_of(v@),
{
    match v.as_bool() {
        Some(b) => RenameProvider::Simple(b),
        None => RenameProvider::Options { prepare_provider: get_bool(v, "prepareProvider") },
    }
}

fn read_save(v: &Json) -> (r: SaveOptions)
    ensures
        r == save_of(v@),
{
    match v.as_bool() {
        Some(b) => SaveOptions::Supported(b),
        None => SaveOptions::Options { include_text: get_bool(v, "includeText") },
    }
}

fn read_sync(v: &Json) -> (r: TextDocumentSync)
    ensures
        r == sync_of(v@),
{
    match v.as_i64() {
        Some(n) => TextDocumentSync::Kind(read_sync_kind(n)),
        None => {
            let change = match v.get("change") {
                Some(c) => match c.as_i64() {
                    Some(n) => Some(read_sync_kind(n)),
                    None => None,
                },
                None => None,
            };
            let save = match get_present(v, "save") {
                Some(s) => Some(read_save(s)),
                None => None,
            };
            TextDocumentSync::Options { change, save }
        },
    }
}

/// The capabilities object that `lsp_types` reads out of a value, written down again; nothing if
/// it cannot read one.
pub uninterp spec fn lsp_capabilities(v: Jv) -> Option<Jv>;

/// `serde_json::from_value` into `lsp_types::ServerCapabilities`, and `serde_json::to_value` of
/// what it read. Which objects are read, and how, is named, not described.
#[verifier::external_body]
fn read_lsp_capabilities(v: &Json) -> (r: Option<Json>)
    ensures
        match lsp_capabilities(v@) {
            Some(c) => r is Some && r->0@ == c,
            None => r is None,
        },
{
    let caps: lsp_types::ServerCapabilities = serde_json::from_value(json::to_value(v)).ok()?;
    serde_json::to_value(caps).ok().map(json::from_value)
}

impl ServerCapabilities {
    /// What a capabilities object says.
    pub fn from_json(v: &Json) -> (r: ServerCapabilities)
        ensures
            r@ == caps_of(v@),
    {
        let completion_provider = match get_present(v, "completionProvider") {
            Some(c) => Some(read_completion(c)),
            None => None,
        };
        let rename_provider = match get_present(v, "renameProvider") {
            Some(p) => Some(read_rename(p)),
            None => None,
        };
        let text_document_sync = match get_present(v, "textDocumentSync") {
            Some(s) => Some(read_sync(s)),
            None => None,
        };
        ServerCapabilities {
            completion_provider,
            rename_provider,
            code_action_provider: get_provider(v, "codeActionProvider"),
            document_formatting_provider: get_provider(v, "documentFormattingProvider"),
            document_range_formatting_provider: get_provider(v, "documentRangeFormattingProvider"),
            document_highlight_provider: get_provider(v, "documentHighlightProvider"),
            signature_help_provider: get_present(v, "signatureHelpProvider").is_some(),
            workspace_symbol_provider: get_provider(v, "workspaceSymbolProvider"),
            inlay_hint_provider: get_provider(v, "inlayHintProvider"),
            semantic_tokens_provider: get_present(v, "semanticTokensProvider").is_some(),
            diagnostic_provider: get_present(v, "diagnosticProvider").is_some(),
            text_document_sync,
        }
    }
}

/// What an initialize result says that the server can do.
pub open spec fn server_caps(init_result: Jv) -> Option<Caps> {
    match json::member(init_result, "capabilities"@) {
        Some(c) => match lsp_capabilities(c) {
            Some(v) => Some(caps_of(v)),
            None => None,
        },
        None => None,
    }
}

/// Extract server capabilities from an initialize response.
pub fn extract_server_capabilities(init_result: &Json) -> (r: Option<ServerCapabilities>)
    ensures
        match server_caps(init_result@) {
            Some(c) => r is Some && r->0@ == c,
            None => r is None,
        },
{
    match init_result.get("capabilities") {
        Some(c) => match read_lsp_capabilities(c) {
            Some(v) => Some(ServerCapabilities::from_json(&v)),
            None => None,
        },
        None => None,
    }
}

/// Parsed server capability flags used for quick checks.
#[derive(Debug)]
pub struct ServerCapabilityFlags {
    pub completion_trigger_characters: Vec<String>,
    pub completion_resolve_provider: bool,
    pub rename_prepare_provider: bool,
    pub code_action_provider: bool,
    pub code_format_provider: bool,
    pub range_format_provider: bool,
    pub document_highlight_provider: bool,
    pub signature_help_provider: bool,
    pub workspace_symbol_provider: bool,
    pub inlay_hint_provider: bool,
    pub semantic_tokens_provider: bool,
    pub diagnostic_provider: bool,
    pub text_document_sync_kind: TextDocumentSyncKind,
    pub save_include_text: bool,
    pub save_provider: bool,
}

/// The mathematical value of [`ServerCapabilityFlags`].
pub struct Flags {
    pub completion_trigger_characters: Seq<Seq<char>>,
    pub completion_resolve: bool,
    pub rename_prepare: bool,
    pub code_action: bool,
    pub code_format: bool,
    pub range_format: bool,
    pub document_highlight: bool,
    pub signature_help: bool,
    pub workspace_symbol: bool,
    pub inlay_hint: bool,
    pub semantic_tokens: bool,
    pub diagnostic: bool,
    pub sync_kind: TextDocumentSyncKind,
    pub save_include_text: bool,
    pub save: bool,
}

impl View for ServerCapabilityFlags {
    type V = Flags;

    open spec fn view(&self) -> Flags {
        Flags {
            completion_trigger_characters: text::texts(self.completion_trigger_characters@),
            completion_resolve: self.completion_resolve_provider,
            rename_prepare: self.rename_prepare_provider,
            code_action: self.code_action_provider,
            code_format: self.code_format_provider,
            range_format: self.range_format_provider,
            document_highlight: self.document_highlight_provider,
            signature_help: self.signature_help_provider,
            workspace_symbol: self.workspace_symbol_provider,
            inlay_hint: self.inlay_hint_provider,
            semantic_tokens: self.semantic_tokens_provider,
            diagnostic: self.diagnostic_provider,
            sync_kind: self.text_document_sync_kind,
            save_include_text: self.save_include_text,
            save: self.save_provider,
        }
    }
}

/// The flags before a server has said anything: nothing is provided but saves, and documents are
/// synced by what changed.
pub open spec fn default_flags() -> Flags {
    Flags {
        completion_trigger_characters: Seq::empty(),
        completion_resolve: false,
        rename_prepare: false,
        code_action: false,
        code_format: false,
        range_format: false,
        document_highlight: false,
        signature_help: false,
        workspace_symbol: false,
        inlay_hint: false,
        semantic_tokens: false,
        diagnostic: false,
        sync_kind: TextDocumentSyncKind::INCREMENTAL,
        save_include_text: false,
        save: true,
    }
}

/// Whether a provider is there and switched on.
pub open spec fn provided(p: Option<Provider>) -> bool {
    match p {
        Some(Provider::Simple(b)) => b,
        Some(Provider::Options) => true,
        None => false,
    }
}

/// Whether an optional switch is on.
pub open spec fn is_on(b: Option<bool>) -> bool {
    b == Some(true)
}

/// The characters that trigger a completion.
pub open spec fn trigger_flag(completion: Option<(Option<Seq<Seq<char>>>, Option<bool>)>) -> Seq<
    Seq<char>,
> {
    match completion {
        Some((Some(chars), _)) => chars,
        _ => Seq::empty(),
    }
}

/// Whether completion items can be resolved.
pub open spec fn resolve_flag(
    completion: Option<(Option<Seq<Seq<char>>>, Option<bool>)>,
) -> bool {
    match completion {
        Some((_, resolve)) => is_on(resolve),
        None => false,
    }
}

/// Whether a rename can be prepared.
pub open spec fn prepare_flag(rename: Option<RenameProvider>) -> bool {
    match rename {
        Some(RenameProvider::Simple(b)) => b,
        Some(RenameProvider::Options { prepare_provider }) => is_on(prepare_provider),
        None => false,
    }
}

/// How changes reach the server: by what changed, where it does not say.
pub open spec fn kind_flag(sync: Option<TextDocumentSync>) -> TextDocumentSyncKind {
    match sync {
        Some(TextDocumentSync::Kind(k)) => k,
        Some(TextDocumentSync::Options { change: Some(k), .. }) => k,
        _ => TextDocumentSyncKind::INCREMENTAL,
    }
}

/// Whether a save carries the text.
pub open spec fn include_text_flag(sync: Option<TextDocumentSync>) -> bool {
    match sync {
        Some(
            TextDocumentSync::Options { save: Some(SaveOptions::Options { include_text }), .. },
        ) => is_on(include_text),
        _ => false,
    }
}

/// Whether saves reach the server: they do, unless it says no.
pub open spec fn save_flag(sync: Option<TextDocumentSync>) -> bool {
    match sync {
        Some(TextDocumentSync::Options { save: Some(SaveOptions::Supported(b)), .. }) => b,
        _ => true,
    }
}

/// The flags of what a server can do.
pub open spec fn flags_of(c: Caps) -> Flags {
    Flags {
        completion_trigger_characters: trigger_flag(c.completion),
        completion_resolve: resolve_flag(c.completion),
        rename_prepare: prepare_flag(c.rename),
        code_action: provided(c.code_action),
        code_format: provided(c.formatting),
        range_format: provided(c.range_formatting),
        document_highlight: provided(c.highlight),
        signature_help: c.signature_help,
        workspace_symbol: provided(c.workspace_symbol),
        inlay_hint: provided(c.inlay_hint),
        semantic_tokens: c.semantic_tokens,
        diagnostic: c.diagnostic,
        sync_kind: kind_flag(c.sync),
        save_include_text: include_text_flag(c.sync),
        save: save_flag(c.sync),
    }
}

impl Default for ServerCapabilityFlags {
    fn default() -> (r: Self)
        ensures
            r@ == default_flags(),
    {
        let none: Vec<String> = Vec::new();
        assert(text::texts(none@) =~= Seq::<Seq<char>>::empty());
        ServerCapabilityFlags {
            completion_trigger_characters: none,
            completion_resolve_provider: false,
            rename_prepare_provider: false,
            code_action_provider: false,
            code_format_provider: false,
            range_format_provider: false,
            document_highlight_provider: false,
            signature_help_provider: false,
            workspace_symbol_provider: false,
            inlay_hint_provider: false,
            semantic_tokens_provider: false,
            diagnostic_provider: false,
            text_document_sync_kind: TextDocumentSyncKind::INCREMENTAL,
            save_include_text: false,
            save_provider: true,
        }
    }
}

fn check_provided(p: &Option<Provider>) -> (r: bool)
    ensures
        r == provided(*p),
{
    match p {
        Some(Provider::Simple(b)) => *b,
        Some(Provider::Options) => true,
        None => false,
    }
}

fn check_on(b: Option<bool>) -> (r: bool)
    ensures
        r == is_on(b),
{
    match b {
        Some(on) => on,
        None => false,
    }
}

fn read_trigger_flag(caps: &ServerCapabilities) -> (r: Vec<String>)
    ensures
        text::texts(r@) == trigger_flag(caps@.completion),
{
    match &caps.completion_provider {
        Some(provider) => match &provider.trigger_characters {
            Some(v) => return text::clone_strings(v),
            None => {},
        },
        None => {},
    }
    let none: Vec<String> = Vec::new();
    assert(text::texts(none@) =~= Seq::<Seq<char>>::empty());
    none
}

fn read_resolve_flag(caps: &ServerCapabilities) -> (r: bool)
    ensures
        r == resolve_flag(caps@.completion),
{
    match &caps.completion_provider {
        Some(provider) => check_on(provider.resolve_provider),
        None => false,
    }
}

fn read_prepare_flag(rename: &Option<RenameProvider>) -> (r: bool)
    ensures
        r == prepare_flag(*rename),
{
    match rename {
        Some(RenameProvider::Simple(b)) => *b,
        Some(RenameProvider::Options { prepare_provider }) => check_on(*prepare_provider),
        None => false,
    }
}

fn read_kind_flag(sync: &Option<TextDocumentSync>) -> (r: TextDocumentSyncKind)
    ensures
        r == kind_flag(*sync),
{
    match sync {
        Some(TextDocumentSync::Kind(k)) => *k,
        Some(TextDocumentSync::Options { change: Some(k), .. }) => *k,
        _ => TextDocumentSyncKind::INCREMENTAL,
    }
}

fn read_include_text_flag(sync: &Option<TextDocumentSync>) -> (r: bool)
    ensures
        r == include_text_flag(*sync),
{
    match sync {
        Some(
            TextDocumentSync::Options { save: Some(SaveOptions::Options { include_text }), .. },
        ) => check_on(*include_text),
        _ => false,
    }
}

fn read_save_flag(sync: &Option<TextDocumentSync>) -> (r: bool)
    ensures
        r == save_flag(*sync),
{
    match sync {
        Some(TextDocumentSync::Options { save: Some(SaveOptions::Supported(b)), .. }) => *b,
        _ => true,
    }
}

impl ServerCapabilityFlags {
    /// Extract capability flags from what a server can do.
    pub fn from_capabilities(caps: &ServerCapabilities) -> (r: Self)
        ensures
            r@ == flags_of(caps@),
    {
        ServerCapabilityFlags {
            completion_trigger_characters: read_trigger_flag(caps),
            completion_resolve_provider: read_resolve_flag(caps),
            rename_prepare_provider: read_prepare_flag(&caps.rename_provider),
            code_action_provider: check_provided(&caps.code_action_provider),
            code_format_provider: check_provided(&caps.document_formatting_provider),
            range_format_provider: check_provided(&caps.document_range_formatting_provider),
            document_highlight_provider: check_provided(&caps.document_highlight_provider),
            signature_help_provider: caps.signature_help_provider,
            workspace_symbol_provider: check_provided(&caps.workspace_symbol_provider),
            inlay_hint_provider: check_provided(&caps.inlay_hint_provider),
            semantic_tokens_provider: caps.semantic_tokens_provider,
            diagnostic_provider: caps.diagnostic_provider,
            text_document_sync_kind: read_kind_flag(&caps.text_document_sync),
            save_include_text: read_include_text_flag(&caps.text_document_sync),
            save_provider: read_save_flag(&caps.text_document_sync),
        }
    }
}

/// A server that says nothing leaves the flags as they are without one.
pub proof fn law_silent_server_flags(v: Jv)
    requires
        forall|key: Seq<char>| #[trigger] json::member(v, key) is None,
    ensures
        flags_of(caps_of(v)) == default_flags(),
{
}

} // verus!
