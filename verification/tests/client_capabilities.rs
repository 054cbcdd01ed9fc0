//! The client's capabilities, against the types of the protocol.

use lsp_bridge::capabilities::{
    default_client_capabilities, deep_merge, extract_server_capabilities, merge_capabilities, SaveOptions,
    ServerCapabilityFlags, TextDocumentSync, TextDocumentSyncKind,
};
use lsp_bridge::json::Json;
use lsp_types::{
    ClientCapabilities, CodeActionClientCapabilities, CodeActionKindLiteralSupport, CodeActionLiteralSupport,
    CompletionClientCapabilities, CompletionItemCapability, CompletionItemCapabilityResolveSupport,
    CompletionItemTag, DiagnosticClientCapabilities, DiagnosticTag, DidChangeWatchedFilesClientCapabilities,
    DocumentSymbolClientCapabilities, DynamicRegistrationClientCapabilities, HoverClientCapabilities,
    InlayHintClientCapabilities, MarkupKind, PublishDiagnosticsClientCapabilities, SignatureHelpClientCapabilities,
    TagSupport, TextDocumentClientCapabilities, WindowClientCapabilities, WorkspaceClientCapabilities,
    WorkspaceSymbolClientCapabilities, WorkspaceSymbolResolveSupportCapability,
};

fn json(s: &str) -> Json {
    Json::parse(s).unwrap()
}

fn dynamic(on: bool) -> DynamicRegistrationClientCapabilities {
    DynamicRegistrationClientCapabilities { dynamic_registration: Some(on) }
}

fn strings(v: &[&str]) -> Vec<String> {
    v.iter().map(|s| s.to_string()).collect()
}

fn typed(enable: bool) -> ClientCapabilities {
    let workspace = WorkspaceClientCapabilities {
        configuration: Some(true),
        symbol: Some(WorkspaceSymbolClientCapabilities {
            resolve_support: Some(WorkspaceSymbolResolveSupportCapability { properties: vec![] }),
            ..Default::default()
        }),
        did_change_watched_files: Some(DidChangeWatchedFilesClientCapabilities {
            dynamic_registration: Some(true),
            relative_pattern_support: Some(true),
        }),
        workspace_folders: Some(true),
        apply_edit: Some(true),
        did_change_configuration: Some(dynamic(true)),
        ..Default::default()
    };
    let completion_item = CompletionItemCapability {
        snippet_support: Some(true),
        deprecated_support: Some(true),
        tag_support: Some(TagSupport { value_set: vec![CompletionItemTag::DEPRECATED] }),
        resolve_support: Some(CompletionItemCapabilityResolveSupport {
            properties: strings(&["documentation", "detail", "additionalTextEdits"]),
        }),
        ..Default::default()
    };
    let kinds = strings(&[
        "quickfix",
        "refactor",
        "refactor.extract",
        "refactor.inline",
        "refactor.rewrite",
        "source",
        "source.organizeImports",
    ]);
    let text_document = TextDocumentClientCapabilities {
        completion: Some(CompletionClientCapabilities {
            completion_item: Some(completion_item),
            ..Default::default()
        }),
        code_action: Some(CodeActionClientCapabilities {
            dynamic_registration: Some(false),
            code_action_literal_support: Some(CodeActionLiteralSupport {
                code_action_kind: CodeActionKindLiteralSupport { value_set: kinds },
            }),
            is_preferred_support: Some(true),
            ..Default::default()
        }),
        hover: Some(HoverClientCapabilities {
            content_format: Some(vec![MarkupKind::Markdown, MarkupKind::PlainText]),
            dynamic_registration: Some(true),
        }),
        formatting: Some(dynamic(true)),
        range_formatting: Some(dynamic(true)),
        on_type_formatting: Some(dynamic(true)),
        document_symbol: Some(DocumentSymbolClientCapabilities {
            hierarchical_document_symbol_support: Some(true),
            ..Default::default()
        }),
        inlay_hint: Some(InlayHintClientCapabilities { dynamic_registration: Some(false), ..Default::default() }),
        publish_diagnostics: Some(PublishDiagnosticsClientCapabilities {
            related_information: Some(enable),
            tag_support: Some(TagSupport {
                value_set: vec![DiagnosticTag::UNNECESSARY, DiagnosticTag::DEPRECATED],
            }),
            version_support: Some(enable),
            code_description_support: Some(enable),
            data_support: Some(enable),
            ..Default::default()
        }),
        diagnostic: Some(DiagnosticClientCapabilities {
            dynamic_registration: Some(false),
            related_document_support: Some(false),
        }),
        signature_help: Some(SignatureHelpClientCapabilities { ..Default::default() }),
        ..Default::default()
    };
    ClientCapabilities {
        workspace: Some(workspace),
        text_document: Some(text_document),
        window: Some(WindowClientCapabilities { work_done_progress: Some(true), ..Default::default() }),
        ..Default::default()
    }
}

#[test]
fn capabilities_are_those_of_the_protocol() {
    for enable in [true, false] {
        let expected = json(&serde_json::to_string(&typed(enable)).unwrap());
        assert_eq!(default_client_capabilities(enable), expected);
    }
}

#[test]
fn overrides_keep_custom_fields() {
    let base = default_client_capabilities(true);
    let merged = merge_capabilities(
        &base,
        &json(r#"{"offsetEncoding": ["utf-8"], "window": {"workDoneProgress": false}}"#),
    );
    assert_eq!(merged.get("offsetEncoding").unwrap(), &json(r#"["utf-8"]"#));
    assert_eq!(merged.get("window").unwrap().get("workDoneProgress").unwrap().as_bool(), Some(false));
    assert_eq!(merged.get("workspace"), base.get("workspace"));
}

#[test]
fn overrides_that_cannot_be_read_change_nothing() {
    let base = default_client_capabilities(true);
    assert_eq!(merge_capabilities(&base, &json(r#"{"window": 5}"#)), base);
    assert_eq!(merge_capabilities(&base, &json("[1]")), base);
    assert_eq!(merge_capabilities(&base, &Json::Null), base);
}

#[test]
fn merging_goes_deep() {
    let mut target = json(r#"{"a": {"b": 1, "c": [1, 2]}, "d": 3}"#);
    deep_merge(&mut target, &json(r#"{"a": {"c": [9], "e": {}}, "f": null}"#));
    assert_eq!(target, json(r#"{"a": {"b": 1, "c": [9], "e": {}}, "d": 3, "f": null}"#));
    deep_merge(&mut target, &json("7"));
    assert_eq!(target, json("7"));
}

#[test]
fn what_a_server_says() {
    let result = json(
        r#"{"capabilities": {
            "completionProvider": {"triggerCharacters": [".", ":"], "resolveProvider": true},
            "renameProvider": true,
            "codeActionProvider": {"codeActionKinds": ["quickfix"]},
            "documentFormattingProvider": false,
            "signatureHelpProvider": {},
            "textDocumentSync": {"change": 1, "save": {"includeText": true}}
        }}"#,
    );
    let caps = extract_server_capabilities(&result).unwrap();
    assert_eq!(
        caps.text_document_sync,
        Some(TextDocumentSync::Options {
            change: Some(TextDocumentSyncKind::FULL),
            save: Some(SaveOptions::Options { include_text: Some(true) }),
        })
    );
    let flags = ServerCapabilityFlags::from_capabilities(&caps);
    assert_eq!(flags.completion_trigger_characters, vec![".", ":"]);
    assert!(flags.completion_resolve_provider && flags.rename_prepare_provider && flags.code_action_provider);
    assert!(!flags.code_format_provider && flags.signature_help_provider && !flags.diagnostic_provider);
    assert!(flags.save_include_text && flags.save_provider);
    assert_eq!(flags.text_document_sync_kind, TextDocumentSyncKind::FULL);
    assert!(extract_server_capabilities(&json(r#"{"capabilities": {"completionProvider": 3}}"#)).is_none());
    assert!(extract_server_capabilities(&json("{}")).is_none());
}
