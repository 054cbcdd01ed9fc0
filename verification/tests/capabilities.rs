use lsp_bridge::capabilities::{
    deep_merge, default_client_capabilities, extract_server_capabilities, merge_capabilities, ServerCapabilityFlags,
    TextDocumentSyncKind,
};
use lsp_bridge::json::Json;
use lsp_types::{ClientCapabilities, MarkupKind};

fn json(s: &str) -> Json {
    Json::parse(s).unwrap()
}

/// What a value holds behind keys and positions.
fn at(v: &Json, path: &[&str]) -> Json {
    let mut here = v.clone();
    for step in path {
        here = match step.parse::<usize>() {
            Ok(i) => here.as_array().unwrap()[i].clone(),
            Err(_) => here.get(step).unwrap().clone(),
        };
    }
    here
}

/// The announced capabilities as the types of the protocol read them.
fn client(enable_diagnostics: bool) -> ClientCapabilities {
    serde_json::from_str(&default_client_capabilities(enable_diagnostics).to_string()).unwrap()
}

#[test]
fn default_capabilities_has_completion() {
    let caps = client(true);
    let td = caps.text_document.unwrap();
    assert!(td.completion.is_some());
    let comp = td.completion.unwrap();
    let item = comp.completion_item.unwrap();
    assert!(item.snippet_support.unwrap());
}

#[test]
fn default_capabilities_has_hover_markdown() {
    let caps = client(true);
    let td = caps.text_document.unwrap();
    let hover = td.hover.unwrap();
    let formats = hover.content_format.unwrap();
    assert!(formats.contains(&MarkupKind::Markdown));
}

#[test]
fn default_capabilities_has_code_action() {
    let caps = client(true);
    let td = caps.text_document.unwrap();
    let ca = td.code_action.unwrap();
    assert!(!ca.dynamic_registration.unwrap());
    let literal = ca.code_action_literal_support.unwrap();
    assert!(literal.code_action_kind.value_set.contains(&"quickfix".to_string()));
}

#[test]
fn default_capabilities_diagnostics_enabled() {
    let caps = client(true);
    let td = caps.text_document.unwrap();
    let pd = td.publish_diagnostics.unwrap();
    assert!(pd.related_information.unwrap());
    assert!(pd.version_support.unwrap());
}

#[test]
fn default_capabilities_diagnostics_disabled() {
    let caps = client(false);
    let td = caps.text_document.unwrap();
    let pd = td.publish_diagnostics.unwrap();
    assert!(!pd.related_information.unwrap());
    assert!(!pd.version_support.unwrap());
}

#[test]
fn default_capabilities_workspace_folders() {
    let caps = client(true);
    let ws = caps.workspace.unwrap();
    assert!(ws.workspace_folders.unwrap());
    assert!(ws.configuration.unwrap());
}

#[test]
fn default_capabilities_work_done_progress() {
    let caps = client(true);
    let win = caps.window.unwrap();
    assert!(win.work_done_progress.unwrap());
}

#[test]
fn default_capabilities_serializes_to_valid_json() {
    let caps = default_client_capabilities(true);
    assert!(caps.as_object().is_some());
    assert!(at(&caps, &["textDocument", "completion", "completionItem", "snippetSupport"]).as_bool().unwrap());
    assert!(at(&caps, &["workspace", "configuration"]).as_bool().unwrap());
}

#[test]
fn merge_capabilities_with_empty_overrides() {
    let caps = default_client_capabilities(true);
    let merged = merge_capabilities(&caps, &Json::Null);
    // Should be identical
    assert_eq!(caps, merged);
}

#[test]
fn merge_capabilities_with_overrides() {
    let caps = default_client_capabilities(true);
    let overrides = json(r#"{
        "textDocument": {
            "hover": {
                "contentFormat": ["markdown"]
            }
        }
    }"#);
    let merged = merge_capabilities(&caps, &overrides);
    // Override should have taken effect
    let formats = at(&merged, &["textDocument", "hover", "contentFormat"]);
    assert_eq!(formats.as_array().unwrap().len(), 1);
    assert_eq!(at(&formats, &["0"]), json(r#""markdown""#));
}

#[test]
fn deep_merge_objects() {
    let mut target = json(r#"{"a": 1, "b": {"c": 2}}"#);
    let source = json(r#"{"b": {"d": 3}, "e": 4}"#);
    deep_merge(&mut target, &source);
    assert_eq!(at(&target, &["a"]), json(r#"1"#));
    assert_eq!(at(&target, &["b", "c"]), json(r#"2"#));
    assert_eq!(at(&target, &["b", "d"]), json(r#"3"#));
    assert_eq!(at(&target, &["e"]), json(r#"4"#));
}

#[test]
fn deep_merge_replaces_scalars() {
    let mut target = json(r#"{"a": 1}"#);
    let source = json(r#"{"a": 2}"#);
    deep_merge(&mut target, &source);
    assert_eq!(at(&target, &["a"]), json(r#"2"#));
}

#[test]
fn extract_capabilities_from_init_result() {
    // Simulated pyright initialize response
    let init_result = json(r#"{
        "capabilities": {
            "completionProvider": {
                "triggerCharacters": [".", "[", "\"", "'"],
                "resolveProvider": true
            },
            "textDocumentSync": {
                "openClose": true,
                "change": 2,
                "save": {"includeText": false}
            },
            "hoverProvider": true,
            "definitionProvider": true,
            "codeActionProvider": {"codeActionKinds": ["quickfix", "source.organizeImports"]},
            "documentFormattingProvider": true
        }
    }"#);

    let caps = extract_server_capabilities(&init_result).unwrap();
    let flags = ServerCapabilityFlags::from_capabilities(&caps);

    assert_eq!(flags.completion_trigger_characters, vec![".", "[", "\"", "'"]);
    assert!(flags.completion_resolve_provider);
    assert_eq!(flags.text_document_sync_kind, TextDocumentSyncKind::INCREMENTAL);
    assert!(!flags.save_include_text);
    assert!(flags.code_action_provider);
    assert!(flags.code_format_provider);
}

#[test]
fn extract_capabilities_rust_analyzer() {
    // Simulated rust-analyzer initialize response subset
    let init_result = json(r#"{
        "capabilities": {
            "completionProvider": {
                "triggerCharacters": [".", ":", "'", "("],
                "resolveProvider": true
            },
            "textDocumentSync": 2,
            "inlayHintProvider": {"resolveProvider": true},
            "semanticTokensProvider": {"full": {"delta": true}, "legend": {"tokenTypes": [], "tokenModifiers": []}},
            "signatureHelpProvider": {"triggerCharacters": ["(", ","]},
            "renameProvider": {"prepareProvider": true},
            "documentHighlightProvider": true,
            "codeActionProvider": true
        }
    }"#);

    let caps = extract_server_capabilities(&init_result).unwrap();
    let flags = ServerCapabilityFlags::from_capabilities(&caps);

    assert!(flags.completion_resolve_provider);
    assert_eq!(flags.text_document_sync_kind, TextDocumentSyncKind::INCREMENTAL);
    assert!(flags.inlay_hint_provider);
    assert!(flags.semantic_tokens_provider);
    assert!(flags.signature_help_provider);
    assert!(flags.rename_prepare_provider);
    assert!(flags.document_highlight_provider);
    assert!(flags.code_action_provider);
}

#[test]
fn extract_capabilities_no_sync() {
    let init_result = json(r#"{
        "capabilities": {
            "textDocumentSync": 0
        }
    }"#);

    let caps = extract_server_capabilities(&init_result).unwrap();
    let flags = ServerCapabilityFlags::from_capabilities(&caps);
    assert_eq!(flags.text_document_sync_kind, TextDocumentSyncKind::NONE);
}

#[test]
fn extract_capabilities_full_sync() {
    let init_result = json(r#"{
        "capabilities": {
            "textDocumentSync": 1
        }
    }"#);

    let caps = extract_server_capabilities(&init_result).unwrap();
    let flags = ServerCapabilityFlags::from_capabilities(&caps);
    assert_eq!(flags.text_document_sync_kind, TextDocumentSyncKind::FULL);
}

#[test]
fn capability_flags_default() {
    let flags = ServerCapabilityFlags::default();
    assert!(!flags.completion_resolve_provider);
    assert!(!flags.code_action_provider);
    assert!(flags.completion_trigger_characters.is_empty());
}
