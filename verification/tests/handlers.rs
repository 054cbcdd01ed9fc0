use lsp_bridge::handlers::call_hierarchy::{CallHierarchyIncoming, CallHierarchyOutgoing, PrepareCallHierarchyIncoming};
use lsp_bridge::handlers::code_action::CodeAction;
use lsp_bridge::handlers::completion::Completion;
use lsp_bridge::handlers::completion_item::CompletionItem;
use lsp_bridge::handlers::diagnostic::Diagnostic;
use lsp_bridge::handlers::document_highlight::DocumentHighlight;
use lsp_bridge::handlers::document_symbol::{Breadcrumb, DocumentSymbol, IMenu};
use lsp_bridge::handlers::execute_command::ExecuteCommand;
use lsp_bridge::handlers::find_define::{
    extract_location, extract_location_link, FindDefine, FindImplementation, FindReferences, FindTypeDefine,
};
use lsp_bridge::handlers::formatting::{Formatting, RangeFormatting};
use lsp_bridge::handlers::hover::{parse_hover_contents, Hover};
use lsp_bridge::handlers::inlay_hint::InlayHint;
use lsp_bridge::handlers::registry::build_registry;
use lsp_bridge::handlers::rename::{PrepareRename, Rename};
use lsp_bridge::handlers::semantic_tokens::SemanticTokens;
use lsp_bridge::handlers::signature_help::SignatureHelp;
use lsp_bridge::handlers::workspace_symbol::WorkspaceSymbol;
use lsp_bridge::handlers::{kind_name, Handler, HandlerState, RequestContext, KIND_MAP, SYMBOL_MAP};
use lsp_bridge::json::Json;

fn json(s: &str) -> Json {
    Json::parse(s).unwrap()
}

/// What a value holds behind keys and positions.
fn at(v: &Json, path: &[&str]) -> Json {
    let mut here = v.clone();
    for step in path {
        here = match step.parse::<usize>() {
            Ok(i) => here.as_array().unwrap()[i].clone(),
            Err(_) => here.get(step).unwrap().clone(),
        };
    }
    here
}

#[test]
fn kind_map_matches_python() {
    let expected_kinds = vec![
        "", "Text", "Method", "Function", "Constructor", "Field",
        "Variable", "Class", "Interface", "Module", "Property",
        "Unit", "Value", "Enum", "Keyword", "Snippet", "Color",
        "File", "Reference", "Folder", "EnumMember", "Constant",
        "Struct", "Event", "Operator", "TypeParameter",
    ];
    assert_eq!(KIND_MAP.len(), expected_kinds.len());
    for (i, expected) in expected_kinds.iter().enumerate() {
        assert_eq!(KIND_MAP[i], *expected, "mismatch at index {}", i);
    }
}

#[test]
fn symbol_map_matches_python() {
    let expected_symbols = vec![
        "", "File", "Module", "Namespace", "Package",
        "Class", "Method", "Property", "Field", "Constructor",
        "Enum", "Interface", "Function", "Variable", "Constant",
        "String", "Number", "Boolean", "Array", "Object",
        "Key", "Null", "EnumMember", "Struct", "Event",
        "Operator", "TypeParameter",
    ];
    assert_eq!(SYMBOL_MAP.len(), expected_symbols.len());
    for (i, expected) in expected_symbols.iter().enumerate() {
        assert_eq!(SYMBOL_MAP[i], *expected, "mismatch at index {}", i);
    }
}

#[test]
fn kind_name_valid() {
    assert_eq!(kind_name(3), "Function");
    assert_eq!(kind_name(15), "Snippet");
    assert_eq!(kind_name(0), "");
}

#[test]
fn kind_name_out_of_range() {
    assert_eq!(kind_name(999), "");
}

#[test]
fn handler_state_freshness() {
    let mut state = HandlerState::new();
    state.record(42, 100, 200);

    // Same request_id, same times → fresh
    assert!(state.is_fresh(42, false, 100, 200));
    assert!(state.is_fresh(42, true, 100, 200));

    // Different request_id → stale
    assert!(!state.is_fresh(41, false, 100, 200));

    // Same request_id but file changed, cancel_on_change=true → stale
    assert!(!state.is_fresh(42, true, 101, 200));
    assert!(!state.is_fresh(42, true, 100, 201));

    // Same request_id but file changed, cancel_on_change=false → still fresh
    assert!(state.is_fresh(42, false, 101, 200));
}

#[test]
fn registry_has_all_handlers() {
    let registry = build_registry();
    let expected = [
        "completion", "completion_item_resolve", "hover",
        "find_define", "find_type_define", "find_implementation", "find_references",
        "code_action", "formatting", "rangeFormatting",
        "prepare_rename", "rename", "signature_help",
        "inlay_hint", "semantic_tokens", "diagnostic",
        "document_symbol", "imenu", "breadcrumb",
        "document_highlight", "execute_command", "workspace_symbol",
        "prepare_call_hierarchy_incoming", "prepare_call_hierarchy_outgoing",
        "call_hierarchy_incoming", "call_hierarchy_outgoing",
    ];
    for name in &expected {
        assert!(registry.contains_key(name), "missing handler: {}", name);
    }
    assert_eq!(registry.len(), expected.len());
}

#[test]
fn lib_handler_methods_match_lsp_spec() {
    let registry = build_registry();
    let expected_methods = [
        ("completion", "textDocument/completion"),
        ("completion_item_resolve", "completionItem/resolve"),
        ("hover", "textDocument/hover"),
        ("find_define", "textDocument/definition"),
        ("find_type_define", "textDocument/typeDefinition"),
        ("find_implementation", "textDocument/implementation"),
        ("find_references", "textDocument/references"),
        ("code_action", "textDocument/codeAction"),
        ("formatting", "textDocument/formatting"),
        ("rangeFormatting", "textDocument/rangeFormatting"),
        ("prepare_rename", "textDocument/prepareRename"),
        ("rename", "textDocument/rename"),
        ("signature_help", "textDocument/signatureHelp"),
        ("inlay_hint", "textDocument/inlayHint"),
        ("semantic_tokens", "textDocument/semanticTokens/full"),
        ("diagnostic", "textDocument/diagnostic"),
        ("document_symbol", "textDocument/documentSymbol"),
        ("document_highlight", "textDocument/documentHighlight"),
        ("execute_command", "workspace/executeCommand"),
        ("workspace_symbol", "workspace/symbol"),
        ("prepare_call_hierarchy_incoming", "textDocument/prepareCallHierarchy"),
        ("call_hierarchy_incoming", "callHierarchy/incomingCalls"),
        ("call_hierarchy_outgoing", "callHierarchy/outgoingCalls"),
    ];
    for (name, method) in &expected_methods {
        assert_eq!(
            registry.get(name).unwrap().method(), *method,
            "method mismatch for handler '{}'", name
        );
    }
}

#[test]
fn prepare_incoming_request() {
    let ctx = RequestContext {
        args: vec![json(r#"{"line": 5, "character": 3}"#)],
        server_name: "pyright".to_string(),
        trigger_characters: vec![],
        server_info: json(r#"{}"#),
    };
    let params = PrepareCallHierarchyIncoming.process_request(&ctx).unwrap();
    assert_eq!(at(&params, &["position", "line"]), json(r#"5"#));
}

#[test]
fn incoming_calls_request() {
    let item = json(r#"{"name": "foo", "kind": 12, "uri": "file:///t.py"}"#);
    let ctx = RequestContext {
        args: vec![item.clone()],
        server_name: "pyright".to_string(),
        trigger_characters: vec![],
        server_info: json(r#"{}"#),
    };
    let params = CallHierarchyIncoming.process_request(&ctx).unwrap();
    assert_eq!(at(&params, &["item", "name"]), json(r#""foo""#));
}

#[test]
fn call_hierarchy_methods_per_lsp_spec() {
    assert_eq!(PrepareCallHierarchyIncoming.method(), "textDocument/prepareCallHierarchy");
    assert_eq!(CallHierarchyIncoming.method(), "callHierarchy/incomingCalls");
    assert_eq!(CallHierarchyOutgoing.method(), "callHierarchy/outgoingCalls");
}

fn ctx_code_action(args: Vec<Json>) -> RequestContext {
    RequestContext {
        args,
        server_name: "pyright".to_string(),
        trigger_characters: vec![],
        server_info: json(r#"{"name": "pyright"}"#),
    }
}

#[test]
fn request_with_diagnostics() {
    let handler = CodeAction;
    let diags = json(r#"[{"message": "unused import", "severity": 2}]"#);
    let start = json(r#"{"line": 1, "character": 0}"#);
    let end = json(r#"{"line": 1, "character": 10}"#);
    let ctx = ctx_code_action(vec![diags, start, end, Json::Null]);
    let params = handler.process_request(&ctx).unwrap();

    assert_eq!(at(&params, &["range", "start", "line"]), json(r#"1"#));
    assert_eq!(at(&params, &["range", "end", "character"]), json(r#"10"#));
    assert_eq!(at(&params, &["context", "diagnostics", "0", "message"]), json(r#""unused import""#));
}

// With action_kind filter
#[test]
fn request_with_action_kind() {
    let handler = CodeAction;
    let ctx = ctx_code_action(vec![
        json(r#"[]"#),
        json(r#"{"line": 0, "character": 0}"#),
        json(r#"{"line": 0, "character": 5}"#),
        json(r#""quickfix""#),
    ]);
    let params = handler.process_request(&ctx).unwrap();
    assert_eq!(at(&params, &["context", "only"]), json(r#"["quickfix"]"#));
}

#[test]
fn request_without_action_kind() {
    let handler = CodeAction;
    let ctx = ctx_code_action(vec![
        json(r#"[]"#),
        json(r#"{"line": 0, "character": 0}"#),
        json(r#"{"line": 0, "character": 5}"#),
        Json::Null,
    ]);
    let params = handler.process_request(&ctx).unwrap();
    assert!(at(&params, &["context"]).get("only").is_none());
}

#[test]
fn code_action_handler_properties() {
    let handler = CodeAction;
    assert_eq!(handler.name(), "code_action");
    assert_eq!(handler.method(), "textDocument/codeAction");
    assert!(handler.cancel_on_change());
}

fn ctx_completion(args: Vec<Json>, trigger_chars: Vec<&str>) -> RequestContext {
    RequestContext {
        args,
        server_name: "pyright".to_string(),
        trigger_characters: trigger_chars.into_iter().map(|s| s.to_string()).collect(),
        server_info: json(r#"{"name": "pyright"}"#),
    }
}

// char in trigger_characters → {"position": pos, "context": {"triggerCharacter": ".", "triggerKind": 2}}

#[test]
fn request_trigger_character() {
    let handler = Completion;
    let ctx = ctx_completion(
        vec![json(r#"{"line": 10, "character": 5}"#), json(r#"".""#)],
        vec![".", "["],
    );
    let params = handler.process_request(&ctx).unwrap();
    assert_eq!(at(&params, &["position", "line"]), json(r#"10"#));
    assert_eq!(at(&params, &["position", "character"]), json(r#"5"#));
    assert_eq!(at(&params, &["context", "triggerKind"]), json(r#"2"#));
    assert_eq!(at(&params, &["context", "triggerCharacter"]), json(r#"".""#));
}

// char NOT in trigger_characters → {"position": pos, "context": {"triggerKind": 1}}

#[test]
fn request_invoked() {
    let handler = Completion;
    let ctx = ctx_completion(
        vec![json(r#"{"line": 10, "character": 5}"#), json(r#""a""#)],
        vec![".", "["],
    );
    let params = handler.process_request(&ctx).unwrap();
    assert_eq!(at(&params, &["context", "triggerKind"]), json(r#"1"#));
    assert!(at(&params, &["context"]).get("triggerCharacter").is_none());
}

#[test]
fn request_no_trigger_chars() {
    let handler = Completion;
    let ctx = ctx_completion(
        vec![json(r#"{"line": 0, "character": 0}"#), json(r#"".""#)],
        vec![],
    );
    let params = handler.process_request(&ctx).unwrap();
    assert_eq!(at(&params, &["context", "triggerKind"]), json(r#"1"#)); // no trigger chars → invoked
}

#[test]
fn completion_handler_properties() {
    let handler = Completion;
    assert_eq!(handler.name(), "completion");
    assert_eq!(handler.method(), "textDocument/completion");
    assert!(handler.cancel_on_change());
    assert!(handler.send_document_uri());
}

#[test]
fn completion_item_request() {
    let item = json(r#"{"label": "print", "kind": 3}"#);
    let ctx = RequestContext {
        args: vec![json(r#""print_""#), json(r#""pyright""#), item.clone()],
        server_name: "pyright".to_string(),
        trigger_characters: vec![],
        server_info: json(r#"{}"#),
    };
    let params = CompletionItem.process_request(&ctx).unwrap();
    assert_eq!(at(&params, &["label"]), json(r#""print""#));
}

#[test]
fn completion_item_properties() {
    assert_eq!(CompletionItem.method(), "completionItem/resolve");
    assert!(!CompletionItem.send_document_uri());
    assert!(!CompletionItem.cancel_on_change());
}

#[test]
fn request_empty() {
    let ctx = RequestContext {
        args: vec![],
        server_name: "pyright".to_string(),
        trigger_characters: vec![],
        server_info: json(r#"{}"#),
    };
    let params = Diagnostic.process_request(&ctx).unwrap();
    assert!(params.as_object().unwrap().len() == 0);
}

#[test]
fn diagnostic_properties() { assert_eq!(Diagnostic.method(), "textDocument/diagnostic"); }

#[test]
fn document_highlight_request() {
    let ctx = RequestContext {
        args: vec![json(r#"{"line": 5, "character": 3}"#)],
        server_name: "pyright".to_string(),
        trigger_characters: vec![],
        server_info: json(r#"{}"#),
    };
    let params = DocumentHighlight.process_request(&ctx).unwrap();
    assert_eq!(at(&params, &["position", "line"]), json(r#"5"#));
}

#[test]
fn document_highlight_properties() {
    assert_eq!(DocumentHighlight.method(), "textDocument/documentHighlight");
    assert!(DocumentHighlight.cancel_on_change());
}

#[test]
fn document_symbol_methods_per_lsp_spec() {
    assert_eq!(DocumentSymbol.method(), "textDocument/documentSymbol");
    assert_eq!(IMenu.method(), "textDocument/documentSymbol");
    assert_eq!(Breadcrumb.method(), "textDocument/documentSymbol");
}

#[test]
fn execute_command_request() {
    let ctx = RequestContext {
        args: vec![json(r#""pyright""#), json(r#""organizeImports""#), json(r#"[{"uri": "file:///tmp/t.py"}]"#)],
        server_name: "pyright".to_string(),
        trigger_characters: vec![],
        server_info: json(r#"{}"#),
    };
    let params = ExecuteCommand.process_request(&ctx).unwrap();
    assert_eq!(at(&params, &["command"]), json(r#""organizeImports""#));
    assert!(at(&params, &["arguments"]).as_array().is_some());
}

#[test]
fn execute_command_properties() {
    assert_eq!(ExecuteCommand.method(), "workspace/executeCommand");
    assert!(!ExecuteCommand.send_document_uri());
}

fn ctx_find_define(args: Vec<Json>) -> RequestContext {
    RequestContext {
        args,
        server_name: "pyright".to_string(),
        trigger_characters: vec![],
        server_info: json(r#"{"name": "pyright"}"#),
    }
}

#[test]
fn find_define_request() {
    let handler = FindDefine;
    let ctx = ctx_find_define(vec![json(r#"{"line": 5, "character": 10}"#)]);
    let params = handler.process_request(&ctx).unwrap();
    assert_eq!(
        params,
        json(r#"{"position": {"line": 5, "character": 10}}"#)
    );
}

#[test]
fn find_references_request() {
    let handler = FindReferences;
    let ctx = ctx_find_define(vec![json(r#"{"line": 5, "character": 10}"#)]);
    let params = handler.process_request(&ctx).unwrap();
    assert_eq!(at(&params, &["position", "line"]), json(r#"5"#));
    assert_eq!(at(&params, &["context", "includeDeclaration"]), json(r#"true"#));
}

#[test]
fn extract_location_basic() {
    let loc = json(r#"{
        "uri": "file:///tmp/test.py",
        "range": {
            "start": {"line": 10, "character": 5},
            "end": {"line": 10, "character": 15}
        }
    }"#);
    let (path, line, col) = extract_location(&loc).unwrap();
    assert_eq!(path, "/tmp/test.py");
    assert_eq!(line, 10);
    assert_eq!(col, 5);
}

#[test]
fn extract_location_link_basic() {
    let link = json(r#"{
        "targetUri": "file:///tmp/other.py",
        "targetRange": {
            "start": {"line": 20, "character": 0},
            "end": {"line": 25, "character": 0}
        },
        "targetSelectionRange": {
            "start": {"line": 20, "character": 4},
            "end": {"line": 20, "character": 10}
        }
    }"#);
    let (path, line, col) = extract_location_link(&link).unwrap();
    assert_eq!(path, "/tmp/other.py");
    assert_eq!(line, 20);
    assert_eq!(col, 4); // Uses targetSelectionRange
}

#[test]
fn extract_location_link_no_selection_range() {
    let link = json(r#"{
        "targetUri": "file:///tmp/other.py",
        "targetRange": {
            "start": {"line": 20, "character": 0},
            "end": {"line": 25, "character": 0}
        }
    }"#);
    let (path, line, col) = extract_location_link(&link).unwrap();
    assert_eq!(path, "/tmp/other.py");
    assert_eq!(line, 20);
    assert_eq!(col, 0); // Falls back to targetRange
}

#[test]
fn find_define_handler_methods_match_lsp_spec() {
    assert_eq!(FindDefine.method(), "textDocument/definition");
    assert_eq!(FindTypeDefine.method(), "textDocument/typeDefinition");
    assert_eq!(FindImplementation.method(), "textDocument/implementation");
    assert_eq!(FindReferences.method(), "textDocument/references");
}

#[test]
fn all_cancel_on_change() {
    assert!(FindDefine.cancel_on_change());
    assert!(FindTypeDefine.cancel_on_change());
    assert!(FindImplementation.cancel_on_change());
    assert!(FindReferences.cancel_on_change());
}

fn ctx_formatting(args: Vec<Json>) -> RequestContext {
    RequestContext {
        args,
        server_name: "pyright".to_string(),
        trigger_characters: vec![],
        server_info: json(r#"{}"#),
    }
}

#[test]
fn formatting_request() {
    let params = Formatting.process_request(&ctx_formatting(vec![json(r#"4"#)])).unwrap();
    assert_eq!(at(&params, &["options", "tabSize"]), json(r#"4"#));
    assert_eq!(at(&params, &["options", "trimTrailingWhitespace"]), json(r#"true"#));
}

#[test]
fn range_formatting_request() {
    let params = RangeFormatting.process_request(&ctx_formatting(vec![
        json(r#"{"line": 0, "character": 0}"#),
        json(r#"{"line": 10, "character": 0}"#),
        json(r#"2"#),
    ])).unwrap();
    assert_eq!(at(&params, &["range", "start", "line"]), json(r#"0"#));
    assert_eq!(at(&params, &["range", "end", "line"]), json(r#"10"#));
    assert_eq!(at(&params, &["options", "tabSize"]), json(r#"2"#));
}

fn ctx_hover(args: Vec<Json>, server: &str) -> RequestContext {
    RequestContext {
        args,
        server_name: server.to_string(),
        trigger_characters: vec![],
        server_info: json(&format!("{{\"name\": \"{}\"}}", server)),
    }
}

#[test]
fn request_point_position() {
    let handler = Hover;
    let pos = json(r#"{"line": 5, "character": 3}"#);
    let ctx = ctx_hover(vec![pos.clone(), pos.clone(), json(r#""popup""#)], "pyright");
    let params = handler.process_request(&ctx).unwrap();
    assert_eq!(params, json(r#"{"position": {"line": 5, "character": 3}}"#));
}

#[test]
fn request_range_rust_analyzer() {
    let handler = Hover;
    let start = json(r#"{"line": 5, "character": 0}"#);
    let end = json(r#"{"line": 5, "character": 10}"#);
    let ctx = ctx_hover(
        vec![start.clone(), end.clone(), json(r#""popup""#)],
        "rust-analyzer",
    );
    let params = handler.process_request(&ctx).unwrap();
    assert_eq!(
        params,
        json(r#"{"position": {"start": {"line": 5, "character": 0}, "end": {"line": 5, "character": 10}}}"#)
    );
}

// Non-rust-analyzer with different start/end → use start only
#[test]
fn request_range_non_rust_analyzer() {
    let handler = Hover;
    let start = json(r#"{"line": 5, "character": 0}"#);
    let end = json(r#"{"line": 5, "character": 10}"#);
    let ctx = ctx_hover(
        vec![start.clone(), end.clone(), json(r#""popup""#)],
        "pyright",
    );
    let params = handler.process_request(&ctx).unwrap();
    assert_eq!(params, json(r#"{"position": {"line": 5, "character": 0}}"#));
}

#[test]
fn parse_markdown_content() {
    let contents = json(r##"{"kind": "markdown", "value": "# Hello\nWorld"}"##);
    assert_eq!(parse_hover_contents(&contents), "# Hello\nWorld");
}

#[test]
fn parse_plaintext_content() {
    let contents = json(r#"{"kind": "plaintext", "value": "Hello World"}"#);
    assert_eq!(parse_hover_contents(&contents), "Hello World");
}

#[test]
fn parse_markedstring_with_language() {
    let contents = json(r#"{"language": "python", "value": "def foo(): ..."}"#);
    assert_eq!(
        parse_hover_contents(&contents),
        "```python\ndef foo(): ...\n```"
    );
}

#[test]
fn parse_plain_string() {
    let contents = json(r#""Hello World""#);
    assert_eq!(parse_hover_contents(&contents), "```text\nHello World\n```");
}

#[test]
fn parse_markdown_string() {
    let contents = json(r#""```python\ndef foo(): ...\n```""#);
    assert_eq!(
        parse_hover_contents(&contents),
        "```python\ndef foo(): ...\n```"
    );
}

#[test]
fn parse_array_contents() {
    let contents = json(r#"[
        {"language": "python", "value": "def foo(): ..."},
        "Documentation text"
    ]"#);
    let result = parse_hover_contents(&contents);
    assert!(result.contains("```python"));
    assert!(result.contains("```text\nDocumentation text\n```"));
}

#[test]
fn hover_handler_properties() {
    let handler = Hover;
    assert_eq!(handler.name(), "hover");
    assert_eq!(handler.method(), "textDocument/hover");
    assert!(!handler.cancel_on_change());
}

#[test]
fn inlay_hint_request() {
    let ctx = RequestContext {
        args: vec![json(r#"{"line": 0, "character": 0}"#), json(r#"{"line": 50, "character": 0}"#)],
        server_name: "rust-analyzer".to_string(),
        trigger_characters: vec![],
        server_info: json(r#"{}"#),
    };
    let params = InlayHint.process_request(&ctx).unwrap();
    assert_eq!(at(&params, &["range", "start", "line"]), json(r#"0"#));
    assert_eq!(at(&params, &["range", "end", "line"]), json(r#"50"#));
}

#[test]
fn inlay_hint_properties() {
    assert_eq!(InlayHint.method(), "textDocument/inlayHint");
    assert!(InlayHint.cancel_on_change());
}

fn ctx_rename(args: Vec<Json>) -> RequestContext {
    RequestContext {
        args,
        server_name: "pyright".to_string(),
        trigger_characters: vec![],
        server_info: json(r#"{}"#),
    }
}

#[test]
fn rename_request() {
    let params = Rename.process_request(&ctx_rename(vec![
        json(r#"{"line": 5, "character": 10}"#), json(r#""new_name""#)
    ])).unwrap();
    assert_eq!(at(&params, &["position", "line"]), json(r#"5"#));
    assert_eq!(at(&params, &["newName"]), json(r#""new_name""#));
}

#[test]
fn prepare_rename_request() {
    let params = PrepareRename.process_request(&ctx_rename(vec![
        json(r#"{"line": 5, "character": 10}"#)
    ])).unwrap();
    assert_eq!(at(&params, &["position", "line"]), json(r#"5"#));
}

#[test]
fn semantic_tokens_properties() {
    assert_eq!(SemanticTokens.method(), "textDocument/semanticTokens/full");
    assert!(!SemanticTokens.cancel_on_change());
}

#[test]
fn signature_help_request() {
    let ctx = RequestContext {
        args: vec![json(r#"{"line": 5, "character": 3}"#)],
        server_name: "pyright".to_string(),
        trigger_characters: vec![],
        server_info: json(r#"{}"#),
    };
    let params = SignatureHelp.process_request(&ctx).unwrap();
    assert_eq!(at(&params, &["position", "line"]), json(r#"5"#));
}

#[test]
fn signature_help_properties() {
    assert_eq!(SignatureHelp.method(), "textDocument/signatureHelp");
    assert!(SignatureHelp.cancel_on_change());
}

#[test]
fn request_strips_whitespace() {
    let ctx = RequestContext {
        args: vec![json(r#""my func""#)],
        server_name: "pyright".to_string(),
        trigger_characters: vec![],
        server_info: json(r#"{}"#),
    };
    let params = WorkspaceSymbol.process_request(&ctx).unwrap();
    assert_eq!(at(&params, &["query"]), json(r#""myfunc""#));
}

#[test]
fn workspace_symbol_properties() {
    assert_eq!(WorkspaceSymbol.method(), "workspace/symbol");
}
