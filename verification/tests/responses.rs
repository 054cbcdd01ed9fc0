//! What each handler makes of a server's response.

use lsp_bridge::handlers::registry::build_registry;
use lsp_bridge::handlers::{EmacsCall, Handler, HandlerError, RequestContext, ResponseContext};
use lsp_bridge::json::Json;

fn json(s: &str) -> Json {
    Json::parse(s).unwrap()
}

fn respond(handler: &str, response: &str) -> Vec<EmacsCall> {
    let ctx = ResponseContext {
        filepath: "/p/a.py".to_string(),
        host: "host".to_string(),
        server_name: "pyright".to_string(),
        trigger_characters: vec![".".to_string()],
        server_names: vec!["pyright".to_string(), "ruff".to_string()],
    };
    build_registry().get(handler).unwrap().process_response(&ctx, json(response))
}

fn ask(handler: &str, args: &[&str]) -> Result<Json, HandlerError> {
    let ctx = RequestContext {
        args: args.iter().map(|s| json(s)).collect(),
        server_name: "pyright".to_string(),
        trigger_characters: vec![".".to_string()],
        server_info: Json::Null,
    };
    build_registry().get(handler).unwrap().process_request(&ctx)
}

fn eval(method: &str, args: &[&str]) -> EmacsCall {
    EmacsCall::Eval { method: method.to_string(), args: args.iter().map(|s| json(s)).collect() }
}

fn message(s: &str) -> EmacsCall {
    EmacsCall::Message(s.to_string())
}

#[test]
fn call_hierarchy_responses() {
    assert_eq!(respond("prepare_call_hierarchy_incoming", "null"), vec![message("No call hierarchies found")]);
    assert_eq!(respond("prepare_call_hierarchy_incoming", "[]"), vec![]);
    assert_eq!(
        respond("prepare_call_hierarchy_incoming", "[1, 2]"),
        vec![eval("lsp-bridge-call-hierarchy--incoming", &["1"])]
    );
    assert_eq!(
        respond("prepare_call_hierarchy_outgoing", "[1, 2]"),
        vec![eval("lsp-bridge-call-hierarchy--outgoing", &["1"])]
    );
    assert_eq!(respond("call_hierarchy_incoming", "null"), vec![]);
    assert_eq!(
        respond("call_hierarchy_incoming", "[1]"),
        vec![eval("lsp-bridge-call-hierarchy--render", &[r#""incoming""#, "[1]"])]
    );
    assert_eq!(
        respond("call_hierarchy_outgoing", "[1]"),
        vec![eval("lsp-bridge-call-hierarchy--render", &[r#""outgoing""#, "[1]"])]
    );
    assert_eq!(ask("call_hierarchy_outgoing", &[]), Ok(json(r#"{"item": null}"#)));
}

#[test]
fn code_action_responses() {
    assert_eq!(respond("code_action", "null"), vec![]);
    assert_eq!(respond("code_action", "[]"), vec![]);
    assert_eq!(respond("code_action", "{}"), vec![]);
    assert_eq!(respond("code_action", "[{}]"), vec![eval("lsp-bridge-code-action--fix", &["[{}]", "null"])]);
    assert_eq!(
        ask("code_action", &[]),
        Ok(json(r#"{"range": {"start": null, "end": null}, "context": {"diagnostics": []}}"#))
    );
}

#[test]
fn completion_responses() {
    let empty = eval(
        "lsp-bridge-completion--record-items",
        &[r#""/p/a.py""#, r#""host""#, "[]", "null", r#""pyright""#, r#"["."]"#, r#"["pyright", "ruff"]"#],
    );
    assert_eq!(respond("completion", "null"), vec![empty]);
    let calls = respond(
        "completion",
        r#"{"items": [
            {"label": "print", "kind": 3, "detail": "d", "tags": [2, 1], "score": 5.5, "textEdit": {"newText": "x"}},
            {"label": "y", "kind": 99, "sortText": "s", "insertText": "i", "insertTextFormat": 2, "filterText": "f"}
        ]}"#,
    );
    let candidates = match &calls[0] {
        EmacsCall::Eval { args, .. } => args[2].clone(),
        other => panic!("expected Eval, got: {:?}", other),
    };
    assert_eq!(
        candidates,
        json(
            r#"[
            {"key": "print_d", "icon": "function", "label": "print", "displayLabel": "print", "deprecated": true,
             "insertText": null, "insertTextFormat": "", "textEdit": {"newText": "x"}, "score": 5.5,
             "sortText": "", "filterText": null, "server": "pyright", "backend": "lsp"},
            {"key": "y_", "icon": "", "label": "y", "displayLabel": "y", "deprecated": false,
             "insertText": "i", "insertTextFormat": 2, "textEdit": null, "score": 1000.0,
             "sortText": "s", "filterText": "f", "server": "pyright", "backend": "lsp"}
        ]"#
        )
    );
    let from_array = respond("completion", r#"[{"label": "z"}]"#);
    assert!(matches!(&from_array[0], EmacsCall::Eval { args, .. } if args[2].as_array().unwrap().len() == 1));
}

#[test]
fn completion_item_responses() {
    assert_eq!(respond("completion_item_resolve", "null"), vec![]);
    assert_eq!(
        respond("completion_item_resolve", r#"{"documentation": "doc", "additionalTextEdits": [1]}"#),
        vec![eval("lsp-bridge-completion-item--update", &[r#""doc""#, "[1]", r#""pyright""#])]
    );
    assert_eq!(
        respond("completion_item_resolve", r#"{"documentation": {"kind": "markdown", "value": "m"}}"#),
        vec![eval("lsp-bridge-completion-item--update", &[r#""m""#, "[]", r#""pyright""#])]
    );
    assert_eq!(ask("completion_item_resolve", &["1", "2"]), Err(HandlerError::MissingCompletionItem));
    assert_eq!(HandlerError::MissingCompletionItem.to_string(), "missing completion item");
}

#[test]
fn diagnostic_responses() {
    assert_eq!(respond("diagnostic", "null"), vec![]);
    assert_eq!(respond("diagnostic", "{}"), vec![]);
    assert_eq!(
        respond("diagnostic", r#"{"items": [1, 2]}"#),
        vec![eval("lsp-bridge-diagnostic--render", &[r#""/p/a.py""#, r#""host""#, "[1, 2]", "2"])]
    );
    assert_eq!(
        ask("diagnostic", &[r#""a""#, r#""b""#]),
        Ok(json(r#"{"identifier": "a", "previousResultId": "b"}"#))
    );
}

#[test]
fn symbol_responses() {
    assert_eq!(respond("document_highlight", "[1]"), vec![eval("lsp-bridge-document-highlight-render", &["[1]"])]);
    assert_eq!(
        respond("document_symbol", "[1]"),
        vec![eval("lsp-bridge-document-symbol--render", &[r#""/p/a.py""#, r#""host""#, "[1]"])]
    );
    assert_eq!(respond("imenu", "[1]"), vec![eval("lsp-bridge-imenu--render", &["[1]"])]);
    assert_eq!(respond("breadcrumb", "[]"), vec![]);
    assert_eq!(respond("breadcrumb", r#"[{"location": 1}]"#), vec![]);
    assert_eq!(
        respond("breadcrumb", r#"[{"range": 1}]"#),
        vec![eval("lsp-bridge-breadcrumb--callback", &[r#""/p/a.py""#, r#""host""#, r#"[{"range": 1}]"#])]
    );
    assert_eq!(respond("workspace_symbol", "[]"), vec![eval("lsp-bridge-workspace--list-symbols", &["[]"])]);
    assert_eq!(ask("workspace_symbol", &[r#"" a\tb c ""#]), Ok(json(r#"{"query": "abc"}"#)));
    assert_eq!(respond("execute_command", "[1]"), vec![]);
    assert_eq!(
        respond("semantic_tokens", "{}"),
        vec![eval("lsp-bridge-semantic-tokens--render", &[r#""/p/a.py""#, r#""host""#, "{}"])]
    );
}

#[test]
fn location_responses() {
    let none = vec![message("No definition found.")];
    for response in ["null", "[]", "{}", "[{}]", "3"] {
        assert_eq!(respond("find_define", response), none);
    }
    let location = r#"{"uri": "file:///tmp/t.py", "range": {"start": {"line": 1, "character": 2}, "end": {}}}"#;
    let jump = vec![eval(
        "lsp-bridge-define--jump",
        &[r#""/tmp/t.py""#, r#""host""#, r#"{"line": 1, "character": 2}"#],
    )];
    assert_eq!(respond("find_define", location), jump);
    assert_eq!(respond("find_type_define", &format!("[{}, 1]", location)), jump);
    let link = r#"[{"targetUri": "file:///tmp/t.py", "targetRange": {"start": {"line": 1, "character": 2}}}]"#;
    assert_eq!(respond("find_implementation", link), jump);
    assert_eq!(respond("find_references", "null"), vec![message("No references found.")]);
    assert_eq!(respond("find_references", "[{}]"), vec![message("No references found.")]);
    assert_eq!(
        respond("find_references", &format!("[{{}}, {}]", location)),
        vec![eval("lsp-bridge-references--popup", &[r#"[{"filepath": "/tmp/t.py", "line": 1, "character": 2}]"#])]
    );
}

#[test]
fn formatting_responses() {
    for handler in ["formatting", "rangeFormatting"] {
        assert_eq!(respond(handler, "null"), vec![message("Nothing need format.")]);
        assert_eq!(respond(handler, "[]"), vec![message("Nothing need format.")]);
        assert_eq!(
            respond(handler, "[1]"),
            vec![eval("lsp-bridge-format--update", &[r#""/p/a.py""#, "[1]"])]
        );
    }
    assert_eq!(ask("formatting", &[]).unwrap().get("options").unwrap().get("tabSize").unwrap().as_i64(), Some(4));
}

#[test]
fn hover_responses() {
    let none = vec![message("No documentation available.")];
    for response in ["null", "{}", r#"{"contents": ""}"#, r#"{"contents": []}"#, r#"{"contents": {"value": ""}}"#, r#"{"contents": 1}"#] {
        assert_eq!(respond("hover", response), none);
    }
    assert_eq!(
        respond("hover", r#"{"contents": [{"kind": "c", "value": "int"}, "x", 3, ["```y"]]}"#),
        vec![eval(
            "lsp-bridge-popup-documentation--callback",
            &[r#""```c\nint\n```\n```text\nx\n```\n```y""#]
        )]
    );
}

#[test]
fn inlay_hint_responses() {
    assert_eq!(respond("inlay_hint", "null"), vec![]);
    assert_eq!(respond("inlay_hint", "{}"), vec![]);
    assert_eq!(
        respond("inlay_hint", "[]"),
        vec![eval("lsp-bridge-inlay-hint--render", &[r#""/p/a.py""#, r#""host""#, "[]"])]
    );
}

#[test]
fn rename_responses() {
    assert_eq!(respond("prepare_rename", "null"), vec![]);
    let marked = vec![eval("lsp-bridge-rename--highlight", &[r#""/p/a.py""#, r#""host""#, "1", "null"])];
    assert_eq!(respond("prepare_rename", r#"{"start": 1}"#), marked);
    assert_eq!(respond("prepare_rename", r#"{"range": {"start": 1}, "placeholder": "x"}"#), marked);
    assert_eq!(respond("rename", "null"), vec![message("No rename found")]);
    assert_eq!(
        respond("rename", "{}"),
        vec![eval("lsp-bridge-workspace-apply-edit", &["{}"]), message("Rename done.")]
    );
}

#[test]
fn signature_help_responses() {
    assert_eq!(respond("signature_help", "null"), vec![]);
    assert_eq!(respond("signature_help", r#"{"signatures": []}"#), vec![]);
    assert_eq!(respond("signature_help", r#"{"signatures": [{"label": "f()"}]}"#), vec![]);
    assert_eq!(
        respond(
            "signature_help",
            r#"{"activeSignature": 7, "activeParameter": 1, "signatures": [
                {"label": "f(a: int, b: str)", "parameters": [{"label": "a: int"}, {"label": "b: str"}, {"label": [2, 5]}, {"label": 1}]}
            ]}"#
        ),
        vec![eval(
            "lsp-bridge-signature-help--update",
            &[r#""a, b: str, a: , ""#, "1", r#""f(a: int, b: str)""#]
        )]
    );
    assert_eq!(
        respond(
            "signature_help",
            r#"{"signatures": [{"label": "é(x)", "parameters": [{"label": [3, 99]}, {"label": [1, 3]}]}]}"#
        ),
        vec![eval("lsp-bridge-signature-help--update", &[r#""x), ""#, "0", r#""é(x)""#])]
    );
}
