use lsp_bridge::bridge::{
    extension, find_project_path, join_path, request_params, response_calls, Directory, Dispatch, Event, EventMessage,
    FileAction, LspBridge, OpenPlan, Route, ServerRef,
};
use lsp_bridge::config::{load_all_server_configs, ConfigFile, ServerConfig};
use lsp_bridge::epc::EpcConnection;
use lsp_bridge::handlers::registry::build_registry;
use lsp_bridge::handlers::{EmacsCall, Handler, RequestContext};
use lsp_bridge::json::Json;
use lsp_bridge::sexp::SexpValue;
use lsp_bridge::table::Table;

#[test]
fn file_action_new() {
    let fa = FileAction::new("/tmp/test.py".to_string());
    assert_eq!(fa.filepath, "/tmp/test.py");
    assert!(fa.handler_states.is_empty());
    assert!(fa.get_lsp_servers().is_empty());
    assert!(fa.get_server_names().is_empty());
}

#[test]
fn find_project_path_fallback() {
    // No directory on the way up holds a marker, so the first of them is taken.
    let dirs = vec![
        dir("/nonexistent/dir/file.py", &[]),
        dir("/nonexistent/dir", &["file.txt"]),
        dir("/nonexistent", &[]),
        dir("/", &["tmp", "home"]),
    ];
    let project = find_project_path(&dirs);
    assert_eq!(project, "/nonexistent/dir/file.py");
}

#[test]
fn bridge_new() {
    let bridge = LspBridge::new("/tmp");
    assert!(bridge.file_actions.is_empty());
    assert!(bridge.lsp_servers.is_empty());
    assert!(bridge.handlers.contains_key("completion"));
    assert!(bridge.handlers.contains_key("hover"));
}

#[test]
fn bridge_handler_registry() {
    let bridge = LspBridge::new("/tmp");
    // Verify all expected handlers are registered
    let expected = [
        "completion", "hover", "find_define", "find_type_define",
        "find_implementation", "find_references", "code_action",
    ];
    for name in &expected {
        assert!(
            bridge.handlers.contains_key(name),
            "missing handler: {}",
            name
        );
    }
}

#[test]
fn bridge_creates_with_handlers() {
    let bridge = LspBridge::new("/tmp");
    assert!(!bridge.handlers.is_empty());
}

#[test]
fn config_module_accessible() {
    let _config = ServerConfig {
        name: "test".to_string(),
        language_id: "test".to_string(),
        command: vec!["test-server".to_string()],
        settings: Json::Null,
        project_files: vec![],
        support_single_file: false,
        capabilities: Json::Null,
        initialization_options: Json::Null,
        org_babel_virtual_file: None,
        completion_trigger_characters: None,
    };
}

fn dir(path: &str, entries: &[&str]) -> Directory {
    Directory { path: path.to_string(), entries: entries.iter().map(|s| s.to_string()).collect() }
}

fn configs() -> Table<ServerConfig> {
    let content = r#"{"name": "pyright", "languageId": "python", "command": ["pyright-langserver"]}"#;
    load_all_server_configs(&vec![ConfigFile { name: "pyright.json".to_string(), content: content.to_string() }])
}

fn opened_bridge() -> LspBridge {
    let mut bridge = LspBridge::new("/tmp");
    match bridge.open_file("/p/a.py", "/p", &configs()) {
        OpenPlan::Spawn { server, config } => bridge.file_opened("/p/a.py", server, config),
        other => panic!("expected Spawn, got: {:?}", other),
    }
    bridge
}

fn string(s: &str) -> SexpValue {
    SexpValue::String(s.to_string())
}

#[test]
fn directories_of_the_bridge() {
    let bridge = LspBridge::new("/base");
    assert_eq!(bridge.langserver_dir, "/base/langserver");
    assert_eq!(bridge.multiserver_dir, "/base/multiserver");
    assert_eq!(join_path("/", "a"), "/a");
    assert_eq!(join_path("", "a"), "a");
}

#[test]
fn extensions_of_paths() {
    assert_eq!(extension("/tmp/test.py"), "py");
    assert_eq!(extension("archive.tar.gz"), "gz");
    assert_eq!(extension("/tmp/.bashrc"), "");
    assert_eq!(extension("/tmp/Makefile"), "");
    assert_eq!(extension("/a.b/c"), "");
    assert_eq!(extension("/tmp/test.rs/"), "rs");
    assert_eq!(extension("/tmp/test.rs/."), "rs");
    assert_eq!(extension("/tmp/.."), "");
    assert_eq!(extension("x."), "");
    assert_eq!(extension(""), "");
    for path in ["/tmp/test.py", "archive.tar.gz", "/tmp/.bashrc", "/a.b/c", "/t.rs/", "/t.rs/./", "..", "a/..", "x.", ""] {
        let expected = std::path::Path::new(path).extension().and_then(|e| e.to_str()).unwrap_or("");
        assert_eq!(extension(path), expected);
    }
}

#[test]
fn nearest_marker_is_the_root() {
    let dirs = vec![
        dir("/p/src/deep", &["a.rs"]),
        dir("/p/src", &["lib.rs", "setup.py"]),
        dir("/p", &[".git", "Cargo.toml"]),
    ];
    assert_eq!(find_project_path(&dirs), "/p/src");
}

#[test]
fn a_server_is_started_once() {
    let mut bridge = opened_bridge();
    assert_eq!(bridge.open_file("/p/a.py", "/p", &configs()), OpenPlan::AlreadyOpen);
    match bridge.open_file("/p/b.py", "/p", &configs()) {
        OpenPlan::Reuse { server, config } => {
            assert_eq!(server, ServerRef { key: "pyright#/p".to_string(), name: "pyright".to_string() });
            bridge.file_opened("/p/b.py", server, config);
        }
        other => panic!("expected Reuse, got: {:?}", other),
    }
    assert_eq!(bridge.lsp_servers.len(), 1);
    assert!(matches!(bridge.open_file("/q/a.py", "/q", &configs()), OpenPlan::Spawn { .. }));
    assert_eq!(bridge.open_file("/p/a.go", "/p", &configs()), OpenPlan::NoServer);
}

#[test]
fn closing_a_file_tells_its_servers() {
    let mut bridge = opened_bridge();
    let told = bridge.close_file("/p/a.py");
    assert_eq!(told.len(), 1);
    assert_eq!(told[0].name, "pyright");
    assert!(bridge.file_actions.is_empty());
    assert!(bridge.close_file("/p/a.py").is_empty());
    assert_eq!(bridge.lsp_servers.len(), 1);
}

#[test]
fn several_servers_of_a_file() {
    let mut file = FileAction::new("/p/a.py".to_string());
    file.multi_servers = Some(vec![
        ServerRef { key: "pyright#/p".to_string(), name: "pyright".to_string() },
        ServerRef { key: "ruff#/p".to_string(), name: "ruff".to_string() },
    ]);
    assert_eq!(file.get_server_names(), vec!["pyright", "ruff"]);
    file.single_server = Some(ServerRef { key: "ty#/p".to_string(), name: "ty".to_string() });
    assert_eq!(file.get_server_names(), vec!["ty"]);
}

#[test]
fn calls_without_a_file_are_ignored() {
    let bridge = opened_bridge();
    assert!(matches!(bridge.dispatch("hover", &vec![], false), Dispatch::Ignore));
    assert!(matches!(bridge.dispatch("hover", &vec![SexpValue::Integer(1)], false), Dispatch::Ignore));
    assert!(matches!(bridge.dispatch("hover", &vec![string("")], false), Dispatch::Ignore));
}

#[test]
fn calls_open_their_file_first() {
    let bridge = LspBridge::new("/tmp");
    match bridge.dispatch("hover", &vec![string("/p/a.py")], false) {
        Dispatch::OpenFirst(path) => assert_eq!(path, "/p/a.py"),
        other => panic!("expected OpenFirst, got: {:?}", other),
    }
    assert!(matches!(bridge.dispatch("hover", &vec![string("/p/a.py")], true), Dispatch::Ignore));
}

#[test]
fn calls_go_to_the_servers_of_their_file() {
    let bridge = opened_bridge();
    assert!(matches!(bridge.dispatch("no_such_method", &vec![string("/p/a.py")], false), Dispatch::Ignore));
    match bridge.dispatch("rename", &vec![string("/p/a.py"), SexpValue::Nil, string("b")], false) {
        Dispatch::Send { filepath, handler, servers, args } => {
            assert_eq!(filepath, "/p/a.py");
            assert_eq!(handler.method(), "textDocument/rename");
            assert_eq!(servers.len(), 1);
            assert_eq!(args, vec![Json::Null, Json::str("b")]);
        }
        other => panic!("expected Send, got: {:?}", other),
    }
}

fn request(args: Vec<Json>) -> RequestContext {
    RequestContext {
        args,
        server_name: "pyright".to_string(),
        trigger_characters: vec![],
        server_info: Json::Null,
    }
}

#[test]
fn params_name_the_document() {
    let registry = build_registry();
    let hover = registry.get("hover").unwrap();
    let position = Json::parse(r#"{"line": 5, "character": 3}"#).unwrap();
    let params = request_params(&hover, &request(vec![position]), "/p/a.py").unwrap();
    assert_eq!(
        params,
        Json::parse(r#"{"position": {"line": 5, "character": 3}, "textDocument": {"uri": "file:///p/a.py"}}"#).unwrap()
    );
    let resolve = registry.get("completion_item_resolve").unwrap();
    let item = Json::parse(r#"{"label": "print"}"#).unwrap();
    let ctx = request(vec![Json::str("k"), Json::str("pyright"), item.clone()]);
    assert_eq!(request_params(&resolve, &ctx, "/p/a.py"), Ok(item));
    assert!(request_params(&resolve, &request(vec![]), "/p/a.py").is_err());
}

#[test]
fn responses_become_calls() {
    let registry = build_registry();
    let rename = registry.get("prepare_rename").unwrap();
    let server = ServerRef { key: "pyright#/p".to_string(), name: "pyright".to_string() };
    let names = vec!["pyright".to_string()];
    let calls = response_calls(&rename, "/p/a.py", &server, &vec![], &names, Json::Null);
    assert!(calls.iter().all(|c| matches!(c, EmacsCall::Message(_) | EmacsCall::Eval { .. })));
    let hover = registry.get("hover").unwrap();
    let response = Json::parse(r#"{"contents": {"kind": "markdown", "value": "text"}}"#).unwrap();
    let calls = response_calls(&hover, "/p/a.py", &server, &vec![], &names, response);
    assert_eq!(calls.len(), 1);
}

#[test]
fn routes_of_methods() {
    let bridge = LspBridge::new("/tmp");
    assert_eq!(bridge.route("hover"), Route::Queue("hover".to_string()));
    assert_eq!(bridge.route("try_completion"), Route::Queue("completion".to_string()));
    assert_eq!(bridge.route("try_code_action"), Route::Queue("code_action".to_string()));
    assert_eq!(bridge.route("try_formatting"), Route::Queue("try_formatting".to_string()));
    assert_eq!(bridge.route("open_file"), Route::Queue("open_file".to_string()));
    assert_eq!(bridge.route("search_list_search"), Route::Silent);
    assert_eq!(bridge.route("profile_dump"), Route::Silent);
    assert_eq!(bridge.route("no_such_method"), Route::Unknown);
}

#[test]
fn every_route_is_registered() {
    let bridge = LspBridge::new("/tmp");
    let mut connection = EpcConnection::new();
    bridge.register_methods(&mut connection);
    let action = connection.handle_incoming_message("(methods 7)").unwrap();
    let shown = format!("{:?}", action);
    assert!(shown.len() > 100);
    for (method, known) in [("hover", true), ("change_cursor", true), ("cleanup", true), ("unknown", false)] {
        let call = format!("(call 1 {} ())", method);
        let dispatched = matches!(
            connection.handle_incoming_message(&call).unwrap(),
            lsp_bridge::epc::EpcAction::Dispatch { .. }
        );
        assert_eq!(dispatched, known);
    }
}

#[test]
fn events_of_the_queue() {
    let open = EventMessage { method: "open_file".to_string(), args: vec![string("/p/a.py")] };
    assert!(matches!(open.event(), Event::Open(path) if path == "/p/a.py"));
    let close = EventMessage { method: "close_file".to_string(), args: vec![SexpValue::Nil] };
    assert!(matches!(close.event(), Event::Close(path) if path.is_empty()));
    let hover = EventMessage { method: "hover".to_string(), args: vec![] };
    assert!(matches!(hover.event(), Event::Dispatch { method, .. } if method == "hover"));
}
