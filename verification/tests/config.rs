use lsp_bridge::config::{
    find_server_config, language_id, load_all_multi_server_configs, load_all_server_configs, load_multi_server_config,
    load_server_config, ConfigError, ConfigFile, LoadError, MultiServerConfig, MultiServerTarget, ServerConfig,
};
use lsp_bridge::json::Json;

/// What a value holds behind keys.
fn at(v: &Json, path: &[&str]) -> Json {
    let mut here = v.clone();
    for step in path {
        here = here.get(step).unwrap().clone();
    }
    here
}

#[test]
fn parse_pyright_config() {
    let json = r#"{
        "name": "pyright",
        "languageId": "python",
        "command": ["pyright-langserver", "--stdio"],
        "settings": {"python.analysis": {"autoImportCompletions": true}}
    }"#;
    let config: ServerConfig = load_server_config(json).unwrap();
    assert_eq!(config.name, "pyright");
    assert_eq!(config.language_id, "python");
    assert_eq!(config.command, vec!["pyright-langserver", "--stdio"]);
    assert!(at(&config.settings, &["python.analysis", "autoImportCompletions"]).as_bool().unwrap());
}

#[test]
fn parse_rust_analyzer_config() {
    let json = r#"{
        "name": "rust-analyzer",
        "languageId": "rust",
        "command": ["rust-analyzer"],
        "settings": {},
        "projectFiles": ["Cargo.toml"],
        "capabilities": {"textDocument": {"hover": {"contentFormat": ["markdown"]}}},
        "initializationOptions": {"diagnostics": {"enable": true}}
    }"#;
    let config: ServerConfig = load_server_config(json).unwrap();
    assert_eq!(config.name, "rust-analyzer");
    assert_eq!(config.project_files, vec!["Cargo.toml"]);
    assert!(at(&config.capabilities, &["textDocument"]).as_object().is_some());
    assert!(at(&config.initialization_options, &["diagnostics", "enable"]).as_bool().unwrap());
}

#[test]
fn parse_config_with_org_babel() {
    let json = r#"{
        "name": "rust-analyzer",
        "languageId": "rust",
        "command": ["rust-analyzer"],
        "orgBabelVirtualFile": "org_examples/src/main.rs"
    }"#;
    let config: ServerConfig = load_server_config(json).unwrap();
    assert_eq!(
        config.org_babel_virtual_file.as_deref(),
        Some("org_examples/src/main.rs")
    );
}

#[test]
fn parse_config_minimal() {
    let json = r#"{
        "name": "test",
        "languageId": "test",
        "command": ["test-server"]
    }"#;
    let config: ServerConfig = load_server_config(json).unwrap();
    assert_eq!(config.name, "test");
    assert!(config.project_files.is_empty());
    assert!(!config.support_single_file);
    assert!(config.capabilities.is_null());
}

#[test]
fn parse_multiserver_config() {
    let json = r#"{
        "default": "pyright",
        "diagnostics": ["pyright", "ruff"],
        "code_action": ["pyright", "ruff"],
        "execute_command": ["pyright", "ruff"],
        "formatting": "ruff"
    }"#;
    let config: MultiServerConfig = load_multi_server_config(json).unwrap();
    assert_eq!(config.default, "pyright");
    match &config.diagnostics {
        Some(MultiServerTarget::Multiple(v)) => {
            assert_eq!(v, &["pyright", "ruff"]);
        }
        other => panic!("expected Multiple, got: {:?}", other),
    }
    match &config.formatting {
        Some(MultiServerTarget::Single(s)) => assert_eq!(s, "ruff"),
        other => panic!("expected Single, got: {:?}", other),
    }
}

#[test]
fn multiserver_target_names() {
    let single = MultiServerTarget::Single("pyright".to_string());
    assert_eq!(single.names(), vec!["pyright"]);

    let multi = MultiServerTarget::Multiple(vec![
        "pyright".to_string(),
        "ruff".to_string(),
    ]);
    assert_eq!(multi.names(), vec!["pyright", "ruff"]);
}

fn file(name: &str, content: &str) -> ConfigFile {
    ConfigFile { name: name.to_string(), content: content.to_string() }
}

#[test]
fn config_errors_name_the_field() {
    assert_eq!(load_server_config("[1]"), Err(LoadError::Invalid(ConfigError::Field("name"))));
    assert_eq!(load_server_config("17"), Err(LoadError::Invalid(ConfigError::NotAnObject)));
    assert!(matches!(load_server_config("{"), Err(LoadError::Syntax(_))));
    let no_command = r#"{"name": "a", "languageId": "b"}"#;
    assert_eq!(load_server_config(no_command), Err(LoadError::Invalid(ConfigError::Field("command"))));
    let bad_command = r#"{"name": "a", "languageId": "b", "command": ["x", 1]}"#;
    assert_eq!(load_server_config(bad_command), Err(LoadError::Invalid(ConfigError::Field("command"))));
    let bad_flag = r#"{"name": "a", "languageId": "b", "command": [], "support-single-file": null}"#;
    assert_eq!(
        load_server_config(bad_flag),
        Err(LoadError::Invalid(ConfigError::Field("support-single-file")))
    );
    let bad_target = r#"{"default": "a", "hover": 3}"#;
    assert_eq!(load_multi_server_config(bad_target), Err(LoadError::Invalid(ConfigError::Field("hover"))));
}

#[test]
fn config_reads_its_own_json() {
    let config = load_server_config(
        r#"{"name": "a", "languageId": "b", "command": ["c"], "completionTriggerCharacters": ["."], "support-single-file": true}"#,
    )
    .unwrap();
    let json = config.to_json();
    assert_eq!(json.as_object().unwrap().len(), 10);
    assert!(json.get("orgBabelVirtualFile").unwrap().is_null());
    assert_eq!(ServerConfig::from_json(&json), Ok(config));
}

#[test]
fn config_from_an_array_of_fields() {
    let config = load_server_config(r#"["a", "b", ["c"], {"d": 1}]"#).unwrap();
    assert_eq!(config.name, "a");
    assert_eq!(config.command, vec!["c"]);
    assert_eq!(config.settings.get("d").unwrap().as_i64(), Some(1));
    assert!(config.completion_trigger_characters.is_none());
}

#[test]
fn configs_of_a_directory() {
    let files = vec![
        file("pyright.json", r#"{"name": "pyright", "languageId": "python", "command": ["old"]}"#),
        file("broken.json", "{"),
        file("notes.txt", r#"{"name": "notes", "languageId": "text", "command": []}"#),
        file(".json", r#"{"name": "hidden", "languageId": "text", "command": []}"#),
        file("again.json", r#"{"name": "pyright", "languageId": "python", "command": ["new"]}"#),
        file("ra.json", r#"{"name": "rust-analyzer", "languageId": "rust", "command": ["ra"]}"#),
    ];
    let configs = load_all_server_configs(&files);
    assert_eq!(configs.len(), 2);
    assert_eq!(configs.get("pyright").unwrap().command, vec!["new"]);
    assert!(!configs.contains_key("hidden"));
    assert_eq!(find_server_config(&configs, "rs").unwrap().name, "rust-analyzer");
    assert!(find_server_config(&configs, "go").is_none());
}

#[test]
fn multi_configs_of_a_directory() {
    let files = vec![
        file("pyright_ruff.json", r#"{"default": "pyright"}"#),
        file("none.json", r#"{}"#),
    ];
    let configs = load_all_multi_server_configs(&files);
    assert_eq!(configs.len(), 1);
    assert_eq!(configs.get("pyright_ruff").unwrap().default, "pyright");
}

#[test]
fn languages_of_extensions() {
    for (extension, language) in [
        ("py", "python"),
        ("rs", "rust"),
        ("jsx", "javascript"),
        ("tsx", "typescript"),
        ("h", "c"),
        ("hpp", "c++"),
        ("go", "go"),
        ("el", "emacs-lisp"),
        ("rb", "ruby"),
        ("sh", "bash"),
        ("bash", "bash"),
        ("yml", "yaml"),
        ("zig", "zig"),
        ("xyz", "xyz"),
    ] {
        assert_eq!(language_id(extension), language);
    }
}

#[test]
fn fields_stand_once() {
    let twice = r#"{"name": "a", "languageId": "b", "command": ["c"], "n\u0061me": "d"}"#;
    assert_eq!(load_server_config(twice), Err(LoadError::Repeated("name".to_string())));
    let defaulted = r#"{"name": "a", "languageId": "b", "command": ["c"], "settings": 1, "settings": 2}"#;
    assert_eq!(load_server_config(defaulted), Err(LoadError::Repeated("settings".to_string())));
    let multi = r#"{"default": "a", "hover": "b", "hover": ["c"]}"#;
    assert_eq!(load_multi_server_config(multi), Err(LoadError::Repeated("hover".to_string())));
    let files = vec![
        ConfigFile { name: "x.json".to_string(), content: twice.to_string() },
        ConfigFile { name: "y.json".to_string(), content: multi.to_string() },
    ];
    assert!(load_all_server_configs(&files).is_empty());
    assert!(load_all_multi_server_configs(&files).is_empty());
}

#[test]
fn unknown_fields_are_passed_over() {
    let config = load_server_config(
        r#" { "x": 1, "x": {"name": [",}", "\"]"]}, "big": 1e999, "name" : "a" ,
            "languageId": "b", "command": ["c", "{,\\"], "settings": {"name": {"d": [1, 2]}} } "#,
    )
    .unwrap();
    assert_eq!(config.name, "a");
    assert_eq!(config.command, vec!["c", "{,\\"]);
    assert_eq!(config.settings.to_string(), r#"{"name":{"d":[1,2]}}"#);
    assert!(matches!(load_server_config(r#"{"name": "a", "x": }"#), Err(LoadError::Syntax(_))));
    assert!(matches!(load_server_config(r#"{"name": "a"} x"#), Err(LoadError::Syntax(_))));
    assert!(matches!(load_server_config(r#"{"\ud800": 1}"#), Err(LoadError::Syntax(_))));
    let deep = format!("{}{}", "[".repeat(126), "]".repeat(126));
    let text = |v: &str| format!(r#"{{"name": "a", "languageId": "b", "command": [], "settings": {}}}"#, v);
    assert!(load_server_config(&text(&deep)).is_ok());
    assert!(matches!(load_server_config(&text(&format!("[{}]", deep))), Err(LoadError::Syntax(_))));
}
