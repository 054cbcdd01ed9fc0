use lsp_bridge::config::ConfigError;
use lsp_bridge::json::Json;
use lsp_bridge::remote::docker::{DockerClient, DockerConfig, NotConnected};
use lsp_bridge::remote::protocol::{decode_message, encode_message, ElispRpc, RemoteCommand, SyncCommand};
use lsp_bridge::remote::ssh::{SshClient, SshConfig};

fn json(s: &str) -> Json {
    Json::parse(s).unwrap()
}

#[test]
fn encode_decode_roundtrip() {
    let msg = json(r#"{"command": "open_file", "path": "/tmp/test.py"}"#);
    let encoded = encode_message(&msg);
    let line = std::str::from_utf8(&encoded).unwrap();
    let decoded = decode_message(line).unwrap();
    assert_eq!(decoded.get("command").unwrap().as_str(), Some("open_file"));
    assert_eq!(decoded.get("path").unwrap().as_str(), Some("/tmp/test.py"));
}

#[test]
fn encode_has_newline() {
    let msg = json(r#"{"test": 1}"#);
    let encoded = encode_message(&msg);
    assert!(encoded.ends_with(b"\n"));
}

#[test]
fn decode_empty_line() {
    assert!(decode_message("").is_none());
}

#[test]
fn decode_invalid_json() {
    assert!(decode_message("{invalid}").is_none());
}

#[test]
fn remote_command_deserialize() {
    let json = json(r#"{"command":"eval-in-emacs","sexp":["(message \"hello\")"]}"#);
    let cmd: RemoteCommand = RemoteCommand::from_json(&json).unwrap();
    assert_eq!(cmd.command, "eval-in-emacs");
}

#[test]
fn elisp_rpc_deserialize() {
    let json = json(r#"{"command":"get_emacs_vars","args":["exec-path"],"timestamp":"123456"}"#);
    let rpc: ElispRpc = ElispRpc::from_json(&json).unwrap();
    assert_eq!(rpc.command, "get_emacs_vars");
    assert_eq!(rpc.timestamp, "123456");
}

#[test]
fn docker_config_creation() {
    let config = DockerConfig {
        container_name: "my-dev".to_string(),
        host: "127.0.0.1".to_string(),
        port: 9999,
    };
    assert_eq!(config.container_name, "my-dev");
}

#[test]
fn docker_client_not_connected() {
    let client = DockerClient::new(DockerConfig {
        container_name: "test".to_string(),
        host: "127.0.0.1".to_string(),
        port: 9999,
    });
    assert!(!client.is_connected());
}

#[test]
fn ssh_config_creation() {
    let config = SshConfig {
        hostname: "example.com".to_string(),
        port: 22,
        username: "user".to_string(),
        key_file: Some("/home/user/.ssh/id_rsa".to_string()),
        password: None,
    };
    assert_eq!(config.hostname, "example.com");
    assert_eq!(config.port, 22);
}

#[test]
fn ssh_client_creation() {
    let config = SshConfig {
        hostname: "localhost".to_string(),
        port: 22,
        username: "test".to_string(),
        key_file: None,
        password: Some("pass".to_string()),
    };
    let client = SshClient::new(config);
    assert_eq!(client.config.hostname, "localhost");
}

#[test]
fn encoded_line_is_exact() {
    assert_eq!(encode_message(&json(r#"{"b": [1, -2], "a": "\n"}"#)), b"{\"a\":\"\\n\",\"b\":[1,-2]}\n".to_vec());
    assert_eq!(decode_message("  [1]\r\n"), Some(json("[1]")));
}

#[test]
fn remote_command_fields() {
    let full = json(r#"{"command": "a", "method": "b", "args": [1], "sexp": null}"#);
    let cmd = RemoteCommand::from_json(&full).unwrap();
    assert_eq!(cmd.to_json(), full);
    assert_eq!(RemoteCommand::from_json(&json("[]")), Err(ConfigError::Field("command")));
    assert_eq!(RemoteCommand::from_json(&json("1")), Err(ConfigError::NotAnObject));
    assert_eq!(
        RemoteCommand::from_json(&json(r#"{"command": "a", "method": null}"#)),
        Err(ConfigError::Field("method"))
    );
    assert_eq!(
        ElispRpc::from_json(&json(r#"{"command": "a", "timestamp": 5}"#)),
        Err(ConfigError::Field("timestamp"))
    );
    let rpc = ElispRpc::from_json(&json(r#"["a", "b", {}, "5"]"#)).unwrap();
    assert_eq!(ElispRpc::from_json(&rpc.to_json()), Ok(rpc));
}

#[test]
fn sync_commands_round_trip() {
    for text in [
        r#"{"command": "open_file", "path": "/a"}"#,
        r#"{"command": "close_file", "path": "/a"}"#,
        r#"{"command": "save_file", "path": "/a"}"#,
        r#"{"command": "change_file", "path": "/a", "start": 1, "end": {"line": 2}}"#,
        r#"{"command": "update_file", "path": "/a", "content": "x"}"#,
        r#"{"command": "remote_sync", "info": [1, 2]}"#,
    ] {
        let value = json(text);
        let command = SyncCommand::from_json(&value).unwrap();
        assert_eq!(command.to_json(), Some(value));
    }
    assert_eq!(
        SyncCommand::from_json(&json(r#"{"command": "change_file", "path": "/a", "x": 1}"#)),
        Some(SyncCommand::ChangeFile { path: "/a".to_string(), args: json(r#"{"x": 1}"#) })
    );
}

#[test]
fn sync_commands_that_are_none() {
    for text in [
        r#"{"path": "/a"}"#,
        r#"{"command": "no_such_command", "path": "/a"}"#,
        r#"{"command": "open_file"}"#,
        r#"{"command": "update_file", "path": "/a"}"#,
        r#"{"command": "remote_sync"}"#,
        r#"["change_file", "/a"]"#,
        r#"["open_file", "/a", "/b"]"#,
        r#"[]"#,
        r#"7"#,
    ] {
        assert_eq!(SyncCommand::from_json(&json(text)), None);
    }
    assert_eq!(
        SyncCommand::from_json(&json(r#"["open_file", "/a"]"#)),
        Some(SyncCommand::OpenFile { path: "/a".to_string() })
    );
    let odd = SyncCommand::ChangeFile { path: "/a".to_string(), args: json("3") };
    assert_eq!(odd.to_json(), None);
}

#[test]
fn docker_messages_need_a_connection() {
    let mut client = DockerClient::new(DockerConfig {
        container_name: "test".to_string(),
        host: "127.0.0.1".to_string(),
        port: 9999,
    });
    assert_eq!(client.address(), "127.0.0.1:9999");
    assert_eq!(client.send_message(&Json::Null), Err(NotConnected));
    assert_eq!(client.recv_message("null\n"), Err(NotConnected));
    assert_eq!(NotConnected.to_string(), "not connected to Docker container");
    client.connected();
    assert!(client.is_connected());
    assert_eq!(client.send_message(&Json::Null), Ok(b"null\n".to_vec()));
    assert_eq!(client.recv_message(""), Ok(None));
    assert_eq!(client.recv_message("[true]\n"), Ok(Some(json("[true]"))));
}
