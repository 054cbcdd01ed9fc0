use lsp_bridge::json::Json;
use lsp_bridge::jsonrpc::{
    build_error_response, build_notification, build_request, build_response, IncomingMessage, RequestIdGenerator,
    METHOD_NOT_FOUND,
};
use lsp_bridge::session::OutgoingMessage;

fn value(s: &str) -> Json {
    Json::parse(s).unwrap()
}

/// What a value holds behind keys and positions.
fn at(v: &Json, path: &[&str]) -> Json {
    let mut here = v.clone();
    for step in path {
        here = match step.parse::<usize>() {
            Ok(i) => here.as_array().unwrap()[i].clone(),
            Err(_) => here.get(step).unwrap().clone(),
        };
    }
    here
}

// ===== Build tests =====

#[test]
fn build_request_basic() {
    let json = build_request(1, "initialize", value(r#"{"processId": 1234}"#));
    let parsed = value(&json);
    assert_eq!(at(&parsed, &["jsonrpc"]), value(r#""2.0""#));
    assert_eq!(at(&parsed, &["id"]), value(r#"1"#));
    assert_eq!(at(&parsed, &["method"]), value(r#""initialize""#));
    assert_eq!(at(&parsed, &["params", "processId"]), value(r#"1234"#));
}

#[test]
fn build_notification_basic() {
    let json = build_notification("initialized", value(r#"{}"#));
    let parsed = value(&json);
    assert_eq!(at(&parsed, &["jsonrpc"]), value(r#""2.0""#));
    assert_eq!(at(&parsed, &["method"]), value(r#""initialized""#));
    assert!(parsed.get("id").is_none());
}

#[test]
fn build_response_basic() {
    let json = build_response(1, value(r#"{"capabilities": {}}"#));
    let parsed = value(&json);
    assert_eq!(at(&parsed, &["jsonrpc"]), value(r#""2.0""#));
    assert_eq!(at(&parsed, &["id"]), value(r#"1"#));
    assert!(at(&parsed, &["result"]).as_object().is_some());
}

#[test]
fn build_error_response_basic() {
    let json = build_error_response(1, METHOD_NOT_FOUND, "method not found");
    let parsed = value(&json);
    assert_eq!(at(&parsed, &["jsonrpc"]), value(r#""2.0""#));
    assert_eq!(at(&parsed, &["id"]), value(r#"1"#));
    assert_eq!(at(&parsed, &["error", "code"]), value(r#"-32601"#));
    assert_eq!(at(&parsed, &["error", "message"]), value(r#""method not found""#));
}

// ===== Parse tests =====

#[test]
fn parse_response_success() {
    let json = r#"{"jsonrpc":"2.0","id":1,"result":{"items":[]}}"#;
    match IncomingMessage::parse(json).unwrap() {
        IncomingMessage::Response { id, result } => {
            assert_eq!(id, 1);
            assert!(at(&result, &["items"]).as_array().is_some());
        }
        other => panic!("expected Response, got: {:?}", other),
    }
}

#[test]
fn parse_response_error() {
    let json = r#"{"jsonrpc":"2.0","id":1,"error":{"code":-32601,"message":"not found"}}"#;
    match IncomingMessage::parse(json).unwrap() {
        IncomingMessage::ErrorResponse { id, error } => {
            assert_eq!(id, 1);
            assert_eq!(error.code, -32601);
            assert_eq!(error.message, "not found");
        }
        other => panic!("expected ErrorResponse, got: {:?}", other),
    }
}

#[test]
fn parse_notification() {
    let json = r#"{"jsonrpc":"2.0","method":"textDocument/publishDiagnostics","params":{"uri":"file:///tmp/test.py","diagnostics":[]}}"#;
    match IncomingMessage::parse(json).unwrap() {
        IncomingMessage::Notification { method, params } => {
            assert_eq!(method, "textDocument/publishDiagnostics");
            assert!(at(&params, &["diagnostics"]).as_array().is_some());
        }
        other => panic!("expected Notification, got: {:?}", other),
    }
}

#[test]
fn parse_server_request() {
    let json = r#"{"jsonrpc":"2.0","id":1,"method":"workspace/configuration","params":{"items":[]}}"#;
    match IncomingMessage::parse(json).unwrap() {
        IncomingMessage::Request { id, method, params } => {
            assert_eq!(id, 1);
            assert_eq!(method, "workspace/configuration");
            assert!(at(&params, &["items"]).as_array().is_some());
        }
        other => panic!("expected Request, got: {:?}", other),
    }
}

// ===== Request ID generator =====

#[test]
fn request_id_unique() {
    let mut id_gen = RequestIdGenerator::new();
    let ids: Vec<u64> = (0..100).map(|_| id_gen.next()).collect();
    let unique: std::collections::HashSet<u64> = ids.iter().cloned().collect();
    assert_eq!(unique.len(), 100);
}

#[test]
fn request_id_sequential() {
    let mut id_gen = RequestIdGenerator::new();
    let first = id_gen.next();
    let second = id_gen.next();
    assert_eq!(second, first + 1);
}

#[test]
fn outgoing_message_init_vs_normal() {
    let init = OutgoingMessage::Init("test".to_string());
    let normal = OutgoingMessage::Normal("test".to_string());
    match init {
        OutgoingMessage::Init(s) => assert_eq!(s, "test"),
        _ => panic!("expected Init"),
    }
    match normal {
        OutgoingMessage::Normal(s) => assert_eq!(s, "test"),
        _ => panic!("expected Normal"),
    }
}
