//! The conversation with a language server.

use bytes::BytesMut;
use lsp_bridge::json::Json;
use lsp_bridge::jsonrpc::{
    build_error_response, build_notification, build_request, build_response, error_value, IncomingError,
    IncomingMessage, JsonRpcError, JsonRpcErrorResponse, JsonRpcNotification, JsonRpcRequest, INTERNAL_ERROR, INVALID_PARAMS, INVALID_REQUEST, PARSE_ERROR,
    SERVER_NOT_INITIALIZED,
};
use lsp_bridge::session::{
    launch_command, read_messages, LaunchError, LspServer, MessageWriter, OutgoingMessage, ServerAction,
};
use lsp_bridge::transport::{
    decode, encode, encode_into, ContentLengthDecoder, DecodeResult, TransportError, MAX_PAYLOAD_SIZE,
};

fn json(s: &str) -> Json {
    Json::parse(s).unwrap()
}

fn server(info: &str) -> LspServer {
    LspServer::new("pyright".to_string(), "/p".to_string(), json(info))
}

fn text_of(msg: OutgoingMessage) -> Json {
    match msg {
        OutgoingMessage::Init(s) | OutgoingMessage::Normal(s) => json(&s),
    }
}

fn incoming(s: &str) -> IncomingMessage {
    IncomingMessage::parse(s).unwrap()
}

#[test]
fn commands_to_launch() {
    assert_eq!(
        launch_command(&json(r#"{"command": ["a", "b", 3, "c"]}"#)),
        Ok(("a".to_string(), vec!["b".to_string(), "c".to_string()]))
    );
    assert_eq!(launch_command(&json("{}")), Err(LaunchError::MissingCommand));
    assert_eq!(launch_command(&json(r#"{"command": [1]}"#)), Err(LaunchError::ProgramNotString));
    assert_eq!(launch_command(&json(r#"{"command": []}"#)), Err(LaunchError::ProgramNotString));
    assert_eq!(LaunchError::MissingCommand.to_string(), "server config missing 'command' array");
    assert_eq!(LaunchError::ProgramNotString.to_string(), "command[0] must be string");
}

#[test]
fn initialize_request() {
    let server = server(r#"{"capabilities": {"x": 1}, "initializationOptions": {"y": 2}}"#);
    let msg = server.send_initialize("/work/p", 77, Json::Null);
    assert!(matches!(msg, OutgoingMessage::Init(_)));
    let sent = text_of(msg);
    assert_eq!(sent.get("id").unwrap().as_u64(), Some(1));
    assert_eq!(sent.get("method").unwrap().as_str(), Some("initialize"));
    let params = sent.get("params").unwrap();
    assert_eq!(params.get("processId").unwrap().as_u64(), Some(77));
    assert_eq!(params.get("rootPath").unwrap().as_str(), Some("/p"));
    assert_eq!(params.get("rootUri").unwrap().as_str(), Some("file:///work/p"));
    assert_eq!(params.get("clientInfo").unwrap(), &json(r#"{"name": "emacs", "version": "lsp-bridge"}"#));
    assert_eq!(params.get("capabilities").unwrap().get("x").unwrap().as_u64(), Some(1));
    assert!(params.get("capabilities").unwrap().get("textDocument").is_some());
    assert_eq!(params.get("initializationOptions").unwrap(), &json(r#"{"y": 2}"#));
    assert!(params.get("workspaceFolders").unwrap().is_null());
}

#[test]
fn initialize_response() {
    let mut server = server(r#"{"settings": {"s": 1}}"#);
    assert!(!server.capability_flags.rename_prepare_provider);
    let actions = server.handle_incoming(incoming(
        r#"{"id": 1, "result": {"capabilities": {"renameProvider": {"prepareProvider": true}}}}"#,
    ));
    assert_eq!(actions.len(), 3);
    assert_eq!(
        actions[0],
        ServerAction::Send(OutgoingMessage::Init(build_notification("initialized", json("{}"))))
    );
    assert_eq!(
        actions[1],
        ServerAction::Send(OutgoingMessage::Init(build_notification(
            "workspace/didChangeConfiguration",
            json(r#"{"settings": {"s": 1}}"#)
        )))
    );
    assert_eq!(actions[2], ServerAction::Initialized);
    assert!(server.capability_flags.rename_prepare_provider);
    assert!(server.server_capabilities.is_some());
}

#[test]
fn requests_are_resolved_once() {
    let mut server = server("{}");
    let (id, msg) = server.send_request("m", json("[1]"));
    assert_eq!(id, 2);
    assert_eq!(text_of(msg), json(r#"{"jsonrpc": "2.0", "id": 2, "method": "m", "params": [1]}"#));
    let response = r#"{"id": 2, "result": "r"}"#;
    assert_eq!(
        server.handle_incoming(incoming(response)),
        vec![ServerAction::Resolve { id: 2, result: json("\"r\"") }]
    );
    assert_eq!(server.handle_incoming(incoming(response)), vec![]);
    let (id, _) = server.send_request_no_wait("m", Json::Null);
    assert_eq!((id, server.handle_incoming(incoming(r#"{"id": 3, "result": 1}"#))), (3, vec![]));
    server.register_pending(3);
    assert_eq!(
        server.handle_incoming(incoming(r#"{"id": 3, "error": {"code": -1, "message": "no"}}"#)),
        vec![ServerAction::Resolve { id: 3, result: json(r#"{"error": {"code": -1, "message": "no"}}"#) }]
    );
}

#[test]
fn requests_of_the_server_are_answered() {
    let mut server = server("{}");
    for (method, params, result) in [
        ("workspace/configuration", r#"{"items": [1, 2]}"#, "[{}, {}]"),
        ("workspace/configuration", "{}", "[{}]"),
        ("window/workDoneProgress/create", "{}", "null"),
        ("client/registerCapability", "{}", "null"),
        ("workspace/applyEdit", "{}", r#"{"applied": true}"#),
        ("workspace/diagnostic/refresh", "{}", "null"),
    ] {
        let msg = IncomingMessage::Request { id: 8, method: method.to_string(), params: json(params) };
        let actions = server.handle_incoming(msg);
        assert_eq!(actions.len(), 2);
        assert_eq!(actions[0], ServerAction::Send(OutgoingMessage::Normal(build_response(8, json(result)))));
        assert!(matches!(&actions[1], ServerAction::ServerRequest { id: 8, .. }));
    }
    let other = server.handle_incoming(incoming(r#"{"id": 8, "method": "other"}"#));
    assert_eq!(other.len(), 1);
    let notified = server.handle_incoming(incoming(r#"{"method": "n", "params": 1}"#));
    assert_eq!(notified, vec![ServerAction::Notify { method: "n".to_string(), params: json("1") }]);
}

#[test]
fn notifications_about_documents() {
    let mut server = server("{}");
    let open = text_of(server.send_did_open("u", "python", 3, "text"));
    assert_eq!(
        open.get("params").unwrap(),
        &json(r#"{"textDocument": {"uri": "u", "languageId": "python", "version": 3, "text": "text"}}"#)
    );
    let close = text_of(server.send_did_close("u"));
    assert_eq!(close, json(r#"{"jsonrpc": "2.0", "method": "textDocument/didClose", "params": {"textDocument": {"uri": "u"}}}"#));
    let change = text_of(server.send_did_change_incremental("u", -1, json("1"), json("2"), 5, "x"));
    assert_eq!(
        change.get("params").unwrap(),
        &json(r#"{"textDocument": {"uri": "u", "version": -1}, "contentChanges": [{"range": {"start": 1, "end": 2}, "rangeLength": 5, "text": "x"}]}"#)
    );
    let full = text_of(server.send_did_change_full("u", 2, "x"));
    assert_eq!(full.get("params").unwrap().get("contentChanges").unwrap(), &json(r#"[{"text": "x"}]"#));
    assert_eq!(
        text_of(server.send_did_save("u", Some("t"))).get("params").unwrap(),
        &json(r#"{"textDocument": {"uri": "u"}, "text": "t"}"#)
    );
    assert!(text_of(server.send_did_save("u", None)).get("params").unwrap().get("text").is_none());
    assert_eq!(text_of(server.send_response(4, json("5"))), json(r#"{"jsonrpc": "2.0", "id": 4, "result": 5}"#));
    let (id, shutdown) = server.shutdown();
    assert_eq!(text_of(shutdown), json(r#"{"jsonrpc": "2.0", "id": 2, "method": "shutdown", "params": null}"#));
    assert_eq!(id, 2);
    assert_eq!(text_of(server.exit()), json(r#"{"jsonrpc": "2.0", "method": "exit", "params": {}}"#));
    assert_eq!(text_of(server.send_notification("n", Json::Null)).get("method").unwrap().as_str(), Some("n"));
}

#[test]
fn messages_wait_for_the_server() {
    let init = |s: &str| OutgoingMessage::Init(s.to_string());
    let normal = |s: &str| OutgoingMessage::Normal(s.to_string());
    let mut writer = MessageWriter::new();
    assert!(writer.accept(normal("n0")).is_empty());
    assert_eq!(writer.accept(init("initialize")), vec![encode("initialize")]);
    assert!(writer.accept(normal("n1")).is_empty());
    assert!(writer.accept(init("initialized")).is_empty());
    assert_eq!(writer.release(), vec![encode("initialized"), encode("n0"), encode("n1")]);
    assert_eq!(writer.accept(normal("n2")), vec![encode("n2")]);
    assert_eq!(writer.accept(init("i2")), vec![encode("i2")]);
}

#[test]
fn bytes_of_the_server() {
    let mut decoder = ContentLengthDecoder::new();
    let mut bytes = encode(r#"{"method": "a"}"#);
    bytes.extend_from_slice(&encode("[1"));
    bytes.extend_from_slice(&encode(r#"{"id": 1, "result": 2}"#));
    let batch = read_messages(&mut decoder, &bytes);
    assert_eq!(batch.messages.len(), 3);
    assert!(matches!(&batch.messages[0], Ok(IncomingMessage::Notification { .. })));
    assert!(matches!(&batch.messages[1], Err(IncomingError::Syntax(_))));
    assert!(matches!(&batch.messages[2], Ok(IncomingMessage::Response { id: 1, .. })));
    assert!(batch.fault.is_none());
    let batch = read_messages(&mut decoder, b"Content-Length: x\r\n\r\n");
    assert!(matches!(batch.fault, Some(TransportError::InvalidHeader(_))));
}

#[test]
fn faults_of_the_transport() {
    assert!(matches!(decode(b"A: b\r\n\r\n"), Err(TransportError::InvalidHeader(_))));
    assert_eq!(
        decode(b"Content-Length: 104857601\r\n\r\n"),
        Err(TransportError::PayloadTooLarge(MAX_PAYLOAD_SIZE + 1))
    );
    assert_eq!(decode(b"Content-Length: 1\r\n\r\n\xff"), Err(TransportError::InvalidUtf8));
    assert_eq!(TransportError::Incomplete.to_string(), "incomplete message: need more data");
    assert_eq!(TransportError::InvalidHeader("h".to_string()).to_string(), "invalid header: h");
    assert_eq!(TransportError::InvalidJson("j".to_string()).to_string(), "invalid JSON: j");
    assert_eq!(TransportError::PayloadTooLarge(5).to_string(), "payload too large: 5 bytes");
    assert_eq!(TransportError::InvalidUtf8.to_string(), "invalid UTF-8");
    let mut buf = BytesMut::new();
    encode_into("{}", &mut buf);
    assert_eq!(&buf[..], b"Content-Length: 2\r\n\r\n{}");
    for k in 0..buf.len() {
        assert_eq!(decode(&buf[..k]), Ok(DecodeResult::Incomplete));
    }
}

#[test]
fn messages_come_back() {
    assert_eq!(
        incoming(&build_request(5, "m", json(r#"{"a": [1]}"#))),
        IncomingMessage::Request { id: 5, method: "m".to_string(), params: json(r#"{"a": [1]}"#) }
    );
    assert_eq!(
        incoming(&build_notification("m", Json::Null)),
        IncomingMessage::Notification { method: "m".to_string(), params: Json::Null }
    );
    assert_eq!(incoming(&build_response(5, json("7"))), IncomingMessage::Response { id: 5, result: json("7") });
    assert_eq!(
        incoming(&build_error_response(5, INTERNAL_ERROR, "no")),
        IncomingMessage::ErrorResponse {
            id: 5,
            error: JsonRpcError { code: -32603, message: "no".to_string(), data: None }
        }
    );
}

#[test]
fn faults_of_messages_of_the_server() {
    assert!(matches!(IncomingMessage::parse("{"), Err(IncomingError::Syntax(_))));
    assert_eq!(IncomingMessage::parse(r#"{"id": 1, "error": {"code": 1}}"#), Err(IncomingError::ErrorObject));
    assert_eq!(JsonRpcError::from_json(&json(r#"{"message": "m"}"#)), None);
    assert_eq!(error_value(PARSE_ERROR, "p"), json(r#"{"code": -32700, "message": "p"}"#));
    assert_eq!((INVALID_REQUEST, INVALID_PARAMS, SERVER_NOT_INITIALIZED), (-32600, -32602, -32002));
}

#[test]
fn the_cut_of_the_servers_bytes_does_not_matter() {
    let mut bytes = encode(r#"{"method": "é"}"#);
    bytes.extend_from_slice(b"Content-Type: x\r\nContent-Length: 2\r\n\r\n{}");
    for k in 0..=bytes.len() {
        let mut decoder = ContentLengthDecoder::new();
        let mut messages = read_messages(&mut decoder, &bytes[..k]).messages;
        messages.extend(read_messages(&mut decoder, &bytes[k..]).messages);
        assert_eq!(messages.len(), 2);
        assert!(matches!(&messages[0], Ok(IncomingMessage::Notification { method, .. }) if method == "é"));
        assert_eq!(decoder.buffered_len(), 0);
    }
}

#[test]
fn other_messages_leave_requests_awaited() {
    let mut server = server("{}");
    let (id, _) = server.send_request("m", Json::Null);
    server.handle_incoming(incoming(r#"{"id": 9, "result": 1}"#));
    server.handle_incoming(incoming(r#"{"id": 2, "method": "m"}"#));
    assert_eq!(
        server.handle_incoming(incoming(r#"{"id": 2, "result": 1}"#)),
        vec![ServerAction::Resolve { id, result: json("1") }]
    );
}

#[test]
fn parameters_that_are_not_there_are_left_out() {
    let request = JsonRpcRequest { jsonrpc: "2.0".to_string(), id: 1, method: "m".to_string(), params: None };
    assert_eq!(request.to_string(), r#"{"jsonrpc":"2.0","id":1,"method":"m"}"#);
    let notification = JsonRpcNotification { jsonrpc: "2.0".to_string(), method: "m".to_string(), params: None };
    assert_eq!(notification.to_string(), r#"{"jsonrpc":"2.0","method":"m"}"#);
    let error = JsonRpcError { code: 1, message: "m".to_string(), data: Some(Json::Null) };
    let response = JsonRpcErrorResponse { jsonrpc: "2.0".to_string(), id: 1, error };
    assert_eq!(
        response.to_string(),
        r#"{"jsonrpc":"2.0","id":1,"error":{"code":1,"message":"m","data":null}}"#
    );
    assert_eq!(build_request(1, "m", json("[]")), r#"{"jsonrpc":"2.0","id":1,"method":"m","params":[]}"#);
}
