//! Whole exchanges with Emacs, from the bytes that come to the bytes that go.

use lsp_bridge::epc::{call_response, message_frame, read_messages, EpcAction, EpcConnection};
use lsp_bridge::message::EpcMessage;
use lsp_bridge::sexp::SexpValue;
use lsp_bridge::wire::FrameDecoder;
use std::collections::HashSet;

/// The messages that the bytes carry, when they come in pieces of the given size.
fn received(bytes: &[u8], piece: usize) -> Vec<String> {
    let mut decoder = FrameDecoder::new();
    let mut messages = Vec::new();
    for part in bytes.chunks(piece) {
        let batch = read_messages(&mut decoder, part);
        assert!(batch.fault.is_none());
        messages.extend(batch.messages);
    }
    messages
}

/// The bytes with which a connection answers the bytes that come, when its methods give the
/// result of `run`.
fn serve(
    connection: &mut EpcConnection,
    bytes: &[u8],
    run: fn(Vec<SexpValue>) -> Result<SexpValue, String>,
) -> Vec<u8> {
    let mut answer = Vec::new();
    for message in received(bytes, 8192) {
        match connection.handle_incoming_message(&message).unwrap() {
            EpcAction::Dispatch { uid, args, .. } => {
                answer.extend(message_frame(&call_response(uid, run(args))));
            }
            EpcAction::Reply(frame) => answer.extend(frame),
            other => panic!("expected an answer, got: {:?}", other),
        }
    }
    answer
}

fn replies(bytes: &[u8]) -> Vec<EpcMessage> {
    received(bytes, 4096).iter().map(|m| EpcMessage::decode(m).unwrap()).collect()
}

fn call(uid: u64, method: &str, args: Vec<SexpValue>) -> Vec<u8> {
    message_frame(&EpcMessage::Call { uid, method: method.to_string(), args })
}

fn echo(args: Vec<SexpValue>) -> Result<SexpValue, String> {
    Ok(SexpValue::List(args))
}

#[test]
fn call_and_return() {
    let mut connection = EpcConnection::new();
    connection.register("ping");
    let answer = serve(&mut connection, &call(1, "ping", vec![]), |_| Ok(SexpValue::String("pong".to_string())));
    match &replies(&answer)[0] {
        EpcMessage::Return { uid, result } => {
            assert_eq!(*uid, 1);
            assert_eq!(*result, SexpValue::String("pong".to_string()));
        }
        other => panic!("expected Return, got: {:?}", other),
    }
}

#[test]
fn call_method_not_found() {
    let mut connection = EpcConnection::new();
    let answer = serve(&mut connection, &call(1, "nonexistent", vec![]), echo);
    match &replies(&answer)[0] {
        EpcMessage::EpcError { uid, message } => {
            assert_eq!(*uid, 1);
            assert!(message.contains("method not found"));
        }
        other => panic!("expected EpcError, got: {:?}", other),
    }
}

#[test]
fn call_with_args() {
    let mut connection = EpcConnection::new();
    connection.register("echo");
    let args = vec![SexpValue::String("hello".to_string()), SexpValue::Integer(42)];
    let answer = serve(&mut connection, &call(1, "echo", args), echo);
    match &replies(&answer)[0] {
        EpcMessage::Return { uid, result } => {
            assert_eq!(*uid, 1);
            assert_eq!(
                *result,
                SexpValue::List(vec![SexpValue::String("hello".to_string()), SexpValue::Integer(42)])
            );
        }
        other => panic!("expected Return, got: {:?}", other),
    }
}

#[test]
fn call_handler_error() {
    let mut connection = EpcConnection::new();
    connection.register("fail");
    let answer = serve(&mut connection, &call(1, "fail", vec![]), |_| Err("intentional error".to_string()));
    match &replies(&answer)[0] {
        EpcMessage::ReturnError { uid, error } => {
            assert_eq!(*uid, 1);
            assert_eq!(*error, SexpValue::String("intentional error".to_string()));
        }
        other => panic!("expected ReturnError, got: {:?}", other),
    }
}

#[test]
fn concurrent_calls() {
    let mut connection = EpcConnection::new();
    connection.register("echo_id");
    let mut bytes = Vec::new();
    for i in 0..10u64 {
        bytes.extend(call(i, "echo_id", vec![SexpValue::Integer(i as i64)]));
    }
    let answer = serve(&mut connection, &bytes, |args| Ok(args.into_iter().next().unwrap_or(SexpValue::Nil)));
    let mut uids = HashSet::new();
    for reply in replies(&answer) {
        match reply {
            EpcMessage::Return { uid, result } => {
                assert_eq!(result, SexpValue::Integer(uid as i64));
                uids.insert(uid);
            }
            other => panic!("expected Return, got: {:?}", other),
        }
    }
    assert_eq!(uids.len(), 10);
}

#[test]
fn connection_call_sync() {
    let mut connection = EpcConnection::new();
    let (asked, frame) =
        connection.call_sync("get-emacs-vars", vec![SexpValue::String("exec-path".to_string())]);
    let result = SexpValue::List(vec![SexpValue::String("/usr/bin".to_string())]);
    let reply = match &replies(&frame)[0] {
        EpcMessage::Call { uid, method, .. } => {
            assert_eq!(method, "get-emacs-vars");
            message_frame(&EpcMessage::Return { uid: *uid, result: result.clone() })
        }
        other => panic!("expected Call, got: {:?}", other),
    };
    let action = connection.handle_incoming_message(&received(&reply, 4096)[0]).unwrap();
    assert_eq!(action, EpcAction::Resolve { uid: asked, result });
}

#[test]
fn unicode_heavy_payload() {
    let mut connection = EpcConnection::new();
    connection.register("echo");
    let unicode_str = "中文测试 日本語 한국어 🎉🎊✨ Ñoño café résumé";
    let args = vec![SexpValue::String(unicode_str.to_string())];
    let answer = serve(&mut connection, &call(1, "echo", args), echo);
    match &replies(&answer)[0] {
        EpcMessage::Return { result, .. } => {
            assert_eq!(*result, SexpValue::List(vec![SexpValue::String(unicode_str.to_string())]));
        }
        other => panic!("expected Return, got: {:?}", other),
    }
}

#[test]
fn large_payload() {
    let mut connection = EpcConnection::new();
    connection.register("echo");
    let large = "x".repeat(100_000);
    let answer = serve(&mut connection, &call(1, "echo", vec![SexpValue::String(large.clone())]), echo);
    match &replies(&answer)[0] {
        EpcMessage::Return { result, .. } => match result {
            SexpValue::List(items) => {
                assert_eq!(items.len(), 1);
                assert_eq!(items[0], SexpValue::String(large));
            }
            _ => panic!("expected list"),
        },
        other => panic!("expected Return, got: {:?}", other),
    }
}
