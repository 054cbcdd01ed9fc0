//! The conversation with Emacs.

use lsp_bridge::epc::{
    call_response, emacs_vars, message_frame, methods_reply, read_messages, EpcAction, EpcClient, EpcConnection,
};
use lsp_bridge::json::Json;
use lsp_bridge::message::{EpcMessage, EvalArg, MessageError};
use lsp_bridge::sexp::{parse, SexpError, SexpValue};
use lsp_bridge::wire::{decode, encode, encode_into, DecodeResult, FrameDecoder, WireError, HEADER_SIZE};
use bytes::BytesMut;

fn string(s: &str) -> SexpValue {
    SexpValue::String(s.to_string())
}

fn read_frame(bytes: &[u8]) -> EpcMessage {
    match decode(bytes).unwrap() {
        DecodeResult::Complete { message, consumed } => {
            assert_eq!(consumed, bytes.len());
            EpcMessage::decode(&message).unwrap()
        }
        DecodeResult::Incomplete { .. } => panic!("expected complete"),
    }
}

#[test]
fn registered_methods_run() {
    let mut connection = EpcConnection::new();
    connection.register("ping");
    let action = connection.handle_incoming_message("(call 1 ping (2))").unwrap();
    assert_eq!(
        action,
        EpcAction::Dispatch { uid: 1, method: "ping".to_string(), args: vec![SexpValue::Integer(2)] }
    );
    assert_eq!(call_response(1, Ok(string("pong"))), EpcMessage::Return { uid: 1, result: string("pong") });
    assert_eq!(
        call_response(1, Err("broken".to_string())),
        EpcMessage::ReturnError { uid: 1, error: string("broken") }
    );
}

#[test]
fn unknown_methods_are_refused() {
    let mut connection = EpcConnection::default();
    match connection.handle_incoming_message("(call 9 nothing ())").unwrap() {
        EpcAction::Reply(bytes) => assert_eq!(
            read_frame(&bytes),
            EpcMessage::EpcError { uid: 9, message: "method not found: nothing".to_string() }
        ),
        other => panic!("expected Reply, got: {:?}", other),
    }
}

#[test]
fn methods_are_listed() {
    let mut connection = EpcConnection::new();
    connection.register("b");
    connection.register("a");
    connection.register("b");
    match connection.handle_incoming_message("(methods 5)").unwrap() {
        EpcAction::Reply(bytes) => match read_frame(&bytes) {
            EpcMessage::Return { uid, result } => {
                assert_eq!(uid, 5);
                let mut names: Vec<&str> =
                    result.as_list().unwrap().iter().map(|v| v.as_symbol().unwrap()).collect();
                names.sort();
                assert_eq!(names, vec!["a", "b"]);
            }
            other => panic!("expected Return, got: {:?}", other),
        },
        other => panic!("expected Reply, got: {:?}", other),
    }
    assert_eq!(methods_reply(1, &vec!["x".to_string()]).encode(), "(return 1 (x))");
}

#[test]
fn calls_are_resolved_once() {
    let mut connection = EpcConnection::new();
    let (uid, bytes) = connection.call_sync("f", vec![]);
    assert_eq!((uid, read_frame(&bytes)), (1, EpcMessage::Call { uid: 1, method: "f".to_string(), args: vec![] }));
    assert_eq!(read_frame(&connection.call_async("g", vec![])).encode(), "(call 2 g ())");
    assert_eq!(
        connection.handle_message(EpcMessage::Return { uid: 1, result: SexpValue::Nil }),
        EpcAction::Resolve { uid: 1, result: SexpValue::Nil }
    );
    assert_eq!(
        connection.handle_message(EpcMessage::Return { uid: 1, result: SexpValue::Nil }),
        EpcAction::Unawaited { uid: 1 }
    );
    assert_eq!(
        connection.handle_message(EpcMessage::ReturnError { uid: 2, error: SexpValue::Nil }),
        EpcAction::Unawaited { uid: 2 }
    );
}

#[test]
fn errors_end_calls() {
    let mut connection = EpcConnection::new();
    connection.call_sync("f", vec![]);
    connection.call_sync("g", vec![]);
    assert_eq!(
        connection.handle_incoming_message("(return-error 1 \"no\")").unwrap(),
        EpcAction::Resolve { uid: 1, result: string("no") }
    );
    assert_eq!(
        connection.handle_incoming_message("(epc-error 2 \"bad\")").unwrap(),
        EpcAction::Resolve { uid: 2, result: string("epc-error: bad") }
    );
}

#[test]
fn faulty_messages_change_nothing() {
    let mut connection = EpcConnection::new();
    assert_eq!(
        connection.handle_incoming_message("(call"),
        Err(MessageError::SexpError(SexpError::UnexpectedEof))
    );
    assert!(matches!(connection.handle_incoming_message("(what 1)"), Err(MessageError::UnknownType(_))));
    assert_eq!(connection.call_sync("f", vec![]).0, 1);
}

#[test]
fn frames_of_answers() {
    let connection = EpcConnection::new();
    assert_eq!(connection.send_return(3, SexpValue::Nil), encode("(return 3 nil)"));
    assert_eq!(connection.send_error(3, string("x")), encode("(return-error 3 \"x\")"));
    let message = EpcMessage::Methods { uid: 4 };
    assert_eq!(connection.send_message(&message), encode("(methods 4)"));
    assert_eq!(message_frame(&message), encode("(methods 4)"));
}

#[test]
fn calls_of_the_client() {
    let mut client = EpcClient::new(EpcConnection::new());
    let bytes = client.eval_in_emacs("f", &[EvalArg::Integer(1), EvalArg::Bool(false), EvalArg::Nil]);
    assert_eq!(read_frame(&bytes).encode(), "(call 1 eval-in-emacs ((\"(f '1 'nil 'nil)\")))");
    let bytes = client.message_emacs("hello");
    assert_eq!(
        read_frame(&bytes).encode(),
        "(call 2 eval-in-emacs ((\"(message '\\\"[LSP-Bridge] hello\\\")\")))"
    );
    let (uid, bytes) = client.get_emacs_vars(vec![string("v")]);
    assert_eq!((uid, read_frame(&bytes).encode().as_str()), (3, "(call 3 get-emacs-vars (\"v\"))"));
    let (uid, _) = client.get_emacs_func_result("f", vec![]);
    assert_eq!(uid, 4);
    assert_eq!(
        client.connection().handle_message(EpcMessage::Return { uid: 3, result: SexpValue::Nil }),
        EpcAction::Resolve { uid: 3, result: SexpValue::Nil }
    );
}

#[test]
fn values_of_variables() {
    let result = parse("((t t) (nil t) (5 nil) () \"x\" (1 2 3))").unwrap();
    assert_eq!(
        emacs_vars(&result),
        vec![
            Json::Bool(true),
            Json::Bool(false),
            Json::integer(5),
            Json::Bool(false),
            Json::str("x"),
            Json::parse("[1, 2, 3]").unwrap(),
        ]
    );
    assert_eq!(emacs_vars(&SexpValue::Integer(3)), vec![Json::integer(3)]);
}

#[test]
fn bytes_become_messages() {
    let mut decoder = FrameDecoder::new();
    let mut bytes = encode("one");
    bytes.extend_from_slice(&encode("two"));
    bytes.extend_from_slice(&encode("three")[..4]);
    let batch = read_messages(&mut decoder, &bytes);
    assert_eq!(batch.messages, vec!["one", "two"]);
    assert!(batch.fault.is_none());
    assert_eq!(decoder.buffered_len(), 4);
    let batch = read_messages(&mut decoder, &encode("three")[4..]);
    assert_eq!(batch.messages, vec!["three"]);
    let batch = read_messages(&mut decoder, b"zzzzzz");
    assert_eq!(batch.fault, Some(WireError::InvalidHexLength("zzzzzz".to_string())));
}

#[test]
fn faults_of_frames() {
    assert_eq!(decode(b"zzzzzz"), Err(WireError::InvalidHexLength("zzzzzz".to_string())));
    assert_eq!(decode(b"000002\xff\n"), Err(WireError::InvalidUtf8));
    assert!(matches!(decode(b"\xff\xff\xff\xff\xff\xff"), Err(_)));
    assert_eq!(WireError::InvalidHexLength("x".to_string()).to_string(), "invalid hex length: x");
    assert_eq!(WireError::InvalidUtf8.to_string(), "invalid UTF-8 in frame");
    assert_eq!(WireError::FrameTooLarge(17).to_string(), "frame too large: 17 bytes");
    assert_eq!(WireError::Incomplete { needed: 3 }.to_string(), "incomplete frame: need 3 more bytes");
}

#[test]
fn every_prefix_of_a_frame_is_incomplete() {
    let frame = encode("héllo");
    for k in 0..frame.len() {
        match decode(&frame[..k]).unwrap() {
            DecodeResult::Incomplete { needed } => assert!(needed > 0 && k + needed <= frame.len()),
            DecodeResult::Complete { .. } => panic!("expected incomplete"),
        }
    }
}

#[test]
fn frames_in_buffers() {
    let mut buf = BytesMut::new();
    encode_into("a", &mut buf);
    encode_into("", &mut buf);
    assert_eq!(&buf[..], b"000002a\n000001\n");
    assert_eq!(HEADER_SIZE, 6);
}

#[test]
fn the_cut_of_the_bytes_does_not_matter() {
    let mut bytes = Vec::new();
    for message in ["(methods 1)", "", "\"é\""] {
        bytes.extend_from_slice(&encode(message));
    }
    for k in 0..=bytes.len() {
        let mut decoder = FrameDecoder::new();
        let mut messages = read_messages(&mut decoder, &bytes[..k]).messages;
        messages.extend(read_messages(&mut decoder, &bytes[k..]).messages);
        assert_eq!(messages, vec!["(methods 1)", "", "\"é\""]);
        assert!(decoder.is_empty());
    }
}

#[test]
fn other_messages_leave_calls_awaited() {
    let mut connection = EpcConnection::new();
    connection.call_sync("f", vec![]);
    connection.handle_incoming_message("(call 1 g ())").unwrap();
    connection.handle_incoming_message("(return 2 nil)").unwrap();
    connection.handle_incoming_message("(methods 1)").unwrap();
    assert_eq!(
        connection.handle_incoming_message("(return 1 5)").unwrap(),
        EpcAction::Resolve { uid: 1, result: SexpValue::Integer(5) }
    );
}

#[test]
fn what_was_decoded_stays() {
    for bytes in ["zzzzzz", "000002a\n", "000003é\n"] {
        let mut more = bytes.as_bytes().to_vec();
        more.extend_from_slice(b"000001\n");
        match (decode(bytes.as_bytes()), decode(&more)) {
            (Ok(DecodeResult::Complete { message, consumed }), Ok(DecodeResult::Complete { message: m, consumed: c })) => {
                assert_eq!((message, consumed), (m, c));
            }
            (Err(WireError::InvalidHexLength(a)), Err(WireError::InvalidHexLength(b))) => assert_eq!(a, b),
            other => panic!("expected the same twice, got: {:?}", other),
        }
    }
}
