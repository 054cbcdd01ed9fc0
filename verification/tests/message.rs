use lsp_bridge::json::Json;
use lsp_bridge::message::{build_eval_in_emacs, convert_emacs_bool, epc_arg_transformer, EpcMessage, EvalArg};
use lsp_bridge::sexp::SexpValue;

fn json(s: &str) -> Json {
    Json::parse(s).unwrap()
}

// ===== Message encoding tests =====

#[test]
fn encode_call() {
    let msg = EpcMessage::Call {
        uid: 42,
        method: "open_file".to_string(),
        args: vec![SexpValue::String("/tmp/test.py".to_string())],
    };
    assert_eq!(msg.encode(), "(call 42 open_file (\"/tmp/test.py\"))");
}

#[test]
fn encode_call_matches_python() {
    let msg = EpcMessage::Call {
        uid: 42,
        method: "open_file".to_string(),
        args: vec![SexpValue::String("/tmp/test.py".to_string())],
    };
    assert_eq!(
        msg.encode(),
        "(call 42 open_file (\"/tmp/test.py\"))"
    );
}

#[test]
fn encode_return() {
    let msg = EpcMessage::Return {
        uid: 42,
        result: SexpValue::String("ok".to_string()),
    };
    assert_eq!(msg.encode(), "(return 42 \"ok\")");
}

#[test]
fn encode_return_matches_python() {
    let msg = EpcMessage::Return {
        uid: 42,
        result: SexpValue::String("ok".to_string()),
    };
    assert_eq!(msg.encode(), "(return 42 \"ok\")");
}

#[test]
fn encode_return_error() {
    let msg = EpcMessage::ReturnError {
        uid: 42,
        error: SexpValue::String("method not found".to_string()),
    };
    assert_eq!(
        msg.encode(),
        "(return-error 42 \"method not found\")"
    );
}

#[test]
fn encode_return_error_matches_python() {
    let msg = EpcMessage::ReturnError {
        uid: 42,
        error: SexpValue::String("method not found".to_string()),
    };
    assert_eq!(
        msg.encode(),
        "(return-error 42 \"method not found\")"
    );
}

#[test]
fn encode_epc_error() {
    let msg = EpcMessage::EpcError {
        uid: 42,
        message: "protocol error".to_string(),
    };
    assert_eq!(msg.encode(), "(epc-error 42 \"protocol error\")");
}

#[test]
fn encode_epc_error_matches_python() {
    let msg = EpcMessage::EpcError {
        uid: 42,
        message: "protocol error".to_string(),
    };
    assert_eq!(
        msg.encode(),
        "(epc-error 42 \"protocol error\")"
    );
}

#[test]
fn encode_methods() {
    let msg = EpcMessage::Methods { uid: 1 };
    assert_eq!(msg.encode(), "(methods 1)");
}

#[test]
fn encode_methods_matches_python() {
    let msg = EpcMessage::Methods { uid: 1 };
    assert_eq!(msg.encode(), "(methods 1)");
}

// ===== Message decoding tests =====

#[test]
fn decode_call() {
    let msg = EpcMessage::decode("(call 42 try_completion (\"file.py\" 10 5))").unwrap();
    match msg {
        EpcMessage::Call { uid, method, args } => {
            assert_eq!(uid, 42);
            assert_eq!(method, "try_completion");
            assert_eq!(args.len(), 3);
            assert_eq!(args[0], SexpValue::String("file.py".to_string()));
            assert_eq!(args[1], SexpValue::Integer(10));
            assert_eq!(args[2], SexpValue::Integer(5));
        }
        _ => panic!("expected Call"),
    }
}

#[test]
fn decode_call_empty_args() {
    let msg = EpcMessage::decode("(call 1 ping ())").unwrap();
    match msg {
        EpcMessage::Call { uid, method, args } => {
            assert_eq!(uid, 1);
            assert_eq!(method, "ping");
            assert!(args.is_empty());
        }
        _ => panic!("expected Call"),
    }
}

#[test]
fn decode_return() {
    let msg = EpcMessage::decode("(return 42 \"ok\")").unwrap();
    match msg {
        EpcMessage::Return { uid, result } => {
            assert_eq!(uid, 42);
            assert_eq!(result, SexpValue::String("ok".to_string()));
        }
        _ => panic!("expected Return"),
    }
}

#[test]
fn decode_return_complex() {
    let msg = EpcMessage::decode(
        "(return 42 ((\"label\" . \"print\") (\"kind\" . \"Function\")))",
    )
    .unwrap();
    match msg {
        EpcMessage::Return { uid, result } => {
            assert_eq!(uid, 42);
            // Should be a list of cons cells
            if let SexpValue::List(items) = result {
                assert_eq!(items.len(), 2);
            } else {
                panic!("expected list result");
            }
        }
        _ => panic!("expected Return"),
    }
}

#[test]
fn decode_return_error() {
    let msg = EpcMessage::decode("(return-error 42 \"method not found\")").unwrap();
    match msg {
        EpcMessage::ReturnError { uid, error } => {
            assert_eq!(uid, 42);
            assert_eq!(error, SexpValue::String("method not found".to_string()));
        }
        _ => panic!("expected ReturnError"),
    }
}

#[test]
fn decode_epc_error() {
    let msg = EpcMessage::decode("(epc-error 42 \"protocol error\")").unwrap();
    match msg {
        EpcMessage::EpcError { uid, message } => {
            assert_eq!(uid, 42);
            assert_eq!(message, "protocol error");
        }
        _ => panic!("expected EpcError"),
    }
}

#[test]
fn decode_methods() {
    let msg = EpcMessage::decode("(methods 1)").unwrap();
    match msg {
        EpcMessage::Methods { uid } => assert_eq!(uid, 1),
        _ => panic!("expected Methods"),
    }
}

#[test]
fn decode_emacs_bool_nil() {
    // Emacs sends nil for false
    let msg = EpcMessage::decode("(return 1 nil)").unwrap();
    match msg {
        EpcMessage::Return { result, .. } => {
            assert_eq!(result, SexpValue::Nil);
        }
        _ => panic!("expected Return"),
    }
}

#[test]
fn decode_emacs_bool_t() {
    let msg = EpcMessage::decode("(return 1 t)").unwrap();
    match msg {
        EpcMessage::Return { result, .. } => {
            assert_eq!(result, SexpValue::Bool(true));
        }
        _ => panic!("expected Return"),
    }
}

#[test]
fn decode_unknown_type() {
    assert!(EpcMessage::decode("(unknown 1)").is_err());
}

#[test]
fn decode_invalid_format() {
    assert!(EpcMessage::decode("42").is_err());
    assert!(EpcMessage::decode("()").is_err());
    assert!(EpcMessage::decode("(42)").is_err());
}

// ===== Encode-Decode roundtrip =====

fn assert_message_roundtrip(msg: &EpcMessage) {
    let encoded = msg.encode();
    let decoded = EpcMessage::decode(&encoded).unwrap();
    assert_eq!(
        msg, &decoded,
        "roundtrip failed:\n  encoded: {}\n  original: {:?}\n  decoded: {:?}",
        encoded, msg, decoded
    );
}

#[test]
fn roundtrip_call() {
    assert_message_roundtrip(&EpcMessage::Call {
        uid: 42,
        method: "open_file".to_string(),
        args: vec![SexpValue::String("/tmp/test.py".to_string())],
    });
}

#[test]
fn roundtrip_call_complex_args() {
    assert_message_roundtrip(&EpcMessage::Call {
        uid: 100,
        method: "try_completion".to_string(),
        args: vec![
            SexpValue::String("/tmp/test.py".to_string()),
            SexpValue::Integer(10),
            SexpValue::Integer(5),
            SexpValue::String(".".to_string()),
            SexpValue::String("os".to_string()),
            SexpValue::Integer(1),
        ],
    });
}

#[test]
fn roundtrip_return() {
    assert_message_roundtrip(&EpcMessage::Return {
        uid: 42,
        result: SexpValue::String("ok".to_string()),
    });
}

#[test]
fn roundtrip_return_error() {
    assert_message_roundtrip(&EpcMessage::ReturnError {
        uid: 42,
        error: SexpValue::String("not found".to_string()),
    });
}

#[test]
fn roundtrip_epc_error() {
    assert_message_roundtrip(&EpcMessage::EpcError {
        uid: 42,
        message: "protocol error".to_string(),
    });
}

#[test]
fn roundtrip_methods() {
    assert_message_roundtrip(&EpcMessage::Methods { uid: 1 });
}

#[test]
fn transform_integer() {
    assert_eq!(
        epc_arg_transformer(&SexpValue::Integer(42)),
        json(r#"42"#)
    );
}

#[test]
fn transform_string() {
    assert_eq!(
        epc_arg_transformer(&SexpValue::String("hello".to_string())),
        json(r#""hello""#)
    );
}

#[test]
fn transform_plist_to_dict() {
    let plist = SexpValue::List(vec![
        SexpValue::Keyword(":a".to_string()),
        SexpValue::Integer(1),
        SexpValue::Keyword(":b".to_string()),
        SexpValue::Integer(2),
    ]);
    assert_eq!(
        epc_arg_transformer(&plist),
        json(r#"{"a": 1, "b": 2}"#)
    );
}

#[test]
fn transform_nested_plist() {
    let plist = SexpValue::List(vec![
        SexpValue::Keyword(":a".to_string()),
        SexpValue::Integer(1),
        SexpValue::Keyword(":b".to_string()),
        SexpValue::List(vec![
            SexpValue::Keyword(":c".to_string()),
            SexpValue::Integer(2),
        ]),
    ]);
    assert_eq!(
        epc_arg_transformer(&plist),
        json(r#"{"a": 1, "b": {"c": 2}}"#)
    );
}

#[test]
fn transform_plain_list() {
    let list = SexpValue::List(vec![
        SexpValue::Integer(1),
        SexpValue::Integer(2),
        SexpValue::Integer(3),
    ]);
    assert_eq!(
        epc_arg_transformer(&list),
        json(r#"[1, 2, 3]"#)
    );
}

#[test]
fn transform_nested_list() {
    let list = SexpValue::List(vec![
        SexpValue::Integer(1),
        SexpValue::Integer(2),
        SexpValue::List(vec![SexpValue::Integer(3), SexpValue::Integer(4)]),
    ]);
    assert_eq!(
        epc_arg_transformer(&list),
        json(r#"[1, 2, [3, 4]]"#)
    );
}

#[test]
fn transform_empty_list() {
    let list = SexpValue::List(vec![]);
    let result = epc_arg_transformer(&list);
    assert!(result == json(r#"[]"#) || result == json(r#"{}"#));
}

#[test]
fn eval_in_emacs_message() {
    let result = build_eval_in_emacs(
        "message",
        &[EvalArg::String("[LSP-Bridge] hello".to_string())],
    );
    assert_eq!(result, "(message '\"[LSP-Bridge] hello\")");
}

#[test]
fn eval_in_emacs_quoted_symbol() {
    let result = build_eval_in_emacs(
        "func",
        &[EvalArg::String("'python-mode".to_string())],
    );
    assert_eq!(result, "(func 'python-mode)");
}

#[test]
fn eval_in_emacs_jump() {
    let result = build_eval_in_emacs(
        "lsp-bridge-define--jump",
        &[
            EvalArg::String("/tmp/test.py".to_string()),
            EvalArg::String("localhost".to_string()),
            EvalArg::Integer(10),
            EvalArg::Integer(5),
        ],
    );
    assert_eq!(
        result,
        "(lsp-bridge-define--jump '\"/tmp/test.py\" '\"localhost\" '10 '5)"
    );
}

#[test]
fn eval_in_emacs_completion_record() {
    let result = build_eval_in_emacs(
        "lsp-bridge-completion--record-items",
        &[
            EvalArg::String("file.py".to_string()),
            EvalArg::String("localhost".to_string()),
            EvalArg::List(vec![SexpValue::List(vec![
                SexpValue::Keyword(":label".to_string()),
                SexpValue::String("print".to_string()),
                SexpValue::Keyword(":kind".to_string()),
                SexpValue::String("Function".to_string()),
            ])]),
            EvalArg::List(vec![
                SexpValue::Keyword(":line".to_string()),
                SexpValue::Integer(10),
                SexpValue::Keyword(":character".to_string()),
                SexpValue::Integer(5),
            ]),
            EvalArg::String("pyright".to_string()),
            EvalArg::List(vec![SexpValue::String(".".to_string())]),
            EvalArg::List(vec![SexpValue::String("pyright".to_string())]),
        ],
    );
    assert_eq!(
        result,
        "(lsp-bridge-completion--record-items '\"file.py\" '\"localhost\" '((:label \"print\" :kind \"Function\")) '(:line 10 :character 5) '\"pyright\" '(\".\") '(\"pyright\"))"
    );
}

// ===== convert_emacs_bool tests =====

#[test]
fn convert_bool_true() {
    assert_eq!(
        convert_emacs_bool(&SexpValue::Bool(true), true),
        Json::Bool(true)
    );
}

#[test]
fn convert_bool_nil() {
    assert_eq!(
        convert_emacs_bool(&SexpValue::Nil, true),
        Json::Bool(false)
    );
}

#[test]
fn convert_non_bool_passthrough() {
    assert_eq!(
        convert_emacs_bool(&SexpValue::String("hello".to_string()), false),
        json(r#""hello""#)
    );
}

#[test]
fn convert_non_bool_integer() {
    assert_eq!(
        convert_emacs_bool(&SexpValue::Integer(42), false),
        json(r#"42"#)
    );
}

#[test]
fn eval_arg_construction() {
    // Verify EvalArg types can be constructed
    let _args: Vec<EvalArg> = vec![
        EvalArg::String("hello".to_string()),
        EvalArg::Integer(42),
        EvalArg::Float(format!("{}", 3.14)),
        EvalArg::Bool(true),
        EvalArg::Nil,
        EvalArg::QuotedSymbol("python-mode".to_string()),
        EvalArg::List(vec![SexpValue::Integer(1)]),
        EvalArg::Raw(SexpValue::Symbol("sym".to_string())),
    ];
}
