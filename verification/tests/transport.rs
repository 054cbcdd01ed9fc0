use lsp_bridge::transport::{decode, encode, ContentLengthDecoder, DecodeResult};

// ===== Encoding tests =====

#[test]
fn encode_simple_request() {
    let json = r#"{"jsonrpc":"2.0","id":1,"method":"initialize","params":{}}"#;
    let encoded = encode(json);
    let expected = format!("Content-Length: {}\r\n\r\n{}", json.len(), json);
    assert_eq!(std::str::from_utf8(&encoded).unwrap(), expected);
}

#[test]
fn encode_notification() {
    let json = r#"{"jsonrpc":"2.0","method":"initialized","params":{}}"#;
    let encoded = encode(json);
    let header = format!("Content-Length: {}\r\n\r\n", json.len());
    assert!(encoded.starts_with(header.as_bytes()));
}

#[test]
fn encode_unicode_content() {
    let json = r#"{"jsonrpc":"2.0","id":1,"result":{"contents":"测试"}}"#;
    let encoded = encode(json);
    // Content-Length must be BYTE count, not char count
    let byte_len = json.as_bytes().len();
    let expected_header = format!("Content-Length: {}\r\n\r\n", byte_len);
    assert!(encoded.starts_with(expected_header.as_bytes()));
    // Verify the total length
    assert_eq!(encoded.len(), expected_header.len() + byte_len);
}

// ===== Decoding tests =====

#[test]
fn decode_single_message() {
    let json = r#"{"jsonrpc":"2.0","id":1,"result":"ok"}"#;
    let encoded = encode(json);
    match decode(&encoded).unwrap() {
        DecodeResult::Complete {
            json: decoded,
            consumed,
        } => {
            assert_eq!(decoded, json);
            assert_eq!(consumed, encoded.len());
        }
        DecodeResult::Incomplete => panic!("expected complete"),
    }
}

#[test]
fn decode_with_content_type() {
    // dart_analysis_server sends Content-Type header
    let json = r#"{"jsonrpc":"2.0","id":1,"result":"ok"}"#;
    let frame = format!(
        "Content-Length: {}\r\nContent-Type: application/vscode-jsonrpc; charset=utf-8\r\n\r\n{}",
        json.len(),
        json
    );
    match decode(frame.as_bytes()).unwrap() {
        DecodeResult::Complete { json: decoded, .. } => {
            assert_eq!(decoded, json);
        }
        DecodeResult::Incomplete => panic!("expected complete"),
    }
}

#[test]
fn transport_decode_incomplete_header() {
    let data = b"Content-Len";
    match decode(data).unwrap() {
        DecodeResult::Incomplete => {} // expected
        _ => panic!("expected incomplete"),
    }
}

#[test]
fn transport_decode_incomplete_body() {
    let json = r#"{"jsonrpc":"2.0"}"#;
    let header = format!("Content-Length: {}\r\n\r\n", json.len());
    // Only send header + partial body
    let mut data = header.as_bytes().to_vec();
    data.extend_from_slice(&json.as_bytes()[..5]);
    match decode(&data).unwrap() {
        DecodeResult::Incomplete => {} // expected
        _ => panic!("expected incomplete"),
    }
}

#[test]
fn decode_multiple_messages() {
    let json1 = r#"{"jsonrpc":"2.0","id":1,"result":"first"}"#;
    let json2 = r#"{"jsonrpc":"2.0","id":2,"result":"second"}"#;
    let mut buf = Vec::new();
    buf.extend_from_slice(&encode(json1));
    buf.extend_from_slice(&encode(json2));

    // Decode first
    match decode(&buf).unwrap() {
        DecodeResult::Complete {
            json, consumed, ..
        } => {
            assert_eq!(json, json1);
            // Decode second
            match decode(&buf[consumed..]).unwrap() {
                DecodeResult::Complete { json, .. } => {
                    assert_eq!(json, json2);
                }
                DecodeResult::Incomplete => panic!("expected second complete"),
            }
        }
        DecodeResult::Incomplete => panic!("expected first complete"),
    }
}

#[test]
fn decode_unicode_payload() {
    let json = r#"{"result":"测试中文"}"#;
    let encoded = encode(json);
    match decode(&encoded).unwrap() {
        DecodeResult::Complete { json: decoded, .. } => {
            assert_eq!(decoded, json);
        }
        DecodeResult::Incomplete => panic!("expected complete"),
    }
}

#[test]
fn decode_missing_content_length() {
    let data = b"Content-Type: text/plain\r\n\r\n{}";
    assert!(decode(data).is_err());
}

// ===== ContentLengthDecoder streaming tests =====

#[test]
fn decoder_single_message() {
    let mut decoder = ContentLengthDecoder::new();
    let json = r#"{"jsonrpc":"2.0","id":1}"#;
    decoder.push(&encode(json));

    let msg = decoder.next_message().unwrap();
    assert_eq!(msg, Some(json.to_string()));
    assert_eq!(decoder.next_message().unwrap(), None);
}

#[test]
fn decoder_chunked_delivery() {
    let mut decoder = ContentLengthDecoder::new();
    let json = r#"{"jsonrpc":"2.0","id":1,"result":"hello world"}"#;
    let encoded = encode(json);

    // Deliver header first, then body
    let mid = encoded.len() / 2;
    decoder.push(&encoded[..mid]);
    assert_eq!(decoder.next_message().unwrap(), None);

    decoder.push(&encoded[mid..]);
    assert_eq!(decoder.next_message().unwrap(), Some(json.to_string()));
}

#[test]
fn decoder_byte_by_byte() {
    let mut decoder = ContentLengthDecoder::new();
    let json = r#"{"id":1}"#;
    let encoded = encode(json);

    for (i, &byte) in encoded.iter().enumerate() {
        decoder.push(&[byte]);
        if i < encoded.len() - 1 {
            assert_eq!(decoder.next_message().unwrap(), None);
        }
    }
    assert_eq!(decoder.next_message().unwrap(), Some(json.to_string()));
}

#[test]
fn decoder_multiple_messages() {
    let mut decoder = ContentLengthDecoder::new();
    let msgs = vec![
        r#"{"jsonrpc":"2.0","id":1}"#,
        r#"{"jsonrpc":"2.0","id":2}"#,
        r#"{"jsonrpc":"2.0","id":3}"#,
    ];

    let mut buf = Vec::new();
    for msg in &msgs {
        buf.extend_from_slice(&encode(msg));
    }
    decoder.push(&buf);

    for expected in &msgs {
        assert_eq!(
            decoder.next_message().unwrap(),
            Some(expected.to_string())
        );
    }
    assert_eq!(decoder.next_message().unwrap(), None);
}

#[test]
fn decoder_with_content_type_header() {
    let mut decoder = ContentLengthDecoder::new();
    let json = r#"{"id":1}"#;
    let frame = format!(
        "Content-Length: {}\r\nContent-Type: application/vscode-jsonrpc; charset=utf-8\r\n\r\n{}",
        json.len(),
        json
    );
    decoder.push(frame.as_bytes());

    assert_eq!(decoder.next_message().unwrap(), Some(json.to_string()));
}

// ===== Roundtrip tests =====

#[test]
fn roundtrip_request() {
    let json = r#"{"jsonrpc":"2.0","id":42001,"method":"textDocument/completion","params":{"textDocument":{"uri":"file:///tmp/test.py"},"position":{"line":10,"character":5}}}"#;
    let encoded = encode(json);
    match decode(&encoded).unwrap() {
        DecodeResult::Complete { json: decoded, .. } => {
            assert_eq!(decoded, json);
        }
        _ => panic!("expected complete"),
    }
}

#[test]
fn roundtrip_notification() {
    let json = r#"{"jsonrpc":"2.0","method":"textDocument/didChange","params":{"textDocument":{"uri":"file:///tmp/test.py","version":1},"contentChanges":[{"text":"import os\n"}]}}"#;
    let encoded = encode(json);
    match decode(&encoded).unwrap() {
        DecodeResult::Complete { json: decoded, .. } => {
            assert_eq!(decoded, json);
        }
        _ => panic!("expected complete"),
    }
}

#[test]
fn roundtrip_response() {
    let json = r#"{"jsonrpc":"2.0","id":42001,"result":{"items":[{"label":"print","kind":3}]}}"#;
    let encoded = encode(json);
    match decode(&encoded).unwrap() {
        DecodeResult::Complete { json: decoded, .. } => {
            assert_eq!(decoded, json);
        }
        _ => panic!("expected complete"),
    }
}

#[test]
fn roundtrip_error_response() {
    let json = r#"{"jsonrpc":"2.0","id":1,"error":{"code":-32601,"message":"method not found"}}"#;
    let encoded = encode(json);
    match decode(&encoded).unwrap() {
        DecodeResult::Complete { json: decoded, .. } => {
            assert_eq!(decoded, json);
        }
        _ => panic!("expected complete"),
    }
}

#[test]
fn roundtrip_unicode_response() {
    let json = r#"{"jsonrpc":"2.0","id":1,"result":{"contents":{"kind":"markdown","value":"```python\ndef 测试(): ...\n```"}}}"#;
    let encoded = encode(json);
    match decode(&encoded).unwrap() {
        DecodeResult::Complete { json: decoded, .. } => {
            assert_eq!(decoded, json);
        }
        _ => panic!("expected complete"),
    }
}

fn assert_content_length(json: &str, expected_len: usize) {
    let byte_len = json.as_bytes().len();
    assert_eq!(
        byte_len, expected_len,
        "Content-Length is {} instead of {}",
        byte_len, expected_len
    );
    // Also verify encode produces correct header
    let encoded = encode(json);
    let header = format!("Content-Length: {}\r\n\r\n", expected_len);
    assert!(
        encoded.starts_with(header.as_bytes()),
        "Header mismatch. Expected: {:?}",
        header
    );
}

#[test]
fn python_parity_initialize_request() {
    let json = r#"{"jsonrpc": "2.0", "id": 1, "method": "initialize", "params": {"processId": 1234}}"#;
    assert_content_length(json, 82);
}

#[test]
fn python_parity_initialized_notification() {
    let json = r#"{"jsonrpc": "2.0", "method": "initialized", "params": {}}"#;
    assert_content_length(json, 57);
}

#[test]
fn python_parity_did_open() {
    let json = r#"{"jsonrpc": "2.0", "method": "textDocument/didOpen", "params": {"textDocument": {"uri": "file:///tmp/test.py", "languageId": "python", "version": 0, "text": "import os\n"}}}"#;
    assert_content_length(json, 173);
}

#[test]
fn python_parity_completion_request() {
    let json = r#"{"jsonrpc": "2.0", "id": 42001, "method": "textDocument/completion", "params": {"textDocument": {"uri": "file:///tmp/test.py"}, "position": {"line": 1, "character": 3}, "context": {"triggerKind": 2, "triggerCharacter": "."}}}"#;
    assert_content_length(json, 225);
}

#[test]
fn python_parity_completion_response() {
    let json = r#"{"jsonrpc": "2.0", "id": 42001, "result": {"items": [{"label": "system", "kind": 3, "detail": "(command: str) -> int", "sortText": "0system"}, {"label": "path", "kind": 9, "detail": "module", "sortText": "0path"}]}}"#;
    assert_content_length(json, 215);
}

#[test]
fn python_parity_error_response() {
    let json = r#"{"jsonrpc": "2.0", "id": 1, "error": {"code": -32601, "message": "method not found"}}"#;
    assert_content_length(json, 85);
}

#[test]
fn python_parity_diagnostics() {
    let json = r#"{"jsonrpc": "2.0", "method": "textDocument/publishDiagnostics", "params": {"uri": "file:///tmp/test.py", "diagnostics": [{"range": {"start": {"line": 0, "character": 0}, "end": {"line": 0, "character": 9}}, "severity": 2, "source": "pyright", "message": "Import \"os\" is not used"}]}}"#;
    assert_content_length(json, 285);
}

#[test]
fn python_parity_did_change() {
    let json = r#"{"jsonrpc": "2.0", "method": "textDocument/didChange", "params": {"textDocument": {"uri": "file:///tmp/test.py", "version": 1}, "contentChanges": [{"range": {"start": {"line": 1, "character": 0}, "end": {"line": 1, "character": 0}}, "rangeLength": 0, "text": "os."}]}}"#;
    assert_content_length(json, 268);
}

#[test]
fn python_wire_roundtrip_initialize() {
    let json = r#"{"jsonrpc": "2.0", "id": 1, "method": "initialize", "params": {"processId": 1234}}"#;
    let encoded = encode(json);
    let expected_wire = "Content-Length: 82\r\n\r\n{\"jsonrpc\": \"2.0\", \"id\": 1, \"method\": \"initialize\", \"params\": {\"processId\": 1234}}";
    assert_eq!(std::str::from_utf8(&encoded).unwrap(), expected_wire);
    // Decode back
    match decode(&encoded).unwrap() {
        DecodeResult::Complete { json: decoded, .. } => assert_eq!(decoded, json),
        _ => panic!("expected complete"),
    }
}

#[test]
fn python_wire_roundtrip_diagnostics() {
    let json = r#"{"jsonrpc": "2.0", "method": "textDocument/publishDiagnostics", "params": {"uri": "file:///tmp/test.py", "diagnostics": [{"range": {"start": {"line": 0, "character": 0}, "end": {"line": 0, "character": 9}}, "severity": 2, "source": "pyright", "message": "Import \"os\" is not used"}]}}"#;
    let encoded = encode(json);
    match decode(&encoded).unwrap() {
        DecodeResult::Complete { json: decoded, .. } => assert_eq!(decoded, json),
        _ => panic!("expected complete"),
    }
}

// ===== Streaming decode with realistic LSP message sequences =====

#[test]
fn decoder_lsp_init_sequence() {
    let mut decoder = ContentLengthDecoder::new();

    // Simulate receiving init response + initialized notification + diagnostics
    let msgs = vec![
        r#"{"jsonrpc":"2.0","id":1,"result":{"capabilities":{"completionProvider":{"triggerCharacters":["."]}}}}"#,
        r#"{"jsonrpc":"2.0","method":"window/logMessage","params":{"type":3,"message":"Server initialized"}}"#,
        r#"{"jsonrpc":"2.0","method":"textDocument/publishDiagnostics","params":{"uri":"file:///tmp/t.py","diagnostics":[]}}"#,
    ];

    let mut buf = Vec::new();
    for msg in &msgs {
        buf.extend_from_slice(&encode(msg));
    }

    // Deliver all at once
    decoder.push(&buf);

    for expected in &msgs {
        assert_eq!(
            decoder.next_message().unwrap(),
            Some(expected.to_string())
        );
    }
    assert_eq!(decoder.next_message().unwrap(), None);
}

#[test]
fn decoder_lsp_messages_chunked() {
    let mut decoder = ContentLengthDecoder::new();

    let msg1 = r#"{"jsonrpc":"2.0","id":1,"result":{"items":[{"label":"print"}]}}"#;
    let msg2 = r#"{"jsonrpc":"2.0","method":"textDocument/publishDiagnostics","params":{"diagnostics":[]}}"#;

    let mut full_buf = Vec::new();
    full_buf.extend_from_slice(&encode(msg1));
    full_buf.extend_from_slice(&encode(msg2));

    // Deliver in 10-byte chunks
    for chunk in full_buf.chunks(10) {
        decoder.push(chunk);
        // Drain any complete messages
        while let Some(_msg) = decoder.next_message().unwrap() {
            // consumed
        }
    }

    // Buffer should be empty after all chunks
    assert_eq!(decoder.buffered_len(), 0);
}
