use lsp_bridge::json::Json;
use lsp_bridge::sexp::{parse, serialize, SexpValue};

fn float(f: f64) -> SexpValue {
    SexpValue::Float(format!("{}", f))
}

fn value(s: &str) -> Json {
    Json::parse(s).unwrap()
}

#[test]
fn parse_integer() {
    assert_eq!(parse("42").unwrap(), SexpValue::Integer(42));
}

#[test]
fn parse_negative_integer() {
    assert_eq!(parse("-7").unwrap(), SexpValue::Integer(-7));
}

#[test]
fn parse_zero() {
    assert_eq!(parse("0").unwrap(), SexpValue::Integer(0));
}

#[test]
fn parse_large_integer() {
    assert_eq!(
        parse("9223372036854775807").unwrap(),
        SexpValue::Integer(i64::MAX)
    );
}

#[test]
fn parse_float() {
    assert_eq!(parse("3.14").unwrap(), float(3.14));
}

#[test]
fn parse_negative_float() {
    assert_eq!(parse("-2.5").unwrap(), float(-2.5));
}

#[test]
fn parse_float_scientific() {
    let value = parse("1.5e10").unwrap();
    let numeral = value.as_float().unwrap();
    assert_eq!(numeral.parse::<f64>().unwrap(), 1.5e10);
}

#[test]
fn parse_float_zero() {
    assert_eq!(parse("0.0").unwrap(), float(0.0));
}

#[test]
fn parse_string_simple() {
    assert_eq!(
        parse(r#""hello world""#).unwrap(),
        SexpValue::String("hello world".to_string())
    );
}

#[test]
fn parse_string_empty() {
    assert_eq!(
        parse(r#""""#).unwrap(),
        SexpValue::String(String::new())
    );
}

#[test]
fn parse_string_with_escapes() {
    assert_eq!(
        parse(r#""line\nbreak""#).unwrap(),
        SexpValue::String("line\nbreak".to_string())
    );
}

#[test]
fn parse_string_with_tab() {
    assert_eq!(
        parse(r#""col\tcol""#).unwrap(),
        SexpValue::String("col\tcol".to_string())
    );
}

#[test]
fn parse_string_with_escaped_quotes() {
    assert_eq!(
        parse(r#""he said \"hi\"""#).unwrap(),
        SexpValue::String(r#"he said "hi""#.to_string())
    );
}

#[test]
fn parse_string_with_backslash() {
    assert_eq!(
        parse(r#""path\\to\\file""#).unwrap(),
        SexpValue::String("path\\to\\file".to_string())
    );
}

#[test]
fn parse_string_with_unicode() {
    assert_eq!(
        parse("\"测试\"").unwrap(),
        SexpValue::String("测试".to_string())
    );
}

#[test]
fn parse_string_with_unicode_mixed() {
    assert_eq!(
        parse("\"hello 世界 🌍\"").unwrap(),
        SexpValue::String("hello 世界 🌍".to_string())
    );
}

#[test]
fn parse_string_with_null() {
    assert_eq!(
        parse(r#""null\0byte""#).unwrap(),
        SexpValue::String("null\0byte".to_string())
    );
}

#[test]
fn parse_symbol() {
    assert_eq!(
        parse("method-name").unwrap(),
        SexpValue::Symbol("method-name".to_string())
    );
}

#[test]
fn parse_symbol_with_slash() {
    assert_eq!(
        parse("textDocument/completion").unwrap(),
        SexpValue::Symbol("textDocument/completion".to_string())
    );
}

#[test]
fn parse_symbol_with_underscore() {
    assert_eq!(
        parse("open_file").unwrap(),
        SexpValue::Symbol("open_file".to_string())
    );
}

#[test]
fn parse_keyword() {
    assert_eq!(
        parse(":key-name").unwrap(),
        SexpValue::Keyword(":key-name".to_string())
    );
}

#[test]
fn parse_keyword_line() {
    assert_eq!(
        parse(":line").unwrap(),
        SexpValue::Keyword(":line".to_string())
    );
}

#[test]
fn parse_nil() {
    assert_eq!(parse("nil").unwrap(), SexpValue::Nil);
}

#[test]
fn parse_t() {
    assert_eq!(parse("t").unwrap(), SexpValue::Bool(true));
}

#[test]
fn parse_quoted_symbol() {
    assert_eq!(
        parse("'some-symbol").unwrap(),
        SexpValue::Quoted(Box::new(SexpValue::Symbol("some-symbol".to_string())))
    );
}

#[test]
fn parse_quoted_list() {
    assert_eq!(
        parse("'(1 2 3)").unwrap(),
        SexpValue::Quoted(Box::new(SexpValue::List(vec![
            SexpValue::Integer(1),
            SexpValue::Integer(2),
            SexpValue::Integer(3),
        ])))
    );
}

#[test]
fn parse_empty_list() {
    assert_eq!(parse("()").unwrap(), SexpValue::List(vec![]));
}

#[test]
fn parse_flat_list() {
    assert_eq!(
        parse("(1 2 3)").unwrap(),
        SexpValue::List(vec![
            SexpValue::Integer(1),
            SexpValue::Integer(2),
            SexpValue::Integer(3),
        ])
    );
}

#[test]
fn parse_nested_list() {
    assert_eq!(
        parse("(a (b c) d)").unwrap(),
        SexpValue::List(vec![
            SexpValue::Symbol("a".to_string()),
            SexpValue::List(vec![
                SexpValue::Symbol("b".to_string()),
                SexpValue::Symbol("c".to_string()),
            ]),
            SexpValue::Symbol("d".to_string()),
        ])
    );
}

#[test]
fn parse_mixed_list() {
    assert_eq!(
        parse("(1 \"two\" three)").unwrap(),
        SexpValue::List(vec![
            SexpValue::Integer(1),
            SexpValue::String("two".to_string()),
            SexpValue::Symbol("three".to_string()),
        ])
    );
}

#[test]
fn parse_keyword_plist() {
    assert_eq!(
        parse("(:a 1 :b 2)").unwrap(),
        SexpValue::List(vec![
            SexpValue::Keyword(":a".to_string()),
            SexpValue::Integer(1),
            SexpValue::Keyword(":b".to_string()),
            SexpValue::Integer(2),
        ])
    );
}

#[test]
fn parse_deeply_nested() {
    let input = "(a (b (c (d (e f)))))";
    let result = parse(input).unwrap();
    // Verify it parses without error and has correct structure
    if let SexpValue::List(outer) = &result {
        assert_eq!(outer.len(), 2);
        assert_eq!(outer[0], SexpValue::Symbol("a".to_string()));
        if let SexpValue::List(level2) = &outer[1] {
            assert_eq!(level2.len(), 2);
            assert_eq!(level2[0], SexpValue::Symbol("b".to_string()));
        } else {
            panic!("expected nested list");
        }
    } else {
        panic!("expected list");
    }
}

#[test]
fn parse_large_string() {
    let large = "x".repeat(100_000);
    let input = format!("\"{}\"", large);
    let result = parse(&input).unwrap();
    assert_eq!(result, SexpValue::String(large));
}

#[test]
fn parse_cons_cell() {
    assert_eq!(
        parse("(a . b)").unwrap(),
        SexpValue::Cons(
            Box::new(SexpValue::Symbol("a".to_string())),
            Box::new(SexpValue::Symbol("b".to_string())),
        )
    );
}

#[test]
fn parse_cons_with_string() {
    assert_eq!(
        parse("(\"key\" . \"value\")").unwrap(),
        SexpValue::Cons(
            Box::new(SexpValue::String("key".to_string())),
            Box::new(SexpValue::String("value".to_string())),
        )
    );
}

#[test]
fn parse_cons_with_numbers() {
    assert_eq!(
        parse("(1 . 2)").unwrap(),
        SexpValue::Cons(
            Box::new(SexpValue::Integer(1)),
            Box::new(SexpValue::Integer(2)),
        )
    );
}

#[test]
fn parse_list_with_extra_whitespace() {
    assert_eq!(
        parse("(  1   2   3  )").unwrap(),
        SexpValue::List(vec![
            SexpValue::Integer(1),
            SexpValue::Integer(2),
            SexpValue::Integer(3),
        ])
    );
}

#[test]
fn parse_list_with_newlines() {
    assert_eq!(
        parse("(1\n2\n3)").unwrap(),
        SexpValue::List(vec![
            SexpValue::Integer(1),
            SexpValue::Integer(2),
            SexpValue::Integer(3),
        ])
    );
}

#[test]
fn parse_epc_call_message() {
    // Real EPC message format
    let input = r#"(call 42 open_file ("/tmp/test.py"))"#;
    let result = parse(input).unwrap();
    assert_eq!(
        result,
        SexpValue::List(vec![
            SexpValue::Symbol("call".to_string()),
            SexpValue::Integer(42),
            SexpValue::Symbol("open_file".to_string()),
            SexpValue::List(vec![SexpValue::String("/tmp/test.py".to_string())]),
        ])
    );
}

#[test]
fn parse_epc_return_message() {
    let input = r#"(return 42 "ok")"#;
    let result = parse(input).unwrap();
    assert_eq!(
        result,
        SexpValue::List(vec![
            SexpValue::Symbol("return".to_string()),
            SexpValue::Integer(42),
            SexpValue::String("ok".to_string()),
        ])
    );
}

#[test]
fn parse_eval_in_emacs_sexp() {
    let input = r#"(lsp-bridge-completion--record-items "file.py" "localhost" ((:label "print" :kind "Function")))"#;
    let result = parse(input).unwrap();
    if let SexpValue::List(items) = &result {
        assert_eq!(items[0], SexpValue::Symbol("lsp-bridge-completion--record-items".to_string()));
        assert_eq!(items[1], SexpValue::String("file.py".to_string()));
        assert_eq!(items[2], SexpValue::String("localhost".to_string()));
        if let SexpValue::List(candidates) = &items[3] {
            assert_eq!(candidates.len(), 1);
            if let SexpValue::List(plist) = &candidates[0] {
                assert_eq!(plist[0], SexpValue::Keyword(":label".to_string()));
                assert_eq!(plist[1], SexpValue::String("print".to_string()));
                assert_eq!(plist[2], SexpValue::Keyword(":kind".to_string()));
                assert_eq!(plist[3], SexpValue::String("Function".to_string()));
            } else {
                panic!("expected plist");
            }
        } else {
            panic!("expected candidates list");
        }
    } else {
        panic!("expected list");
    }
}

// ===== Serialization tests =====

#[test]
fn serialize_integer() {
    assert_eq!(serialize(&SexpValue::Integer(42)), "42");
}

#[test]
fn serialize_negative_integer() {
    assert_eq!(serialize(&SexpValue::Integer(-7)), "-7");
}

#[test]
fn serialize_float() {
    assert_eq!(serialize(&float(3.14)), "3.14");
}

#[test]
fn serialize_float_whole() {
    // Ensure whole numbers get .0 appended
    assert_eq!(serialize(&float(5.0)), "5.0");
}

#[test]
fn serialize_string() {
    assert_eq!(
        serialize(&SexpValue::String("hello".to_string())),
        "\"hello\""
    );
}

#[test]
fn serialize_string_with_escapes() {
    assert_eq!(
        serialize(&SexpValue::String("line\nbreak".to_string())),
        "\"line\\nbreak\""
    );
}

#[test]
fn serialize_string_with_quotes() {
    assert_eq!(
        serialize(&SexpValue::String("say \"hi\"".to_string())),
        "\"say \\\"hi\\\"\""
    );
}

#[test]
fn serialize_string_with_unicode() {
    assert_eq!(
        serialize(&SexpValue::String("测试".to_string())),
        "\"测试\""
    );
}

#[test]
fn serialize_symbol() {
    assert_eq!(
        serialize(&SexpValue::Symbol("method-name".to_string())),
        "method-name"
    );
}

#[test]
fn serialize_keyword() {
    assert_eq!(
        serialize(&SexpValue::Keyword(":line".to_string())),
        ":line"
    );
}

#[test]
fn serialize_nil() {
    assert_eq!(serialize(&SexpValue::Nil), "nil");
}

#[test]
fn serialize_bool_true() {
    assert_eq!(serialize(&SexpValue::Bool(true)), "t");
}

#[test]
fn serialize_bool_false() {
    assert_eq!(serialize(&SexpValue::Bool(false)), "nil");
}

#[test]
fn serialize_empty_list() {
    assert_eq!(serialize(&SexpValue::List(vec![])), "()");
}

#[test]
fn serialize_flat_list() {
    let list = SexpValue::List(vec![
        SexpValue::Integer(1),
        SexpValue::Integer(2),
        SexpValue::Integer(3),
    ]);
    assert_eq!(serialize(&list), "(1 2 3)");
}

#[test]
fn serialize_nested_list() {
    let list = SexpValue::List(vec![
        SexpValue::Symbol("a".to_string()),
        SexpValue::List(vec![
            SexpValue::Symbol("b".to_string()),
            SexpValue::Symbol("c".to_string()),
        ]),
    ]);
    assert_eq!(serialize(&list), "(a (b c))");
}

#[test]
fn serialize_cons() {
    let cons = SexpValue::Cons(
        Box::new(SexpValue::Symbol("a".to_string())),
        Box::new(SexpValue::Symbol("b".to_string())),
    );
    assert_eq!(serialize(&cons), "(a . b)");
}

#[test]
fn serialize_quoted() {
    let quoted = SexpValue::Quoted(Box::new(SexpValue::Symbol("sym".to_string())));
    assert_eq!(serialize(&quoted), "'sym");
}

#[test]
fn serialize_keyword_plist() {
    let plist = SexpValue::List(vec![
        SexpValue::Keyword(":line".to_string()),
        SexpValue::Integer(10),
        SexpValue::Keyword(":character".to_string()),
        SexpValue::Integer(5),
    ]);
    assert_eq!(serialize(&plist), "(:line 10 :character 5)");
}

// ===== Roundtrip tests =====

fn assert_roundtrip(input: &str) {
    let parsed = parse(input).unwrap();
    let serialized = serialize(&parsed);
    let reparsed = parse(&serialized).unwrap();
    assert_eq!(parsed, reparsed, "roundtrip failed for: {}", input);
}

#[test]
fn roundtrip_integer() {
    assert_roundtrip("42");
}

#[test]
fn roundtrip_negative_integer() {
    assert_roundtrip("-99");
}

#[test]
fn roundtrip_float() {
    assert_roundtrip("3.14");
}

#[test]
fn roundtrip_string() {
    assert_roundtrip("\"hello world\"");
}

#[test]
fn roundtrip_string_with_escapes() {
    assert_roundtrip("\"line\\nbreak\\ttab\"");
}

#[test]
fn roundtrip_symbol() {
    assert_roundtrip("method-name");
}

#[test]
fn roundtrip_keyword() {
    assert_roundtrip(":key");
}

#[test]
fn roundtrip_nil() {
    assert_roundtrip("nil");
}

#[test]
fn roundtrip_t() {
    // t → Bool(true) → "t"
    let parsed = parse("t").unwrap();
    let serialized = serialize(&parsed);
    assert_eq!(serialized, "t");
}

#[test]
fn roundtrip_list() {
    assert_roundtrip("(1 2 3)");
}

#[test]
fn roundtrip_nested() {
    assert_roundtrip("(a (b c) d)");
}

#[test]
fn roundtrip_plist() {
    assert_roundtrip("(:a 1 :b 2)");
}

#[test]
fn roundtrip_cons() {
    assert_roundtrip("(a . b)");
}

#[test]
fn roundtrip_quoted() {
    assert_roundtrip("'sym");
}

#[test]
fn roundtrip_complex_epc_message() {
    assert_roundtrip(r#"(call 42 try_completion ("/tmp/test.py" 10 5 "." "os" 1))"#);
}

#[test]
fn roundtrip_unicode() {
    assert_roundtrip("\"hello 世界 🌍\"");
}

// ===== JSON conversion tests =====

#[test]
fn json_to_sexp_null() {
    assert_eq!(
        SexpValue::from_json(&Json::Null),
        SexpValue::Nil
    );
}

#[test]
fn json_to_sexp_bool() {
    assert_eq!(
        SexpValue::from_json(&value(r#"true"#)),
        SexpValue::Bool(true)
    );
    assert_eq!(
        SexpValue::from_json(&value(r#"false"#)),
        SexpValue::Nil
    );
}

#[test]
fn json_to_sexp_number() {
    assert_eq!(
        SexpValue::from_json(&value(r#"42"#)),
        SexpValue::Integer(42)
    );
    assert_eq!(
        SexpValue::from_json(&value(r#"3.14"#)),
        float(3.14)
    );
}

#[test]
fn json_to_sexp_string() {
    assert_eq!(
        SexpValue::from_json(&value(r#""hello""#)),
        SexpValue::String("hello".to_string())
    );
}

#[test]
fn json_to_sexp_array() {
    assert_eq!(
        SexpValue::from_json(&value(r#"[1, 2, 3]"#)),
        SexpValue::List(vec![
            SexpValue::Integer(1),
            SexpValue::Integer(2),
            SexpValue::Integer(3),
        ])
    );
}

#[test]
fn json_to_sexp_object() {
    let result = SexpValue::from_json(&value(r#"{"line": 10, "character": 5}"#));
    // Object → keyword plist, order may vary
    if let SexpValue::List(items) = &result {
        assert_eq!(items.len(), 4);
        // Check that it contains :line 10 and :character 5
        let serialized = serialize(&result);
        assert!(serialized.contains(":line 10"));
        assert!(serialized.contains(":character 5"));
    } else {
        panic!("expected list");
    }
}

#[test]
fn sexp_to_json_plist() {
    let plist = SexpValue::List(vec![
        SexpValue::Keyword(":a".to_string()),
        SexpValue::Integer(1),
        SexpValue::Keyword(":b".to_string()),
        SexpValue::Integer(2),
    ]);
    let json = plist.to_json();
    assert_eq!(json, value(r#"{"a": 1, "b": 2}"#));
}

#[test]
fn sexp_to_json_plain_list() {
    let list = SexpValue::List(vec![
        SexpValue::Integer(1),
        SexpValue::Integer(2),
        SexpValue::Integer(3),
    ]);
    let json = list.to_json();
    assert_eq!(json, value(r#"[1, 2, 3]"#));
}

#[test]
fn sexp_to_json_nested_plist() {
    let plist = SexpValue::List(vec![
        SexpValue::Keyword(":a".to_string()),
        SexpValue::Integer(1),
        SexpValue::Keyword(":b".to_string()),
        SexpValue::List(vec![
            SexpValue::Keyword(":c".to_string()),
            SexpValue::Integer(2),
        ]),
    ]);
    let json = plist.to_json();
    assert_eq!(json, value(r#"{"a": 1, "b": {"c": 2}}"#));
}

#[test]
fn sexp_to_json_empty_list() {
    // Empty list → JSON array (not object, since we can't detect plist)
    let list = SexpValue::List(vec![]);
    let json = list.to_json();
    assert_eq!(json, value(r#"[]"#));
}

#[test]
fn sexp_to_json_mixed_list() {
    let list = SexpValue::List(vec![
        SexpValue::Integer(1),
        SexpValue::Integer(2),
        SexpValue::List(vec![SexpValue::Integer(3), SexpValue::Integer(4)]),
    ]);
    let json = list.to_json();
    assert_eq!(json, value(r#"[1, 2, [3, 4]]"#));
}

// ===== Error handling tests =====

#[test]
fn parse_unterminated_string() {
    assert!(parse("\"hello").is_err());
}

#[test]
fn parse_unmatched_close() {
    assert!(parse(")").is_err());
}

#[test]
fn parse_empty_input() {
    assert!(parse("").is_err());
}

#[test]
fn parse_whitespace_only() {
    assert!(parse("   ").is_err());
}

#[test]
fn parse_unclosed_list() {
    assert!(parse("(1 2 3").is_err());
}

fn assert_written(value: &SexpValue, expected: &str) {
    let written = serialize(value);
    assert_eq!(
        written, expected,
        "written as {} instead of {}",
        written, expected
    );
}

fn assert_reads_back(input: &str) {
    let parsed = parse(input)
        .unwrap_or_else(|e| panic!("failed to parse {:?}: {}", input, e.to_string()));
    let reserialized = serialize(&parsed);
    let reparsed = parse(&reserialized).unwrap();
    assert_eq!(
        parsed, reparsed,
        "roundtrip failed for: {}",
        input
    );
}

#[test]
fn python_parity_integer() {
    assert_written(&SexpValue::Integer(42), "42");
}

#[test]
fn python_parity_neg_integer() {
    assert_written(&SexpValue::Integer(-7), "-7");
}

#[test]
fn python_parity_float() {
    assert_written(&float(3.14), "3.14");
}

#[test]
fn python_parity_float_zero() {
    assert_written(&float(0.0), "0.0");
}

#[test]
fn python_parity_float_whole() {
    assert_written(&float(5.0), "5.0");
}

#[test]
fn python_parity_string() {
    assert_written(
        &SexpValue::String("hello world".to_string()),
        "\"hello world\"",
    );
}

#[test]
fn python_parity_unicode() {
    assert_written(&SexpValue::String("测试".to_string()), "\"测试\"");
}

#[test]
fn python_parity_string_with_quotes() {
    assert_written(
        &SexpValue::String("he said \"hi\"".to_string()),
        "\"he said \\\"hi\\\"\"",
    );
}

#[test]
fn python_parity_string_with_newline() {
    assert_written(
        &SexpValue::String("line\nbreak".to_string()),
        "\"line\\nbreak\"",
    );
}

#[test]
fn python_parity_string_with_tab() {
    assert_written(
        &SexpValue::String("col\tcol".to_string()),
        "\"col\\tcol\"",
    );
}

#[test]
fn python_parity_string_backslash() {
    assert_written(
        &SexpValue::String("C:\\Users\\test".to_string()),
        "\"C:\\\\Users\\\\test\"",
    );
}

#[test]
fn python_parity_empty_string() {
    assert_written(&SexpValue::String(String::new()), "\"\"");
}

#[test]
fn python_parity_symbol() {
    assert_written(
        &SexpValue::Symbol("method-name".to_string()),
        "method-name",
    );
}

#[test]
fn python_parity_symbol_slash() {
    assert_written(
        &SexpValue::Symbol("textDocument/completion".to_string()),
        "textDocument/completion",
    );
}

#[test]
fn python_parity_nil() {
    assert_written(&SexpValue::List(vec![]), "()");
}

#[test]
fn python_parity_true() {
    assert_written(&SexpValue::Bool(true), "t");
}

#[test]
fn python_parity_list_ints() {
    assert_written(
        &SexpValue::List(vec![
            SexpValue::Integer(1),
            SexpValue::Integer(2),
            SexpValue::Integer(3),
        ]),
        "(1 2 3)",
    );
}

#[test]
fn python_parity_nested() {
    assert_written(
        &SexpValue::List(vec![
            SexpValue::Symbol("a".to_string()),
            SexpValue::List(vec![
                SexpValue::Symbol("b".to_string()),
                SexpValue::Symbol("c".to_string()),
            ]),
            SexpValue::Symbol("d".to_string()),
        ]),
        "(a (b c) d)",
    );
}

#[test]
fn python_parity_keyword_plist() {
    assert_written(
        &SexpValue::List(vec![
            SexpValue::Keyword(":a".to_string()),
            SexpValue::Integer(1),
            SexpValue::Keyword(":b".to_string()),
            SexpValue::Integer(2),
        ]),
        "(:a 1 :b 2)",
    );
}

#[test]
fn python_parity_quoted_sym() {
    assert_written(
        &SexpValue::Quoted(Box::new(SexpValue::Symbol("sym".to_string()))),
        "'sym",
    );
}

#[test]
fn python_parity_quoted_list() {
    assert_written(
        &SexpValue::Quoted(Box::new(SexpValue::List(vec![
            SexpValue::Integer(1),
            SexpValue::Integer(2),
            SexpValue::Integer(3),
        ]))),
        "'(1 2 3)",
    );
}

#[test]
fn parse_python_eval_in_emacs_message() {
    assert_reads_back("(message '\"[LSP-Bridge] hello\")");
}

#[test]
fn parse_python_eval_in_emacs_quoted_symbol() {
    assert_reads_back("(func 'python-mode)");
}

#[test]
fn parse_python_eval_in_emacs_jump() {
    assert_reads_back(
        "(lsp-bridge-define--jump '\"/tmp/test.py\" '\"localhost\" '10 '5)",
    );
}

#[test]
fn parse_python_eval_in_emacs_completion_record() {
    assert_reads_back(
        "(lsp-bridge-completion--record-items '\"file.py\" '\"localhost\" '((:label \"print\" :kind \"Function\")) '(:line 10 :character 5) '\"pyright\" '(\".\") '(\"pyright\"))",
    );
}

#[test]
fn parse_python_epc_call() {
    assert_reads_back("(call 42 open_file (\"/tmp/test.py\"))");
}

#[test]
fn parse_python_epc_return() {
    assert_reads_back("(return 42 \"ok\")");
}

#[test]
fn parse_python_epc_return_error() {
    assert_reads_back("(return-error 42 \"method not found\")");
}

#[test]
fn parse_python_epc_error() {
    assert_reads_back("(epc-error 42 \"protocol error\")");
}

#[test]
fn parse_python_epc_methods() {
    assert_reads_back("(methods 1)");
}
