//! S-expressions, JSON values and messages: faults, edges, and what comes back.

use lsp_bridge::json::{field, members_to_string, same, Json, JsonMap, JsonNumber};
use lsp_bridge::message::{EpcMessage, MessageError};
use lsp_bridge::sexp::{held_numeral, parse, parse_with_len, serialize, SexpError, SexpValue};
use lsp_bridge::table::Table;
use lsp_bridge::uri::{path_to_uri, uri_to_path};

fn json(s: &str) -> Json {
    Json::parse(s).unwrap()
}

fn string(s: &str) -> SexpValue {
    SexpValue::String(s.to_string())
}

#[test]
fn faults_of_expressions() {
    assert_eq!(parse(""), Err(SexpError::UnexpectedEof));
    assert_eq!(parse("(1"), Err(SexpError::UnexpectedEof));
    assert_eq!(parse("\"a"), Err(SexpError::UnterminatedString));
    assert_eq!(parse(")"), Err(SexpError::UnmatchedClose));
    assert_eq!(parse("(. b)"), Err(SexpError::UnexpectedChar('.')));
    assert_eq!(SexpError::UnexpectedEof.to_string(), "unexpected end of input");
    assert_eq!(SexpError::UnexpectedChar('\n').to_string(), "unexpected character: '\\n'");
    assert_eq!(SexpError::UnterminatedString.to_string(), "unterminated string");
    assert_eq!(SexpError::InvalidEscape('q').to_string(), "invalid escape sequence: \\q");
    assert_eq!(SexpError::UnmatchedClose.to_string(), "unmatched closing parenthesis");
    assert_eq!(SexpError::InvalidNumber("1x".to_string()).to_string(), "invalid number: 1x");
}

#[test]
fn escapes_of_strings() {
    assert_eq!(parse(r#""\a\b""#).map(|v| v.is_nil()), Ok(false));
    let all = "\\ \" \n \t \r \0 é 🎉";
    assert_eq!(parse(&serialize(&string(all))).unwrap(), string(all));
    assert_eq!(parse(r#""\q\é\🎉""#).unwrap(), string("qé🎉"));
}

#[test]
fn numbers_and_symbols() {
    assert_eq!(parse("9223372036854775808").unwrap(), SexpValue::Symbol("9223372036854775808".to_string()));
    assert_eq!(parse("-9223372036854775808").unwrap(), SexpValue::Integer(i64::MIN));
    assert_eq!(parse("+5").unwrap(), SexpValue::Integer(5));
    assert_eq!(parse("1e5").unwrap(), SexpValue::Float("100000".to_string()));
    assert_eq!(parse("1.50").unwrap(), parse("15e-1").unwrap());
    assert_eq!(parse("-").unwrap(), SexpValue::Symbol("-".to_string()));
    for numeral in ["1.50", "1e5", ".5", "5.", "-0.0", "1e-7", "1e22", "123456789012345678.9", "0.1e1", "1e-400"] {
        let f: f64 = numeral.parse().unwrap();
        let shown = format!("{}", f);
        assert_eq!(held_numeral(numeral), shown);
        let written = if shown.contains('.') { shown } else { shown + ".0" };
        assert_eq!(serialize(&parse(numeral).unwrap()), written);
        assert_eq!(parse(&written).unwrap(), parse(numeral).unwrap());
    }
    assert_eq!(serialize(&parse("1e999").unwrap()), "inf");
    assert_eq!(serialize(&parse("-1e999").unwrap()), "-inf");
    assert_eq!(parse("1e999").unwrap().to_json(), Json::Null);
}

#[test]
fn what_follows_an_expression() {
    assert_eq!(parse_with_len("(1) rest").unwrap(), (SexpValue::List(vec![SexpValue::Integer(1)]), 3));
    let (value, used) = parse_with_len("  \"é\" x").unwrap();
    assert_eq!((value, used), (string("é"), 6));
    assert_eq!(parse_with_len("(a . (b)) x").unwrap(), parse_with_len("(a . (b))").unwrap());
}

#[test]
fn conversions_into_expressions() {
    assert_eq!(SexpValue::from(3i64), SexpValue::Integer(3));
    assert_eq!(SexpValue::from(true), SexpValue::Bool(true));
    assert_eq!(SexpValue::from(false), SexpValue::Nil);
    assert_eq!(SexpValue::from("a"), string("a"));
    assert_eq!(SexpValue::from("a".to_string()), string("a"));
    assert_eq!(SexpValue::from(vec![SexpValue::Nil]), SexpValue::List(vec![SexpValue::Nil]));
    assert_eq!(SexpValue::keyword("k"), SexpValue::Keyword(":k".to_string()));
    assert_eq!(SexpValue::keyword(":k"), SexpValue::Keyword(":k".to_string()));
    assert_eq!(SexpValue::quoted(SexpValue::symbol("s")).to_string(), "'s");
}

#[test]
fn parts_of_expressions() {
    assert!(SexpValue::Nil.is_nil());
    assert_eq!(string("a").as_str(), Some("a"));
    assert_eq!(SexpValue::symbol("a").as_symbol(), Some("a"));
    assert_eq!(SexpValue::Integer(4).as_integer(), Some(4));
    assert_eq!(SexpValue::Float("4.5".to_string()).as_float(), Some("4.5"));
    assert_eq!(SexpValue::List(vec![]).as_list().map(|l| l.len()), Some(0));
    assert_eq!(string("a").as_symbol(), None);
}

#[test]
fn json_survives_expressions() {
    for text in ["null", "true", "[1, [2, \"x\"]]", r#"{"a": {"b": [1]}, "c": 2.5}"#, "-3"] {
        let value = json(text);
        assert_eq!(SexpValue::from_json(&value).to_json(), value);
    }
    // False and the empty object do not: Emacs has one value for all of these.
    assert_eq!(SexpValue::from_json(&Json::Bool(false)).to_json(), Json::Null);
    let big = json("18446744073709551615");
    assert_eq!(SexpValue::from_json(&big), SexpValue::Float("18446744073709552000".to_string()));
}

#[test]
fn keys_of_objects_ascend() {
    let mut map = JsonMap::new();
    map.insert("b", Json::integer(1));
    map.insert("a", Json::integer(2));
    map.insert("b", Json::integer(3));
    assert_eq!(map.len(), 2);
    assert_eq!(map.get("b").unwrap().as_i64(), Some(3));
    assert!(map.contains_key("a") && !map.contains_key("c"));
    assert_eq!(Json::object(map).to_string(), r#"{"a":2,"b":3}"#);
}

#[test]
fn texts_of_json() {
    for text in ["null", "[]", "{}", "[-1,0,18446744073709551615]", r#"{"k":"\"\\\n"}"#, "[[[true]]]"] {
        assert_eq!(json(text).to_string(), text);
    }
    assert!(Json::parse("[1,]").is_err());
    assert!(Json::parse("").is_err());
    assert_eq!(json("2.50"), Json::Number(JsonNumber::Float("2.5".to_string())));
    let members = vec![field("z", Json::Null), field("a", Json::Bool(true))];
    assert_eq!(members_to_string(&members), r#"{"z":null,"a":true}"#);
    assert_eq!(Json::from_members(members), json(r#"{"a": true, "z": null}"#));
}

#[test]
fn parts_of_json() {
    assert_eq!(json("5").as_u64(), Some(5));
    assert_eq!(json("-5").as_u64(), None);
    assert_eq!(json("-5").as_i64(), Some(-5));
    assert_eq!(Json::unsigned(5), Json::integer(5));
    assert_eq!(json("9223372036854775808").as_i64(), None);
    assert_eq!(json("1.0").as_i64(), None);
    assert_eq!(json("\"a\"").as_str(), Some("a"));
    assert_eq!(json("[1]").as_array().unwrap().len(), 1);
    assert!(json("{}").as_object().is_some() && json("[]").as_object().is_none());
    assert!(json("[]").get("a").is_none());
    assert!(same(&json("[1, {\"a\": 2}]"), &json("[1, {\"a\": 2}]")));
    assert!(same(&json("[{\"a\": 0.0}]"), &json("[{\"a\": -0.0}]")) && !same(&json("0"), &json("0.0")));
    assert!(!same(&json("[1]"), &json("[1, 2]")) && !same(&json("1"), &json("1.0")));
}

#[test]
fn faults_of_messages() {
    for text in ["42", "()", "(42)", "(call)", "(call x f ())", "(call 1 f)", "(return 1)"] {
        assert!(matches!(
            EpcMessage::decode(text),
            Err(MessageError::InvalidFormat(_)) | Err(MessageError::UnknownType(_))
        ));
    }
    assert_eq!(EpcMessage::decode("(methods -1)"), Ok(EpcMessage::Methods { uid: u64::MAX }));
    assert_eq!(
        EpcMessage::decode("(methods (\"a\\n\" b))"),
        Err(MessageError::InvalidFormat(
            "uid must be an integer, got: List([String(\"a\\n\"), Symbol(\"b\")])".to_string()
        ))
    );
    let unknown = EpcMessage::decode("(what 1)").unwrap_err();
    assert_eq!(unknown.to_string(), "unknown message type: what");
    let faulty = EpcMessage::decode(")").unwrap_err();
    assert_eq!(faulty.to_string(), "sexp parse error: unmatched closing parenthesis");
    assert_eq!(MessageError::InvalidFormat("x".to_string()).to_string(), "invalid message format: x");
}

#[test]
fn uris_of_paths() {
    assert_eq!(path_to_uri("/tmp/a b.py"), "file:///tmp/a%20b.py");
    assert_eq!(path_to_uri("/tmp/100%?#[é].py"), "file:///tmp/100%25%3F%23%5B%C3%A9%5D.py");
    assert_eq!(path_to_uri("/~u/a-b_c.d!$&'()*+,;=:@"), "file:///~u/a-b_c.d!$&'()*+,;=:@");
    assert_eq!(path_to_uri("C:\\a\\b c"), "file:///C:/a/b%20c");
    assert_eq!(uri_to_path("file:///tmp/a%20b.py"), "/tmp/a b.py");
    assert_eq!(uri_to_path("file:///tmp/%c3%A9%zz%2"), "/tmp/é%zz%2");
    assert_eq!(uri_to_path("file:///tmp/%FF"), "/tmp/%FF");
    assert_eq!(uri_to_path("file:///c%3A/a/b"), "c:/a/b");
    assert_eq!(uri_to_path("file:///C:/a/b"), "C:/a/b");
    assert_eq!(uri_to_path("https://x"), "https://x");
    assert_eq!(uri_to_path("file://é:x"), "é:x");
}

#[test]
fn tables_keep_their_order() {
    let mut table: Table<Json> = Table::new();
    assert!(table.is_empty());
    table.insert("b".to_string(), json("1"));
    table.insert("a".to_string(), json("2"));
    table.insert("b".to_string(), json("3"));
    assert_eq!(table.len(), 2);
    assert_eq!(table.entry(0), ("b", &json("3")));
    assert_eq!(table.remove("b"), Some(json("3")));
    assert_eq!(table.remove("b"), None);
    assert!(!table.contains_key("b") && table.get("a") == Some(&json("2")));
}

#[test]
fn floats_of_json() {
    for text in ["2.50", "1e16", "1e300", "0.1", "-0.0", "1e-7"] {
        let value = json(text);
        assert_eq!(SexpValue::from_json(&value).to_json(), value);
        let f: f64 = text.parse().unwrap();
        assert_eq!(SexpValue::from_json(&value), SexpValue::Float(format!("{}", f)));
    }
    let message = EpcMessage::decode("(methods 1e16)").unwrap_err().to_string();
    assert_eq!(message, "invalid message format: uid must be an integer, got: Float(1e16)");
    let message = EpcMessage::decode("(methods 5.0)").unwrap_err().to_string();
    assert_eq!(message, "invalid message format: uid must be an integer, got: Float(5.0)");
}
