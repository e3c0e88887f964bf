//! The JSON parser and renderer on concrete documents.

use gemini_client::json::{parse_json, render_json, JsonValue};

fn parse_ok(s: &str) -> JsonValue {
    parse_json(s).expect("document should parse")
}

#[test]
fn parses_literals() {
    assert!(matches!(parse_ok("null"), JsonValue::Null));
    assert!(matches!(parse_ok("true"), JsonValue::Bool(true)));
    assert!(matches!(parse_ok("false"), JsonValue::Bool(false)));
    assert!(matches!(parse_ok(" \t\r\n null \n"), JsonValue::Null));
}

#[test]
fn parses_integers() {
    assert!(matches!(parse_ok("0"), JsonValue::Int(0)));
    assert!(matches!(parse_ok("42"), JsonValue::Int(42)));
    assert!(matches!(parse_ok("-17"), JsonValue::Int(-17)));
    assert!(matches!(parse_ok("123456789012345678"), JsonValue::Int(123456789012345678)));
}

#[test]
fn keeps_non_integer_numbers_verbatim() {
    match parse_ok("1.5") {
        JsonValue::NumRaw(s) => assert_eq!(s, "1.5"),
        _ => panic!("expected a raw numeric lexeme"),
    }
    match parse_ok("-0.25e+2") {
        JsonValue::NumRaw(s) => assert_eq!(s, "-0.25e+2"),
        _ => panic!("expected a raw numeric lexeme"),
    }
    match parse_ok("99999999999999999999") {
        JsonValue::NumRaw(s) => assert_eq!(s, "99999999999999999999"),
        _ => panic!("an over-long integer stays a raw lexeme"),
    }
}

#[test]
fn parses_strings_with_escapes() {
    match parse_ok(r#""a\nb\t\"c\"\\""#) {
        JsonValue::Str(s) => assert_eq!(s, "a\nb\t\"c\"\\"),
        _ => panic!("expected a string"),
    }
    match parse_ok(r#""Aé""#) {
        JsonValue::Str(s) => assert_eq!(s, "A\u{e9}"),
        _ => panic!("expected a string"),
    }
    // a surrogate pair combines into one character
    match parse_ok(r#""😀""#) {
        JsonValue::Str(s) => assert_eq!(s, "\u{1F600}"),
        _ => panic!("expected a string"),
    }
    // raw multi-byte text passes through
    match parse_ok("\"\u{4F60}\u{597D}\"") {
        JsonValue::Str(s) => assert_eq!(s, "\u{4F60}\u{597D}"),
        _ => panic!("expected a string"),
    }
}

#[test]
fn rejects_malformed_documents() {
    assert!(parse_json("").is_none());
    assert!(parse_json("nul").is_none());
    assert!(parse_json("{").is_none());
    assert!(parse_json("[1,]").is_none());
    assert!(parse_json("{\"a\":}").is_none());
    assert!(parse_json("\"unterminated").is_none());
    assert!(parse_json("\"bad\\escape\"").is_none());
    assert!(parse_json("\"lone\\ud800\"").is_none());
    assert!(parse_json("12 34").is_none());
    assert!(parse_json("{\"a\" 1}").is_none());
}

#[test]
fn parses_arrays_and_objects() {
    match parse_ok("[1, 2, 3]") {
        JsonValue::Arr(elems) => {
            assert_eq!(elems.len(), 3);
            assert!(matches!(elems[0], JsonValue::Int(1)));
            assert!(matches!(elems[2], JsonValue::Int(3)));
        },
        _ => panic!("expected an array"),
    }
    match parse_ok(r#"{"a": [true], "b": {"c": "d"}}"#) {
        JsonValue::Obj(ms) => {
            assert_eq!(ms.len(), 2);
            assert_eq!(ms[0].0, "a");
            assert!(matches!(&ms[0].1, JsonValue::Arr(v) if v.len() == 1));
            assert_eq!(ms[1].0, "b");
        },
        _ => panic!("expected an object"),
    }
}

#[test]
fn renders_and_reparses() {
    let doc = r#"{"name":"café","n":-5,"list":[1,"two",null,true],"inner":{"x":0}}"#;
    let v = parse_ok(doc);
    let out = render_json(&v);
    let v2 = parse_ok(&out);
    let out2 = render_json(&v2);
    // rendering is canonical: a second round trip is stable
    assert_eq!(out, out2);
    match v2 {
        JsonValue::Obj(ms) => {
            assert_eq!(ms.len(), 4);
            match &ms[0].1 {
                JsonValue::Str(s) => assert_eq!(s, "caf\u{e9}"),
                _ => panic!("expected a string"),
            }
        },
        _ => panic!("expected an object"),
    }
}

#[test]
fn renders_escapes_and_integers() {
    let v = JsonValue::Str(String::from("a\"b\\c\nd\u{1}"));
    assert_eq!(render_json(&v), r#""a\"b\\c\nd\u0001""#);
    assert_eq!(render_json(&JsonValue::Int(-120)), "-120");
    assert_eq!(render_json(&JsonValue::Int(i64::MIN)), "-9223372036854775808");
    assert_eq!(render_json(&JsonValue::Int(i64::MAX)), "9223372036854775807");
}

#[test]
fn parses_deep_nesting() {
    match parse_ok("[[[[[1]]]]]") {
        JsonValue::Arr(a) => assert_eq!(a.len(), 1),
        _ => panic!("expected an array"),
    }
    let deep = format!("{}1{}", "[".repeat(200), "]".repeat(200));
    assert!(parse_json(&deep).is_some());
}

#[test]
fn escaped_solidus_and_bmp_escapes() {
    match parse_ok(r#""a\/bAé""#) {
        JsonValue::Str(s) => assert_eq!(s, "a/bA\u{e9}"),
        _ => panic!("expected a string"),
    }
}
