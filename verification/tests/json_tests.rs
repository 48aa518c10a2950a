use lionbootloader_core::json::JsonValue;
use lionbootloader_core::json::parse_json;

fn parse(s: &str) -> Option<JsonValue> {
    parse_json(s.as_bytes())
}

#[test]
fn parses_literals() {
    assert!(matches!(parse("null"), Some(JsonValue::Null)));
    assert!(matches!(parse("true"), Some(JsonValue::Bool(true))));
    assert!(matches!(parse("false"), Some(JsonValue::Bool(false))));
    assert!(matches!(parse("  42  "), Some(JsonValue::Int(42))));
    assert!(matches!(parse("-7"), Some(JsonValue::Int(-7))));
    assert!(matches!(parse("0"), Some(JsonValue::Int(0))));
}

#[test]
fn parses_strings_with_escapes() {
    match parse("\"a b\\n\\\"c\\\"\\u0041\"") {
        Some(JsonValue::Str(s)) => assert_eq!(s, "a b\n\"c\"A"),
        other => panic!("unexpected parse outcome: {}", got_kind(&other)),
    }
}

#[test]
fn parses_nested_structures() {
    let v = parse("{\"a\": [1, 2, {\"b\": \"x\"}], \"c\": null}").expect("document parses");
    match v {
        JsonValue::Obj(ms) => {
            assert_eq!(ms.len(), 2);
            assert_eq!(ms[0].0, "a");
            match &ms[0].1 {
                JsonValue::Arr(items) => {
                    assert_eq!(items.len(), 3);
                    assert!(matches!(items[0], JsonValue::Int(1)));
                    assert!(matches!(items[1], JsonValue::Int(2)));
                },
                _ => panic!("expected an array"),
            }
        },
        _ => panic!("expected an object"),
    }
}

#[test]
fn large_and_fractional_numbers_parse_as_big() {
    assert!(matches!(parse("123456789012345678901234"), Some(JsonValue::BigNum)));
    assert!(matches!(parse("1.5"), Some(JsonValue::BigNum)));
    assert!(matches!(parse("2e10"), Some(JsonValue::BigNum)));
    assert!(matches!(parse("9223372036854775807"), Some(JsonValue::Int(i64::MAX))));
    assert!(matches!(parse("-9223372036854775808"), Some(JsonValue::Int(i64::MIN))));
    assert!(matches!(parse("9223372036854775808"), Some(JsonValue::BigNum)));
}

#[test]
fn malformed_documents_are_refused() {
    assert!(parse("").is_none());
    assert!(parse("{").is_none());
    assert!(parse("[1,]").is_none());
    assert!(parse("{\"a\" 1}").is_none());
    assert!(parse("tru").is_none());
    assert!(parse("01").is_none());
    assert!(parse("1 2").is_none());
    assert!(parse("\"unterminated").is_none());
}

#[test]
fn strings_carry_utf8_text() {
    match parse("\"caf\u{e9}\"") {
        Some(JsonValue::Str(s)) => assert_eq!(s, "caf\u{e9}"),
        other => panic!("unexpected parse outcome: {}", got_kind(&other)),
    }
    // the same character through a basic-plane escape
    match parse("\"caf\\u00e9\"") {
        Some(JsonValue::Str(s)) => assert_eq!(s, "caf\u{e9}"),
        other => panic!("unexpected parse outcome: {}", got_kind(&other)),
    }
    // a three-byte scalar
    match parse("\"\u{20ac}\"") {
        Some(JsonValue::Str(s)) => assert_eq!(s, "\u{20ac}"),
        other => panic!("unexpected parse outcome: {}", got_kind(&other)),
    }
    // malformed UTF-8 is refused: a lone continuation byte, a truncated
    // scalar, an overlong encoding, and a surrogate escape
    assert!(parse_json(b"\"\xa9\"").is_none());
    assert!(parse_json(b"\"\xc3\"").is_none());
    assert!(parse_json(b"\"\xc0\x80\"").is_none());
    assert!(parse("\"\\ud800\"").is_none());
}

#[test]
fn empty_containers_parse() {
    assert!(matches!(parse("[]"), Some(JsonValue::Arr(v)) if v.is_empty()));
    assert!(matches!(parse("{}"), Some(JsonValue::Obj(m)) if m.is_empty()));
}

fn got_kind(v: &Option<JsonValue>) -> &'static str {
    match v {
        None => "none",
        Some(JsonValue::Null) => "null",
        Some(JsonValue::Bool(_)) => "bool",
        Some(JsonValue::Int(_)) => "int",
        Some(JsonValue::BigNum) => "bignum",
        Some(JsonValue::Str(_)) => "str",
        Some(JsonValue::Arr(_)) => "arr",
        Some(JsonValue::Obj(_)) => "obj",
    }
}
