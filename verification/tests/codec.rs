//! The JSON codec from the outside: exact canonical texts, the round
//! trip, and agreement with a reference serializer.

use amqp_api::json::JsonValue;
use amqp_api::json_read::{from_chars, from_text};
use amqp_api::json_write::{to_bytes, to_chars, to_text};

fn obj(members: Vec<(&str, JsonValue)>) -> JsonValue {
    JsonValue::Obj(members.into_iter().map(|(k, v)| (k.to_string(), v)).collect())
}

fn s(text: &str) -> JsonValue {
    JsonValue::Str(text.to_string())
}

#[test]
fn scalars_have_their_canonical_text() {
    assert_eq!(to_text(&JsonValue::Null), "null");
    assert_eq!(to_text(&JsonValue::Bool(true)), "true");
    assert_eq!(to_text(&JsonValue::Bool(false)), "false");
    assert_eq!(to_text(&JsonValue::from_int(0)), "0");
    assert_eq!(to_text(&JsonValue::from_int(-7)), "-7");
    assert_eq!(to_text(&JsonValue::from_int(1234567890)), "1234567890");
    assert_eq!(to_text(&JsonValue::from_int(i64::MAX)), "9223372036854775807");
    assert_eq!(to_text(&JsonValue::from_int(i64::MIN)), "-9223372036854775808");
    assert_eq!(to_text(&JsonValue::Num("2.5e-3".to_string())), "2.5e-3");
}

#[test]
fn containers_have_their_canonical_text() {
    let doc = obj(vec![
        ("id", s("o1")),
        ("qty", JsonValue::from_int(3)),
        ("tags", JsonValue::Arr(vec![s("a"), s("b")])),
        ("extra", JsonValue::Null),
    ]);
    assert_eq!(
        to_text(&doc),
        "{\"id\":\"o1\",\"qty\":3,\"tags\":[\"a\",\"b\"],\"extra\":null}"
    );
    assert_eq!(to_text(&JsonValue::Arr(vec![])), "[]");
    assert_eq!(to_text(&obj(vec![])), "{}");
}

#[test]
fn strings_are_escaped_exactly() {
    assert_eq!(to_text(&s("a\"b")), "\"a\\\"b\"");
    assert_eq!(to_text(&s("a\\b")), "\"a\\\\b\"");
    assert_eq!(to_text(&s("a\nb\tc\rd")), "\"a\\nb\\tc\\rd\"");
    assert_eq!(to_text(&s("\u{8}\u{c}")), "\"\\b\\f\"");
    assert_eq!(to_text(&s("\u{1}\u{1f}")), "\"\\u0001\\u001f\"");
    assert_eq!(to_text(&s("caf\u{e9}")), "\"caf\u{e9}\"");
}

#[test]
fn round_trip_returns_the_same_document() {
    let doc = obj(vec![
        ("nested", obj(vec![("k", JsonValue::Arr(vec![JsonValue::from_int(-1), s("x\"y\\z")]))])),
        ("empty", JsonValue::Arr(vec![])),
        ("text", s("line\nbreak \u{1} caf\u{e9} \u{1F600}")),
        ("big", JsonValue::from_int(i64::MIN)),
    ]);
    let text = to_text(&doc);
    let back = from_text(&text).expect("canonical text parses");
    assert_eq!(back, doc);
    let chars = to_chars(&doc);
    assert_eq!(from_chars(&chars).expect("canonical chars parse"), doc);
}

#[test]
fn parser_accepts_whitespace_and_escapes() {
    let back = from_text(" { \"a\" : [ 1 , -2 ] , \"b\" : \"\\u0041\\t\" } ").unwrap();
    assert_eq!(
        back,
        obj(vec![
            ("a", JsonValue::Arr(vec![JsonValue::from_int(1), JsonValue::from_int(-2)])),
            ("b", s("A\t")),
        ])
    );
}

#[test]
fn parser_combines_surrogate_pair_escapes() {
    let back = from_text("\"\\ud83d\\ude00\"").unwrap();
    assert_eq!(back, s("\u{1F600}"));
}

#[test]
fn parser_rejects_malformed_text() {
    assert!(from_text("").is_none());
    assert!(from_text("{").is_none());
    assert!(from_text("01").is_none());
    assert!(from_text("1.").is_none());
    assert!(from_text("1e").is_none());
    assert!(from_text(".5").is_none());
    assert!(from_text("1e+").is_none());
    assert!(from_text("-").is_none());
    assert!(from_text("\"\\ud83d\"").is_none());
    assert!(from_text("\"unterminated").is_none());
    assert!(from_text("{\"a\":1,}").is_none());
    assert!(from_text("[1 2]").is_none());
    assert!(from_text("nul").is_none());
    assert!(from_text("{\"a\":1} trailing").is_none());
}

#[test]
fn parser_accepts_extreme_integers() {
    assert_eq!(from_text("-9223372036854775808"), Some(JsonValue::from_int(i64::MIN)));
    assert_eq!(from_text("9223372036854775807"), Some(JsonValue::from_int(i64::MAX)));
    assert_eq!(from_text("-0"), Some(JsonValue::Num("-0".to_string())));
}

#[test]
fn numbers_pass_through_by_their_exact_lexeme() {
    for lexeme in [
        "1.5",
        "-2.5e-3",
        "1e5",
        "0.0001",
        "1E+10",
        "9223372036854775808",
        "-9223372036854775809",
        "123456789012345678901234567890.5e-99",
    ] {
        let parsed = from_text(lexeme).expect("a valid number lexeme parses");
        assert_eq!(parsed, JsonValue::Num(lexeme.to_string()));
        assert_eq!(to_text(&parsed), lexeme);
    }
    let doc = obj(vec![("pi", JsonValue::Num("3.14159".to_string()))]);
    let text = to_text(&doc);
    assert_eq!(text, "{\"pi\":3.14159}");
    assert_eq!(from_text(&text).unwrap(), doc);
}

#[test]
fn parser_enforces_the_nesting_limit() {
    let mut deep = String::new();
    for _ in 0..128 {
        deep.push('[');
    }
    deep.push('1');
    for _ in 0..128 {
        deep.push(']');
    }
    assert!(from_text(&deep).is_some());
    let mut too_deep = String::new();
    for _ in 0..129 {
        too_deep.push('[');
    }
    too_deep.push('1');
    for _ in 0..129 {
        too_deep.push(']');
    }
    assert!(from_text(&too_deep).is_none());
}

#[test]
fn duplicate_keys_resolve_to_the_last_binding() {
    let back = from_text("{\"a\":1,\"a\":2}").unwrap();
    assert_eq!(back.get("a"), Some(&JsonValue::from_int(2)));
}

#[test]
fn reference_serializer_agrees_on_the_wire_text() {
    let doc = obj(vec![
        ("a", JsonValue::Arr(vec![JsonValue::from_int(1), s("x\ny")])),
        ("b", JsonValue::Bool(false)),
    ]);
    let mine = to_text(&doc);
    let reference: serde_json::Value = serde_json::from_str(&mine).expect("serde accepts it");
    assert_eq!(serde_json::to_string(&reference).unwrap(), mine);
    let float_doc = obj(vec![("x", JsonValue::Num("2.5".to_string()))]);
    let mine = to_text(&float_doc);
    let reference: serde_json::Value = serde_json::from_str(&mine).expect("serde accepts it");
    assert_eq!(serde_json::to_string(&reference).unwrap(), mine);
}

#[test]
fn byte_output_is_utf8_of_the_text() {
    let doc = obj(vec![("text", s("caf\u{e9}"))]);
    assert_eq!(to_bytes(&doc), to_text(&doc).into_bytes());
}
