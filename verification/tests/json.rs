use elasticsearch_binding::json::{Json, JsonNumber};
use elasticsearch_binding::text::{
    decimal_text, has_suffix, has_text, is_blank, join, parse_unsigned, same_text, split_path,
    to_ascii_lower,
};
use elasticsearch_binding::wire::{as_float, from_value, to_value};

fn json(text: &str) -> Json {
    Json::decode(text.as_bytes()).unwrap()
}

#[test]
fn values_read_and_write() {
    for text in [
        "null",
        "true",
        "0",
        "18446744073709551615",
        "-9223372036854775808",
        "1.5",
        "\"a\\n\\u0001é\"",
        "[]",
        "[1,[2,{}]]",
        "{\"a\":1,\"b\":{\"c\":[null,false]}}",
    ] {
        assert_eq!(json(text).encode(), text);
    }
}

#[test]
fn unreadable_text_has_a_message() {
    let m = Json::decode(b"{ not json").unwrap_err();
    assert!(m.contains("line 1"), "{m}");
    assert!(Json::decode(b"").is_err());
    assert!(Json::decode(&[b'"', 0xff, b'"']).is_err());
}

#[test]
fn fields_stand_in_order_once() {
    let j = Json::object()
        .with("b", Json::number(1))
        .with("a", Json::number(2))
        .with("é", Json::number(3))
        .with("b", Json::number(4))
        .with_some("z", None);
    assert_eq!(j.encode(), "{\"a\":2,\"b\":4,\"é\":3}");
    assert_eq!(j, json("{\"é\":3,\"b\":0,\"b\":4,\"a\":2}"));
    assert_eq!(j.get_u64("b"), Some(4));
    assert_eq!(j.get("c"), None);
}

#[test]
fn numbers_keep_their_kind() {
    assert_eq!(json("7").as_u64(), Some(7));
    assert_eq!(json("-7").as_u64(), None);
    assert_eq!(json("7.0").as_u64(), None);
    assert_eq!(json("-7"), Json::Number(JsonNumber::NegInt(-7)));
    assert_eq!(json("7"), Json::Number(JsonNumber::PosInt(7)));
    assert!(matches!(json("1e3"), Json::Number(JsonNumber::Float(_))));
    assert_eq!(Json::Number(as_float(&JsonNumber::PosInt(3))), json("3.0"));
    assert_eq!(Json::Number(as_float(&JsonNumber::NegInt(-3))), json("-3.0"));
    match json("0.25") {
        Json::Number(n) => assert_eq!(as_float(&n), n),
        _ => panic!("a number"),
    }
}

#[test]
fn values_of_the_wire_carry_over() {
    let v: serde_json::Value =
        serde_json::from_str(r#"{ "b": [1, -2, 0.5, "x", null, true], "a": {} }"#).unwrap();
    let j = from_value(v.clone());
    assert_eq!(j, json(r#"{ "a": {}, "b": [1, -2, 0.5, "x", null, true] }"#));
    assert_eq!(to_value(&j), v);
}

#[test]
fn arrays_grow_at_their_end() {
    let j = Json::list().item(Json::text("a")).item(Json::Null);
    assert_eq!(j, json(r#"["a", null]"#));
    assert_eq!(Json::array(vec![Json::Bool(true)]), json("[true]"));
    assert_eq!(j.as_array().unwrap().len(), 2);
    assert!(Json::number(1).item(Json::Null).as_u64().is_some());
}

#[test]
fn texts() {
    assert!(same_text("aé", "aé"));
    assert!(!same_text("a", "ab"));
    assert!(has_suffix("map_script", "_script"));
    assert!(!has_suffix("script", "_script"));
    assert!(has_text("it timed out.", "timed out"));
    assert!(!has_text("", "x"));
    assert!(has_text("x", ""));
    assert_eq!(to_ascii_lower("AbÉ"), "abÉ");
    assert!(is_blank(" \t\n\u{a0}\u{3000}"));
    assert!(!is_blank(" x "));
    assert!(!is_blank("\u{200b}"));
    assert_eq!(split_path("a..b"), vec!["a".to_string(), "".to_string(), "b".to_string()]);
    assert_eq!(split_path(""), vec!["".to_string()]);
    assert_eq!(join(&vec!["a".to_string(), "b".to_string()], ", "), "a, b");
    assert_eq!(join(&vec![], ", "), "");
}

#[test]
fn decimal_numbers() {
    assert_eq!(decimal_text(0), "0");
    assert_eq!(decimal_text(1203), "1203");
    assert_eq!(decimal_text(u128::MAX), u128::MAX.to_string());
    assert_eq!(parse_unsigned("18446744073709551615"), Some(u64::MAX));
    assert_eq!(parse_unsigned("18446744073709551616"), None);
    assert_eq!(parse_unsigned("+7"), Some(7));
    assert_eq!(parse_unsigned("007"), Some(7));
    for bad in ["", "+", "-1", " 1", "1 ", "1_0", "٣"] {
        assert_eq!(parse_unsigned(bad), None);
    }
}
