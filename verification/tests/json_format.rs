use escape_core::json::{to_bytes, JsonValue};
use serde_json::{Number, Value};

fn ours(j: &JsonValue) -> String {
    String::from_utf8(to_bytes(j)).unwrap()
}

#[test]
fn canonical_writer_matches_serde_json_for_strings() {
    let samples = [
        "plain",
        "",
        "quote \" and backslash \\",
        "line\nbreak\ttab\rreturn",
        "\u{0001}\u{001f}\u{0008}\u{000c}",
        "한국어 텍스트",
        "emoji \u{1F600} and \u{7f}",
    ];
    for s in samples.iter() {
        let expected = serde_json::to_string(&Value::String(s.to_string())).unwrap();
        assert_eq!(ours(&JsonValue::Str(s.to_string())), expected);
    }
}

#[test]
fn canonical_writer_matches_serde_json_for_numbers_and_literals() {
    for n in [0i64, 7, -1, 42, i64::MIN, i64::MAX, -9_007_199_254_740_993] {
        let expected = serde_json::to_string(&Value::Number(Number::from(n))).unwrap();
        assert_eq!(ours(&JsonValue::Int(n)), expected);
    }
    for n in [0u64, 10, u64::MAX] {
        let expected = serde_json::to_string(&Value::Number(Number::from(n))).unwrap();
        assert_eq!(ours(&JsonValue::UInt(n)), expected);
    }
    assert_eq!(ours(&JsonValue::Null), serde_json::to_string(&Value::Null).unwrap());
    assert_eq!(ours(&JsonValue::Bool(true)), serde_json::to_string(&Value::Bool(true)).unwrap());
    assert_eq!(ours(&JsonValue::Bool(false)), serde_json::to_string(&Value::Bool(false)).unwrap());
}

#[test]
fn canonical_writer_matches_serde_json_for_nested_values() {
    let ours_value = JsonValue::Obj(vec![
        ("a".to_string(), JsonValue::Arr(vec![JsonValue::UInt(1), JsonValue::Null, JsonValue::Str("x\"y".to_string())])),
        ("b".to_string(), JsonValue::Obj(vec![("c".to_string(), JsonValue::Int(-3))])),
        ("d".to_string(), JsonValue::Arr(vec![])),
    ]);
    let mut inner = serde_json::Map::new();
    inner.insert("c".to_string(), Value::Number(Number::from(-3i64)));
    let mut outer = serde_json::Map::new();
    outer.insert(
        "a".to_string(),
        Value::Array(vec![Value::Number(Number::from(1u64)), Value::Null, Value::String("x\"y".to_string())]),
    );
    outer.insert("b".to_string(), Value::Object(inner));
    outer.insert("d".to_string(), Value::Array(vec![]));
    let expected = serde_json::to_string(&Value::Object(outer)).unwrap();
    assert_eq!(ours(&ours_value), expected);
}
