use switchhosts::json::bridge::{parse_json, to_vec_pretty};
use switchhosts::json::model::{JsonNumber, JsonValue};

#[test]
fn parse_keeps_member_order_and_kinds() {
    let v = parse_json(br#"{"z": 1, "a": [true, null, "s", -3], "m": {"k": 2}}"#).unwrap();
    let expected = JsonValue::Object(vec![
        ("z".to_string(), JsonValue::Number(JsonNumber::from_u64(1))),
        (
            "a".to_string(),
            JsonValue::Array(vec![
                JsonValue::Bool(true),
                JsonValue::Null,
                JsonValue::Str("s".to_string()),
                JsonValue::Number(JsonNumber::from_i64(-3)),
            ]),
        ),
        ("m".to_string(), JsonValue::Object(vec![("k".to_string(), JsonValue::Number(JsonNumber::from_u64(2)))])),
    ]);
    assert_eq!(v, expected);
}

#[test]
fn parse_rejects_garbage() {
    assert_eq!(parse_json(b"{not json"), None);
    assert_eq!(parse_json(b""), None);
}

#[test]
fn floats_survive_a_round_trip() {
    let v = parse_json(b"[1.5, -0.25, 1e300]").unwrap();
    let bytes = to_vec_pretty(&v).unwrap();
    assert_eq!(parse_json(&bytes).unwrap(), v);
}

#[test]
fn get_and_typed_accessors() {
    let v = parse_json(br#"{"id": "n1", "children": [], "n": 5, "neg": -1}"#).unwrap();
    assert_eq!(v.get_str("id"), Some("n1"));
    assert_eq!(v.get_array("children").map(|a| a.len()), Some(0));
    assert_eq!(v.get("n").and_then(|n| n.as_u64()), Some(5));
    assert_eq!(v.get("neg").and_then(|n| n.as_u64()), None);
    assert_eq!(v.get("missing"), None);
    assert!(v.is_object());
    assert_eq!(JsonValue::Null.get("id"), None);
}

#[test]
fn deep_clone_is_equal() {
    let v = parse_json(br#"{"a": [{"b": [1, 2.5, "x"]}], "c": false}"#).unwrap();
    assert_eq!(v.deep_clone(), v);
}

#[test]
fn number_from_i64_non_negative_is_unsigned() {
    assert_eq!(JsonNumber::from_i64(7), JsonNumber::from_u64(7));
    assert_eq!(JsonNumber::from_i64(-7).as_u64(), None);
}

#[test]
fn numbers_print_as_parsed() {
    let v = parse_json(b"[-3, 2.5, 18446744073709551615]").unwrap();
    assert_eq!(
        String::from_utf8(to_vec_pretty(&v).unwrap()).unwrap(),
        "[\n  -3,\n  2.5,\n  18446744073709551615\n]"
    );
}
