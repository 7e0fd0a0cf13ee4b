//! Canonical JSON serialization: exact bytes, ordering, escaping, numbers.

use verifiable_memory_example::json::{as_i64, obj_insert, pk_json_to_string, to_canon_bytes, JsonValue};

fn obj(entries: Vec<(&str, JsonValue)>) -> JsonValue {
    let mut out: Vec<(String, JsonValue)> = Vec::new();
    for (k, v) in entries {
        obj_insert(&mut out, k.to_string(), v);
    }
    JsonValue::Obj(out)
}

fn canon_str(v: &JsonValue) -> String {
    String::from_utf8(to_canon_bytes(v)).unwrap()
}

#[test]
fn canonical_object_sorts_keys() {
    let v = obj(vec![
        ("v", JsonValue::Int(7)),
        ("id", JsonValue::Int(1)),
        ("email", JsonValue::Str("a@b".to_string())),
    ]);
    assert_eq!(canon_str(&v), r#"{"email":"a@b","id":1,"v":7}"#);
}

#[test]
fn canonical_scalars() {
    assert_eq!(canon_str(&JsonValue::Null), "null");
    assert_eq!(canon_str(&JsonValue::Bool(true)), "true");
    assert_eq!(canon_str(&JsonValue::Bool(false)), "false");
    assert_eq!(canon_str(&JsonValue::Int(0)), "0");
    assert_eq!(canon_str(&JsonValue::Int(-5)), "-5");
    assert_eq!(canon_str(&JsonValue::Int(i64::MIN)), "-9223372036854775808");
    assert_eq!(canon_str(&JsonValue::Int(i64::MAX)), "9223372036854775807");
    assert_eq!(canon_str(&JsonValue::UInt(u64::MAX)), "18446744073709551615");
    assert_eq!(canon_str(&JsonValue::UInt(10)), "10");
}

#[test]
fn canonical_string_escapes() {
    let v = JsonValue::Str("a\"b\\c\nd\te\u{1}f".to_string());
    assert_eq!(canon_str(&v), "\"a\\\"b\\\\c\\nd\\te\\u0001f\"");
}

#[test]
fn canonical_non_ascii_passes_through() {
    let v = JsonValue::Str("héllo".to_string());
    assert_eq!(to_canon_bytes(&v), "\"héllo\"".as_bytes().to_vec());
}

#[test]
fn canonical_arrays_and_nesting() {
    let inner = obj(vec![("b", JsonValue::Null), ("a", JsonValue::Bool(true))]);
    let v = JsonValue::Arr(vec![
        JsonValue::Int(1),
        inner,
        JsonValue::Arr(vec![]),
        JsonValue::Str("x".to_string()),
    ]);
    assert_eq!(canon_str(&v), r#"[1,{"a":true,"b":null},[],"x"]"#);
}

#[test]
fn canonical_empty_object() {
    let v = JsonValue::Obj(Vec::new());
    assert_eq!(canon_str(&v), "{}");
}

#[test]
fn obj_insert_replaces_same_key() {
    let mut entries: Vec<(String, JsonValue)> = Vec::new();
    obj_insert(&mut entries, "k".to_string(), JsonValue::Int(1));
    obj_insert(&mut entries, "k".to_string(), JsonValue::Int(2));
    assert_eq!(canon_str(&JsonValue::Obj(entries)), r#"{"k":2}"#);
}

#[test]
fn canonical_matches_reference_serializer() {
    // The fixed serialization agrees with serde_json's compact rendering of
    // a key-sorted map, the rendering the service's rows are hashed under.
    let v = obj(vec![
        ("zeta", JsonValue::Int(-3)),
        ("alpha", JsonValue::Str("x\"y".to_string())),
        ("mid", JsonValue::Arr(vec![JsonValue::Bool(false), JsonValue::Null])),
    ]);
    let mut m = serde_json::Map::new();
    m.insert(
        "alpha".to_string(),
        serde_json::Value::String("x\"y".to_string()),
    );
    m.insert(
        "mid".to_string(),
        serde_json::Value::Array(vec![
            serde_json::Value::Bool(false),
            serde_json::Value::Null,
        ]),
    );
    m.insert(
        "zeta".to_string(),
        serde_json::Value::Number(serde_json::Number::from(-3i64)),
    );
    let expected = serde_json::to_string(&serde_json::Value::Object(m)).unwrap();
    assert_eq!(canon_str(&v), expected);
}

#[test]
fn as_i64_reads_integers() {
    assert_eq!(as_i64(&JsonValue::Int(-7)), Some(-7));
    assert_eq!(as_i64(&JsonValue::UInt(7)), Some(7));
    assert_eq!(as_i64(&JsonValue::UInt(u64::MAX)), None);
    assert_eq!(as_i64(&JsonValue::Str("7".to_string())), None);
    assert_eq!(as_i64(&JsonValue::Null), None);
}

#[test]
fn pk_values_stringify() {
    assert_eq!(
        pk_json_to_string(&JsonValue::Str("w1".to_string())),
        Some("w1".to_string())
    );
    assert_eq!(pk_json_to_string(&JsonValue::Int(42)), Some("42".to_string()));
    assert_eq!(pk_json_to_string(&JsonValue::Int(-42)), Some("-42".to_string()));
    assert_eq!(pk_json_to_string(&JsonValue::Int(0)), Some("0".to_string()));
    assert_eq!(
        pk_json_to_string(&JsonValue::Int(i64::MIN)),
        Some("-9223372036854775808".to_string())
    );
    assert_eq!(
        pk_json_to_string(&JsonValue::UInt(u64::MAX)),
        Some("18446744073709551615".to_string())
    );
    assert_eq!(pk_json_to_string(&JsonValue::Null), None);
    assert_eq!(pk_json_to_string(&JsonValue::Bool(true)), None);
}
