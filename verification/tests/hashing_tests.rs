//! Canonical hashing: agreement with SHA-256, domain separation,
//! determinism.

use sha2::Digest as _;
use verifiable_memory_example::hashing::{hash_key, hash_value};
use verifiable_memory_example::json::{obj_insert, to_canon_bytes, JsonValue};

fn sample_row() -> JsonValue {
    let mut entries: Vec<(String, JsonValue)> = Vec::new();
    obj_insert(&mut entries, "id".to_string(), JsonValue::Int(1));
    obj_insert(
        &mut entries,
        "email".to_string(),
        JsonValue::Str("a@b".to_string()),
    );
    obj_insert(&mut entries, "v".to_string(), JsonValue::Int(7));
    JsonValue::Obj(entries)
}

#[test]
fn hash_value_is_tagged_sha256_of_canonical_bytes() {
    let row = sample_row();
    let mut input: Vec<u8> = b"VERIFLEAF".to_vec();
    input.extend_from_slice(&to_canon_bytes(&row));
    let expected = sha2::Sha256::digest(&input).to_vec();
    assert_eq!(hash_value(&row).as_bytes().clone(), expected);
}

#[test]
fn hash_key_is_tagged_sha256_of_table_and_pk() {
    let mut input: Vec<u8> = b"VERIFNODE".to_vec();
    input.extend_from_slice(b"users");
    input.extend_from_slice(b"1");
    let expected = sha2::Sha256::digest(&input).to_vec();
    assert_eq!(hash_key("users", "1").as_bytes().clone(), expected);
}

#[test]
fn hash_key_depends_on_both_parts() {
    let a = hash_key("users", "12");
    let b = hash_key("users", "13");
    let c = hash_key("posts", "12");
    assert!(!(a == b));
    assert!(!(a == c));
}

#[test]
fn domain_separation_on_equal_content() {
    // A row that serializes to exactly the bytes of a (table, pk) pair still
    // hashes under a different domain tag.
    let row = JsonValue::Str("x".to_string());
    let value_digest = hash_value(&row);
    let key_digest = hash_key("\"x\"", "");
    assert!(!(value_digest == key_digest));
}

#[test]
fn hash_value_is_deterministic() {
    let a = hash_value(&sample_row());
    let b = hash_value(&sample_row());
    assert!(a == b);
    let mut entries: Vec<(String, JsonValue)> = Vec::new();
    obj_insert(&mut entries, "id".to_string(), JsonValue::Int(2));
    let c = hash_value(&JsonValue::Obj(entries));
    assert!(!(a == c));
}
