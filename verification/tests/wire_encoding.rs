//! The wire encoding: exact canonical output, JSON-legal escaping, and
//! agreement with an independent JSON parser.

use docsly::models::Update;
use docsly::ops::Operation;
use docsly::wire::{encode_broadcast, encode_op};

fn chars(s: &str) -> Vec<char> {
    s.chars().collect()
}

fn text(v: Vec<char>) -> String {
    v.into_iter().collect()
}

#[test]
fn insert_encodes_with_stable_field_names() {
    let op = Operation::Insert { offset: 5, data: chars("ab") };
    assert_eq!(text(encode_op(&op)), r#"{"type":"insert","position":5,"data":"ab"}"#);
}

#[test]
fn delete_encodes_with_stable_field_names() {
    let op = Operation::Delete { offset: 12, length: 0 };
    assert_eq!(text(encode_op(&op)), r#"{"type":"delete","position":12,"length":0}"#);
}

#[test]
fn multi_digit_positions_render_in_decimal() {
    let op = Operation::Delete { offset: 1234, length: 507 };
    assert_eq!(text(encode_op(&op)), r#"{"type":"delete","position":1234,"length":507}"#);
}

#[test]
fn quotes_backslashes_and_controls_are_escaped() {
    let op = Operation::Insert { offset: 0, data: chars("a\"b\\c\nd") };
    assert_eq!(
        text(encode_op(&op)),
        "{\"type\":\"insert\",\"position\":0,\"data\":\"a\\\"b\\\\c\\u000ad\"}"
    );
}

#[test]
fn encoded_operation_is_legal_json() {
    let op = Operation::Insert { offset: 3, data: chars("x\t\"y\\") };
    let s = text(encode_op(&op));
    let v: serde_json::Value = serde_json::from_str(&s).expect("encoder must emit legal JSON");
    assert_eq!(v.get("type").unwrap().as_str(), Some("insert"));
    assert_eq!(v.get("position").unwrap().as_u64(), Some(3));
    assert_eq!(v.get("data").unwrap().as_str(), Some("x\t\"y\\"));
}

#[test]
fn broadcast_form_adds_origin_and_timestamp() {
    let u = Update {
        op: Operation::Insert { offset: 1, data: chars("hi") },
        from: 42,
        timestamp: 99,
    };
    let s = text(encode_broadcast(&u, &chars("user-a"), &chars("2024-01-01T00:00:00Z")));
    assert_eq!(
        s,
        r#"{"type":"insert","position":1,"data":"hi","from":"user-a","timestamp":"2024-01-01T00:00:00Z"}"#
    );
    let v: serde_json::Value = serde_json::from_str(&s).unwrap();
    assert_eq!(v.get("from").unwrap().as_str(), Some("user-a"));
    assert_eq!(v.get("timestamp").unwrap().as_str(), Some("2024-01-01T00:00:00Z"));
    assert_eq!(v.get("position").unwrap().as_u64(), Some(1));
}

#[test]
fn broadcast_form_of_delete_is_legal_json() {
    let u = Update { op: Operation::Delete { offset: 0, length: 2 }, from: 1, timestamp: 5 };
    let s = text(encode_broadcast(&u, &chars("u"), &chars("t")));
    let v: serde_json::Value = serde_json::from_str(&s).unwrap();
    assert_eq!(v.get("type").unwrap().as_str(), Some("delete"));
    assert_eq!(v.get("length").unwrap().as_u64(), Some(2));
}
