//! Behaviour of operation application: exact results, edge cases, and
//! rejection of out-of-bounds offsets.

use docsly::ops::{apply, ApplyError, Operation};

fn chars(s: &str) -> Vec<char> {
    s.chars().collect()
}

fn insert(offset: usize, data: &str) -> Operation {
    Operation::Insert { offset, data: chars(data) }
}

fn delete(offset: usize, length: usize) -> Operation {
    Operation::Delete { offset, length }
}

#[test]
fn insert_prepend() {
    let r = apply(&chars("hello"), &insert(0, "X"));
    assert_eq!(r, Ok(chars("Xhello")));
}

#[test]
fn insert_append() {
    let r = apply(&chars("hello"), &insert(5, "!"));
    assert_eq!(r, Ok(chars("hello!")));
}

#[test]
fn delete_middle() {
    let r = apply(&chars("hello"), &delete(1, 3));
    assert_eq!(r, Ok(chars("ho")));
}

#[test]
fn insert_middle_length_and_position() {
    let content = chars("abcd");
    let r = apply(&content, &insert(2, "XY")).unwrap();
    assert_eq!(r.len(), content.len() + 2);
    assert_eq!(r, chars("abXYcd"));
}

#[test]
fn insert_empty_data_is_identity() {
    let r = apply(&chars("abc"), &insert(1, ""));
    assert_eq!(r, Ok(chars("abc")));
}

#[test]
fn insert_into_empty_content() {
    let r = apply(&chars(""), &insert(0, "hi"));
    assert_eq!(r, Ok(chars("hi")));
}

#[test]
fn delete_zero_length_is_identity() {
    let r = apply(&chars("abc"), &delete(2, 0));
    assert_eq!(r, Ok(chars("abc")));
    let r = apply(&chars("abc"), &delete(3, 0));
    assert_eq!(r, Ok(chars("abc")));
}

#[test]
fn delete_entire_content() {
    let r = apply(&chars("abc"), &delete(0, 3));
    assert_eq!(r, Ok(chars("")));
}

#[test]
fn offsets_count_characters_not_bytes() {
    // 'é' is two bytes in UTF-8 but one character; offsets are characters.
    let r = apply(&chars("héllo"), &insert(2, "x"));
    assert_eq!(r, Ok(chars("héxllo")));
    let r = apply(&chars("héllo"), &delete(1, 1));
    assert_eq!(r, Ok(chars("hllo")));
}

#[test]
fn insert_out_of_bounds() {
    let r = apply(&chars("hello"), &insert(6, "X"));
    assert_eq!(r, Err(ApplyError::OutOfBounds));
}

#[test]
fn insert_just_past_end_of_empty() {
    let r = apply(&chars(""), &insert(1, "X"));
    assert_eq!(r, Err(ApplyError::OutOfBounds));
}

#[test]
fn delete_out_of_bounds_span() {
    let r = apply(&chars("hello"), &delete(3, 3));
    assert_eq!(r, Err(ApplyError::OutOfBounds));
}

#[test]
fn delete_offset_past_end() {
    let r = apply(&chars("hello"), &delete(6, 0));
    assert_eq!(r, Err(ApplyError::OutOfBounds));
}

#[test]
fn failed_apply_never_clamps() {
    // An out-of-range delete is rejected outright, not clamped to the end.
    let content = chars("hello");
    let r = apply(&content, &delete(4, 5));
    assert_eq!(r, Err(ApplyError::OutOfBounds));
    assert_eq!(content, chars("hello"));
}

#[test]
fn duplicate_is_equal_copy() {
    let op = insert(1, "abc");
    let copy = op.duplicate();
    match (op, copy) {
        (
            Operation::Insert { offset: o1, data: d1 },
            Operation::Insert { offset: o2, data: d2 },
        ) => {
            assert_eq!(o1, o2);
            assert_eq!(d1, d2);
        },
        _ => panic!("variant changed"),
    }
}
