//! Tests for the plain model types, authentication decision, wire-level
//! conversion, and the connection lifecycle machine.

use docsly::lifecycle::{lifecycle_step, ConnEvent, ConnState};
use docsly::models::{
    authenticate, cookie_token, operation_of, AuthError, Claims, DocState, DocType, LoginUser,
    UpdateType, User, TOKEN_TTL_SECS,
};
use docsly::ops::Operation;

fn account(password: &str) -> User {
    User {
        id: Some(11),
        name: "ada".to_string(),
        email: "a@b.c".to_string(),
        password: password.to_string(),
        doc_count: Some(0),
    }
}

fn login(password: &str) -> LoginUser {
    LoginUser { email: "a@b.c".to_string(), password: password.to_string() }
}

#[test]
fn authenticate_accepts_matching_password() {
    let r = authenticate(Some(account("pw")), &login("pw"));
    let u = r.expect("matching password should log in");
    assert_eq!(u.id, Some(11));
    assert_eq!(u.name, "ada");
}

#[test]
fn authenticate_rejects_wrong_password() {
    let r = authenticate(Some(account("pw")), &login("other"));
    assert!(matches!(r, Err(AuthError::IncorrectPassword)));
}

#[test]
fn authenticate_rejects_unknown_account() {
    let r = authenticate(None, &login("pw"));
    assert!(matches!(r, Err(AuthError::UserNotFound)));
}

#[test]
fn claims_new_keeps_fields() {
    let c = Claims::new("user-id".to_string(), 42);
    assert_eq!(c.sub, "user-id");
    assert_eq!(c.exp, 42);
}

#[test]
fn claims_for_login_expire_one_ttl_later() {
    let c = Claims::for_login("user-id".to_string(), 1000);
    assert_eq!(c.exp, 1000 + TOKEN_TTL_SECS);
    assert_eq!(c.exp, 1000 + 2592000);
}

#[test]
fn doc_state_new_keeps_fields() {
    let ds = DocState::new(5, vec![5, 9]);
    assert_eq!(ds.author, 5);
    assert_eq!(ds.users, vec![5, 9]);
}

#[test]
fn doc_types_are_distinct() {
    assert_ne!(DocType::Blank, DocType::Essay);
    assert_eq!(DocType::MeetingDocs, DocType::MeetingDocs);
    assert_ne!(DocType::DataTable, DocType::Blank);
}

#[test]
fn wire_insert_measures_characters() {
    let w = UpdateType::Insert { data: "héllo".to_string() };
    match operation_of(2, &w) {
        Operation::Insert { offset, data } => {
            assert_eq!(offset, 2);
            assert_eq!(data, vec!['h', 'é', 'l', 'l', 'o']);
        },
        _ => panic!("wrong variant"),
    }
}

#[test]
fn wire_delete_carries_position_and_length() {
    let w = UpdateType::Delete { length: 4 };
    match operation_of(9, &w) {
        Operation::Delete { offset, length } => {
            assert_eq!(offset, 9);
            assert_eq!(length, 4);
        },
        _ => panic!("wrong variant"),
    }
}

#[test]
fn cookie_token_takes_everything_after_first_equals() {
    assert_eq!(cookie_token("token=abc.def"), Some("abc.def".to_string()));
    assert_eq!(cookie_token("token=a=b"), Some("a=b".to_string()));
    assert_eq!(cookie_token("token="), Some("".to_string()));
}

#[test]
fn cookie_token_without_equals_is_none() {
    assert_eq!(cookie_token("garbage"), None);
    assert_eq!(cookie_token(""), None);
}

#[test]
fn lifecycle_happy_path() {
    let s = ConnState::Connecting;
    let s = lifecycle_step(s, ConnEvent::Registered);
    assert_eq!(s, ConnState::Active);
    let s = lifecycle_step(s, ConnEvent::CloseSignal);
    assert_eq!(s, ConnState::Closing);
    let s = lifecycle_step(s, ConnEvent::Drained);
    assert_eq!(s, ConnState::Closed);
}

#[test]
fn lifecycle_setup_failure_never_activates() {
    let s = lifecycle_step(ConnState::Connecting, ConnEvent::SetupFailed);
    assert_eq!(s, ConnState::Closed);
    let s = lifecycle_step(ConnState::Connecting, ConnEvent::CloseSignal);
    assert_eq!(s, ConnState::Closed);
}

#[test]
fn lifecycle_closed_is_terminal() {
    for e in [
        ConnEvent::SetupFailed,
        ConnEvent::Registered,
        ConnEvent::CloseSignal,
        ConnEvent::Drained,
    ] {
        assert_eq!(lifecycle_step(ConnState::Closed, e), ConnState::Closed);
    }
}
