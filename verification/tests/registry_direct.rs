//! Direct tests of the session registry: registration, targeted removal,
//! fan-out delivery, queue draining, and the audience query.

use docsly::models::Update;
use docsly::ops::Operation;
use docsly::registry::{Session, SessionRegistry, QUEUE_CAP};

fn update(ts: u64) -> Update {
    Update { op: Operation::Delete { offset: 0, length: 0 }, from: 9, timestamp: ts }
}

#[test]
fn join_then_find() {
    let mut reg = SessionRegistry::new();
    reg.join(Session::new(1, 10, 5, true));
    reg.join(Session::new(2, 11, 5, false));
    assert_eq!(reg.find_session(1), Some(0));
    assert_eq!(reg.find_session(2), Some(1));
    assert_eq!(reg.find_session(3), None);
}

#[test]
fn leave_removes_only_its_target() {
    let mut reg = SessionRegistry::new();
    reg.join(Session::new(1, 10, 5, true));
    reg.join(Session::new(2, 11, 5, false));
    reg.leave(1);
    assert_eq!(reg.find_session(1), None);
    assert_eq!(reg.find_session(2), Some(0));
    // Leaving again, or leaving an id that never joined, is a no-op.
    reg.leave(1);
    reg.leave(77);
    assert_eq!(reg.find_session(2), Some(0));
    assert_eq!(reg.sessions.len(), 1);
}

#[test]
fn broadcast_fills_only_matching_live_peers() {
    let mut reg = SessionRegistry::new();
    reg.join(Session::new(1, 10, 5, true)); // origin
    reg.join(Session::new(2, 11, 5, false)); // peer, same document
    reg.join(Session::new(3, 12, 6, false)); // other document
    let mut closing = Session::new(4, 13, 5, false);
    closing.live = false;
    reg.join(closing); // same document but no longer live
    reg.broadcast(5, 1, &update(42));
    assert_eq!(reg.sessions[0].queue.len(), 0);
    assert_eq!(reg.sessions[1].queue.len(), 1);
    assert_eq!(reg.sessions[2].queue.len(), 0);
    assert_eq!(reg.sessions[3].queue.len(), 0);
    assert_eq!(reg.sessions[1].queue[0].timestamp, 42);
}

#[test]
fn receive_drains_in_delivery_order() {
    let mut reg = SessionRegistry::new();
    reg.join(Session::new(1, 10, 5, true));
    reg.join(Session::new(2, 11, 5, false));
    for ts in 0..3 {
        reg.broadcast(5, 1, &update(ts));
    }
    for ts in 0..3 {
        assert_eq!(reg.receive(2).unwrap().timestamp, ts);
    }
    assert!(reg.receive(2).is_none());
    assert!(reg.receive(99).is_none());
}

#[test]
fn overflowing_queue_rejects_newest() {
    let mut reg = SessionRegistry::new();
    reg.join(Session::new(1, 10, 5, true));
    reg.join(Session::new(2, 11, 5, false));
    for ts in 0..(QUEUE_CAP as u64 + 10) {
        reg.broadcast(5, 1, &update(ts));
    }
    assert_eq!(reg.sessions[1].queue.len(), QUEUE_CAP);
    // The oldest messages were kept, the newest were dropped.
    assert_eq!(reg.sessions[1].queue[0].timestamp, 0);
    assert_eq!(reg.sessions[1].queue[QUEUE_CAP - 1].timestamp, QUEUE_CAP as u64 - 1);
}

#[test]
fn users_of_lists_live_watchers_in_join_order() {
    let mut reg = SessionRegistry::new();
    reg.join(Session::new(1, 10, 5, true));
    reg.join(Session::new(2, 11, 6, false));
    reg.join(Session::new(3, 12, 5, false));
    let mut closing = Session::new(4, 13, 5, false);
    closing.live = false;
    reg.join(closing);
    assert_eq!(reg.users_of(5), vec![10, 12]);
    assert_eq!(reg.users_of(6), vec![11]);
    assert_eq!(reg.users_of(7), Vec::<u64>::new());
}
