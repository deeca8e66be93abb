//! The edit coordinator: the only path allowed to mutate document content,
//! append to the change log, or fan an operation out.
//!
//! A `Coordinator` value owns the store, the log and the registry, so Rust's
//! exclusive borrows serialize the whole load–validate–apply–persist
//! sequence per coordinator: two submissions can never interleave, and an
//! operation validated against stale content can never overwrite a newer
//! one. The surrounding runtime keeps one coordinator per process behind one
//! lock (or an actor loop) and may shard it per document for parallelism.

use vstd::prelude::*;
use crate::models::{Update, UpdateView};
use crate::ops;
use crate::ops::{ApplyError, OpView, Operation};
use crate::registry::{
    Session, SessionRegistry, SessionView, delivered_view, has_session, session_index, spec_leave,
    wf_registry,
};
use crate::store::{
    ChangeLog, DocRecord, DocRecordView, DocStore, LogEntryView, MAX_DOC_LEN, StoreError,
    doc_index, store_has, wf_store,
};

verus! {

/// Acknowledgement to the origin session: its operation is validated,
/// applied and durable, stamped with the server-assigned timestamp.
#[derive(PartialEq, Eq, Structural, Clone, Copy, Debug)]
pub struct Ack {
    pub timestamp: u64,
}

/// Everything a submission can fail with. Each is reported to the origin
/// session only; a failed submission mutates nothing and broadcasts
/// nothing.
#[derive(PartialEq, Eq, Structural, Clone, Copy, Debug)]
pub enum EditError {
    /// The target document is not stored. Fatal to a session attempt.
    DocumentNotFound,
    /// The operation failed validation against the current content; the
    /// session stays open.
    InvalidOperation(ApplyError),
    /// The new content could not be persisted; the client may retry.
    PersistenceFailed,
    /// The origin session is not registered and live; a session may not
    /// submit before it joined or after it began closing.
    SessionNotActive,
}

/// The collaborative-editing subsystem: authoritative store, audit log,
/// session registry, and the session-id allocator.
pub struct Coordinator {
    pub store: DocStore,
    pub log: ChangeLog,
    pub registry: SessionRegistry,
    pub next_session_id: u64,
}

/// A rejected submission leaves every part of the coordinator unchanged.
pub open spec fn submit_rejected(pre: Coordinator, post: Coordinator) -> bool {
    &&& post.store@ == pre.store@
    &&& post.log@ == pre.log@
    &&& post.registry@ == pre.registry@
    &&& post.next_session_id == pre.next_session_id
}

/// An accepted submission: the stored content advances by the operation
/// with a fresh timestamp, the finalized operation is appended to the log,
/// and it is delivered to every other live session of the document — never
/// echoed to the origin.
pub open spec fn submit_applied(
    pre: Coordinator,
    post: Coordinator,
    origin_session_id: u64,
    opv: OpView,
    now: u64,
) -> bool {
    let reg0 = pre.registry@;
    let origin = reg0[session_index(reg0, origin_session_id)];
    let st0 = pre.store@;
    let di = doc_index(st0, origin.document_id);
    let d = st0[di];
    let m = UpdateView { op: opv, from: origin.user_id, timestamp: now };
    &&& post.store@ == st0.update(
        di,
        DocRecordView {
            document_id: d.document_id,
            author_id: d.author_id,
            content: ops::spec_apply(d.content, opv),
            last_update: now,
        },
    )
    &&& post.log@ == pre.log@.push(
        LogEntryView { document_id: origin.document_id, update: m },
    )
    &&& post.registry@.len() == reg0.len()
    &&& forall|i: int|
        0 <= i < reg0.len() ==> delivered_view(
            reg0[i],
            #[trigger] post.registry@[i],
            origin.document_id,
            origin_session_id,
            m,
        )
    &&& post.next_session_id == pre.next_session_id
}

/// Law: an accepted submission reaches every other live session of the
/// document whose queue has room, and is never echoed back to the session
/// that submitted it.
pub proof fn lemma_submit_fanout(
    pre: Coordinator,
    post: Coordinator,
    origin_session_id: u64,
    opv: OpView,
    now: u64,
    i: int,
)
    requires
        submit_applied(pre, post, origin_session_id, opv, now),
        0 <= i < pre.registry@.len(),
    ensures
        ({
            let reg0 = pre.registry@;
            let origin = reg0[session_index(reg0, origin_session_id)];
            let m = UpdateView { op: opv, from: origin.user_id, timestamp: now };
            &&& reg0[i].session_id == origin_session_id ==> post.registry@[i].queue
                == reg0[i].queue
            &&& reg0[i].document_id == origin.document_id && reg0[i].live && reg0[i].session_id
                != origin_session_id && reg0[i].queue.len() < crate::registry::QUEUE_CAP
                ==> post.registry@[i].queue == reg0[i].queue.push(m)
        }),
{
    let reg0 = pre.registry@;
    let origin = reg0[session_index(reg0, origin_session_id)];
    let m = UpdateView { op: opv, from: origin.user_id, timestamp: now };
    assert(delivered_view(reg0[i], post.registry@[i], origin.document_id, origin_session_id, m));
}

/// Law: no effect is ever lost under serialization. Each accepted
/// submission moves the stored content from the exact content the previous
/// one left, so its length changes by exactly the operation's delta;
/// chained over any serialization order, the final length is the initial
/// length plus the algebraic sum of all deltas (see
/// [`ops::lemma_apply_all_length`]).
pub proof fn lemma_submit_delta(
    pre: Coordinator,
    post: Coordinator,
    origin_session_id: u64,
    opv: OpView,
    now: u64,
)
    requires
        has_session(pre.registry@, origin_session_id),
        store_has(
            pre.store@,
            pre.registry@[session_index(pre.registry@, origin_session_id)].document_id,
        ),
        ops::op_valid(
            pre.store@[doc_index(
                pre.store@,
                pre.registry@[session_index(pre.registry@, origin_session_id)].document_id,
            )].content,
            opv,
        ),
        submit_applied(pre, post, origin_session_id, opv, now),
    ensures
        ({
            let origin = pre.registry@[session_index(pre.registry@, origin_session_id)];
            let di = doc_index(pre.store@, origin.document_id);
            post.store@[di].content.len() == pre.store@[di].content.len() + ops::op_delta(opv)
        }),
{
    let origin = pre.registry@[session_index(pre.registry@, origin_session_id)];
    let di = doc_index(pre.store@, origin.document_id);
    ops::lemma_apply_length(pre.store@[di].content, opv);
}

/// Law: durability precedes broadcast and survives disconnection. Once a
/// submission is acknowledged the new content is the document's stored
/// truth, and it is still what the store holds after the origin session
/// leaves — so any session that joins later is handed content that already
/// reflects the operation.
pub proof fn lemma_ack_survives_disconnect(
    pre: Coordinator,
    post: Coordinator,
    after_close: Coordinator,
    origin_session_id: u64,
    opv: OpView,
    now: u64,
)
    requires
        has_session(pre.registry@, origin_session_id),
        store_has(
            pre.store@,
            pre.registry@[session_index(pre.registry@, origin_session_id)].document_id,
        ),
        submit_applied(pre, post, origin_session_id, opv, now),
        // what closing the origin session afterwards leaves behind
        after_close.store@ == post.store@,
        after_close.registry@ == spec_leave(post.registry@, origin_session_id),
    ensures
        ({
            let origin = pre.registry@[session_index(pre.registry@, origin_session_id)];
            let di = doc_index(pre.store@, origin.document_id);
            &&& after_close.store@[di].document_id == origin.document_id
            &&& after_close.store@[di].content == ops::spec_apply(pre.store@[di].content, opv)
            &&& after_close.store@[di].last_update == now
        }),
{
}

impl Coordinator {
    /// Everything the pipeline relies on: unique document ids, unique
    /// session ids, and every registered id below the allocator's next.
    pub open spec fn wf(&self) -> bool {
        &&& wf_store(self.store@)
        &&& wf_registry(self.registry@)
        &&& forall|i: int|
            0 <= i < self.registry@.len() ==> #[trigger] self.registry@[i].session_id
                < self.next_session_id
    }

    /// A fresh subsystem: no documents, no log entries, no sessions.
    pub fn new() -> (c: Coordinator)
        ensures
            c.wf(),
            c.store@ == Seq::<DocRecordView>::empty(),
            c.log@ == Seq::<LogEntryView>::empty(),
            c.registry@ == Seq::<SessionView>::empty(),
            c.next_session_id == 0,
    {
        Coordinator {
            store: DocStore::new(),
            log: ChangeLog::new(),
            registry: SessionRegistry::new(),
            next_session_id: 0,
        }
    }

    /// Admits a document into the authority (on creation, or when first
    /// loaded from durable storage). Sessions and the log are untouched.
    pub fn put_document(
        &mut self,
        document_id: u64,
        author_id: u64,
        content: Vec<char>,
        now: u64,
    ) -> (r: Result<(), StoreError>)
        requires
            old(self).wf(),
        ensures
            final(self).wf(),
            final(self).log@ == old(self).log@,
            final(self).registry@ == old(self).registry@,
            final(self).next_session_id == old(self).next_session_id,
            match r {
                Ok(()) => {
                    &&& !store_has(old(self).store@, document_id)
                    &&& content@.len() <= MAX_DOC_LEN
                    &&& final(self).store@ == old(self).store@.push(
                        DocRecordView { document_id, author_id, content: content@, last_update: now },
                    )
                },
                Err(StoreError::NotFound) => {
                    &&& store_has(old(self).store@, document_id)
                    &&& final(self).store@ == old(self).store@
                },
                Err(StoreError::TooLarge) => {
                    &&& !store_has(old(self).store@, document_id)
                    &&& content@.len() > MAX_DOC_LEN
                    &&& final(self).store@ == old(self).store@
                },
            },
    {
        self.store.put(DocRecord { document_id, author_id, content, last_update: now })
    }

    /// Opens a session of `user_id` on `document_id`: the session is
    /// registered — under a fresh id, derived authorship, live, with an
    /// empty queue — before the id is handed out, so no later broadcast can
    /// miss it. Fails exactly when the document is not stored.
    pub fn open_session(&mut self, document_id: u64, user_id: u64) -> (r: Result<u64, EditError>)
        requires
            old(self).wf(),
            old(self).next_session_id < u64::MAX,
        ensures
            final(self).wf(),
            final(self).store@ == old(self).store@,
            final(self).log@ == old(self).log@,
            match r {
                Ok(sid) => {
                    &&& store_has(old(self).store@, document_id)
                    &&& sid == old(self).next_session_id
                    &&& final(self).next_session_id == old(self).next_session_id + 1
                    &&& final(self).registry@ == old(self).registry@.push(
                        SessionView {
                            session_id: sid,
                            user_id,
                            document_id,
                            is_author: old(self).store@[doc_index(
                                old(self).store@,
                                document_id,
                            )].author_id == user_id,
                            live: true,
                            queue: Seq::<UpdateView>::empty(),
                        },
                    )
                },
                Err(e) => {
                    &&& e == EditError::DocumentNotFound
                    &&& !store_has(old(self).store@, document_id)
                    &&& final(self).registry@ == old(self).registry@
                    &&& final(self).next_session_id == old(self).next_session_id
                },
            },
    {
        match self.store.find(document_id) {
            None => Err(EditError::DocumentNotFound),
            Some(di) => {
                let sid = self.next_session_id;
                let is_author = self.store.docs[di].author_id == user_id;
                let s = Session::new(sid, user_id, document_id, is_author);
                proof {
                    assert(!has_session(self.registry@, sid));
                }
                self.registry.join(s);
                self.next_session_id = sid + 1;
                Ok(sid)
            },
        }
    }

    /// Submits one operation from a registered, live session: load current
    /// content, validate and apply, persist, append to the log, then fan
    /// out to every other live session of the document. On any failure
    /// nothing is mutated and nothing is broadcast; the error goes to the
    /// origin alone.
    pub fn submit(&mut self, origin_session_id: u64, op: Operation, now: u64) -> (r: Result<
        Ack,
        EditError,
    >)
        requires
            old(self).wf(),
        ensures
            final(self).wf(),
            ({
                let reg0 = old(self).registry@;
                if !has_session(reg0, origin_session_id) || !reg0[session_index(
                    reg0,
                    origin_session_id,
                )].live {
                    r == Err::<Ack, EditError>(EditError::SessionNotActive) && submit_rejected(
                        *old(self),
                        *final(self),
                    )
                } else {
                    let origin = reg0[session_index(reg0, origin_session_id)];
                    let st0 = old(self).store@;
                    if !store_has(st0, origin.document_id) {
                        r == Err::<Ack, EditError>(EditError::DocumentNotFound) && submit_rejected(
                            *old(self),
                            *final(self),
                        )
                    } else {
                        let d = st0[doc_index(st0, origin.document_id)];
                        if !ops::op_valid(d.content, op@) {
                            r == Err::<Ack, EditError>(
                                EditError::InvalidOperation(ApplyError::OutOfBounds),
                            ) && submit_rejected(*old(self), *final(self))
                        } else if ops::spec_apply(d.content, op@).len() > MAX_DOC_LEN {
                            r == Err::<Ack, EditError>(EditError::PersistenceFailed)
                                && submit_rejected(*old(self), *final(self))
                        } else {
                            r == Ok::<Ack, EditError>(Ack { timestamp: now }) && submit_applied(
                                *old(self),
                                *final(self),
                                origin_session_id,
                                op@,
                                now,
                            )
                        }
                    }
                }
            }),
    {
        let oi = match self.registry.find_session(origin_session_id) {
            None => {
                return Err(EditError::SessionNotActive);
            },
            Some(i) => i,
        };
        if !self.registry.sessions[oi].live {
            return Err(EditError::SessionNotActive);
        }
        let document_id = self.registry.sessions[oi].document_id;
        let from_user = self.registry.sessions[oi].user_id;
        let di = match self.store.find(document_id) {
            None => {
                return Err(EditError::DocumentNotFound);
            },
            Some(i) => i,
        };
        let new_content = match ops::apply(&self.store.docs[di].content, &op) {
            Ok(c) => c,
            Err(e) => {
                return Err(EditError::InvalidOperation(e));
            },
        };
        match self.store.save(document_id, new_content, now) {
            Ok(()) => {},
            Err(_) => {
                return Err(EditError::PersistenceFailed);
            },
        }
        let update = Update { op, from: from_user, timestamp: now };
        self.log.append(document_id, update.duplicate());
        self.registry.broadcast(document_id, origin_session_id, &update);
        Ok(Ack { timestamp: now })
    }

    /// Takes the oldest pending broadcast for this session, if any. The
    /// gateway's outbound task drains a session with this; a closing
    /// session may still drain its queue.
    pub fn receive(&mut self, session_id: u64) -> (r: Option<Update>)
        requires
            old(self).wf(),
        ensures
            final(self).wf(),
            final(self).store@ == old(self).store@,
            final(self).log@ == old(self).log@,
            final(self).next_session_id == old(self).next_session_id,
            !has_session(old(self).registry@, session_id) ==> r is None && final(self).registry@
                == old(self).registry@,
            has_session(old(self).registry@, session_id) ==> ({
                let i = session_index(old(self).registry@, session_id);
                let o = old(self).registry@[i];
                if o.queue.len() == 0 {
                    r is None && final(self).registry@ == old(self).registry@
                } else {
                    &&& r matches Some(u) && u@ == o.queue[0]
                    &&& final(self).registry@ == old(self).registry@.update(
                        i,
                        SessionView { queue: o.queue.drop_first(), ..o },
                    )
                }
            }),
    {
        let r = self.registry.receive(session_id);
        proof {
            if has_session(old(self).registry@, session_id) {
                let i = session_index(old(self).registry@, session_id);
                if old(self).registry@[i].queue.len() != 0 {
                    assert forall|k: int|
                        0 <= k < self.registry@.len() implies #[trigger] self.registry@[
                        k].session_id == old(self).registry@[k].session_id by {}
                }
            }
        }
        r
    }

    /// Begins closing a session: it stops being a broadcast target and may
    /// no longer submit, but stays registered so its queue can drain.
    /// Unknown ids are ignored.
    pub fn begin_close(&mut self, session_id: u64)
        requires
            old(self).wf(),
        ensures
            final(self).wf(),
            final(self).store@ == old(self).store@,
            final(self).log@ == old(self).log@,
            final(self).next_session_id == old(self).next_session_id,
            !has_session(old(self).registry@, session_id) ==> final(self).registry@ == old(
                self,
            ).registry@,
            has_session(old(self).registry@, session_id) ==> final(self).registry@ == old(
                self,
            ).registry@.update(
                session_index(old(self).registry@, session_id),
                SessionView {
                    live: false,
                    ..old(self).registry@[session_index(old(self).registry@, session_id)]
                },
            ),
    {
        let ghost orig = self.registry@;
        match self.registry.find_session(session_id) {
            None => {},
            Some(i) => {
                let s = &mut self.registry.sessions[i];
                let ghost s0 = *s;
                s.live = false;
                proof {
                    assert(s0@ == orig[i as int]);
                    assert(self.registry@ =~= orig.update(
                        i as int,
                        SessionView { live: false, ..orig[i as int] },
                    ));
                }
            },
        }
    }

    /// Removes a session from the registry; its undelivered queue is
    /// dropped. Idempotent: closing twice, or closing an id that never
    /// joined, changes nothing and touches no other session.
    pub fn close_session(&mut self, session_id: u64)
        requires
            old(self).wf(),
        ensures
            final(self).wf(),
            final(self).store@ == old(self).store@,
            final(self).log@ == old(self).log@,
            final(self).next_session_id == old(self).next_session_id,
            final(self).registry@ == spec_leave(old(self).registry@, session_id),
    {
        self.registry.leave(session_id);
        proof {
            let pred = |t: SessionView| t.session_id != session_id;
            assert forall|i: int|
                0 <= i < self.registry@.len() implies #[trigger] self.registry@[i].session_id
                < self.next_session_id by {
                crate::registry::lemma_filter_is_subset(old(self).registry@, pred, i);
                let w = choose|k: int|
                    0 <= k < old(self).registry@.len() && old(self).registry@[k] == self.registry@[
                    i];
                assert(old(self).registry@[w].session_id < old(self).next_session_id);
            }
        }
    }

    /// The live audience of `document_id`: its author and, in join order,
    /// the users whose sessions currently watch it.
    pub fn doc_state(&self, document_id: u64) -> (r: Option<crate::models::DocState>)
        requires
            self.wf(),
        ensures
            match r {
                Some(ds) => {
                    &&& store_has(self.store@, document_id)
                    &&& ds.author == self.store@[doc_index(self.store@, document_id)].author_id
                    &&& ds.users@ == crate::registry::spec_users(self.registry@, document_id)
                },
                None => !store_has(self.store@, document_id),
            },
    {
        match self.store.find(document_id) {
            None => None,
            Some(di) => {
                let author = self.store.docs[di].author_id;
                let users = self.registry.users_of(document_id);
                Some(crate::models::DocState::new(author, users))
            },
        }
    }

    /// An equal copy of the current content of `document_id` — what a late
    /// joiner is handed, already reflecting every acknowledged operation.
    pub fn load_content(&self, document_id: u64) -> (r: Option<Vec<char>>)
        requires
            self.wf(),
        ensures
            match r {
                Some(c) => {
                    &&& store_has(self.store@, document_id)
                    &&& c@ == self.store@[doc_index(self.store@, document_id)].content
                },
                None => !store_has(self.store@, document_id),
            },
    {
        self.store.load_content(document_id)
    }
}

} // verus!
