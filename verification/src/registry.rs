//! The session registry: the process-wide table of live sessions grouped by
//! document, owning broadcast fan-out and each session's bounded outbound
//! queue.
//!
//! Overflow policy: a session's outbound queue holds at most [`QUEUE_CAP`]
//! messages; a broadcast to a session whose queue is full is dropped for
//! that session alone (reject-newest). This keeps a slow or dead peer from
//! ever blocking the broadcaster or the other recipients.

use vstd::prelude::*;
use crate::models::{Update, UpdateView};

verus! {

/// Bound on each session's outbound queue.
pub const QUEUE_CAP: usize = 128;

/// One live connection of one user to one open document.
pub struct Session {
    pub session_id: u64,
    pub user_id: u64,
    pub document_id: u64,
    pub is_author: bool,
    pub live: bool,
    pub queue: Vec<Update>,
}

/// Mathematical form of a [`Session`].
#[verifier::ext_equal]
pub struct SessionView {
    pub session_id: u64,
    pub user_id: u64,
    pub document_id: u64,
    pub is_author: bool,
    pub live: bool,
    pub queue: Seq<UpdateView>,
}

impl View for Session {
    type V = SessionView;

    open spec fn view(&self) -> SessionView {
        SessionView {
            session_id: self.session_id,
            user_id: self.user_id,
            document_id: self.document_id,
            is_author: self.is_author,
            live: self.live,
            queue: self.queue@.map_values(|u: Update| u@),
        }
    }
}

impl Session {
    /// A freshly opened session: live, with an empty outbound queue.
    pub fn new(session_id: u64, user_id: u64, document_id: u64, is_author: bool) -> (s: Session)
        ensures
            s@ == (SessionView {
                session_id,
                user_id,
                document_id,
                is_author,
                live: true,
                queue: Seq::<UpdateView>::empty(),
            }),
    {
        let s = Session {
            session_id,
            user_id,
            document_id,
            is_author,
            live: true,
            queue: Vec::new(),
        };
        proof {
            assert(s.queue@.map_values(|u: Update| u@) =~= Seq::<UpdateView>::empty());
        }
        s
    }
}

/// No two sessions share a session id; hence a session is registered under
/// at most one entry at a time.
pub open spec fn wf_registry(reg: Seq<SessionView>) -> bool {
    forall|i: int, j: int|
        #![trigger reg[i].session_id, reg[j].session_id]
        0 <= i < j < reg.len() ==> reg[i].session_id != reg[j].session_id
}

/// Whether a session with this id is registered.
pub open spec fn has_session(reg: Seq<SessionView>, session_id: u64) -> bool {
    exists|i: int| 0 <= i < reg.len() && reg[i].session_id == session_id
}

/// The index of the session with this id (meaningful when present).
pub open spec fn session_index(reg: Seq<SessionView>, session_id: u64) -> int {
    choose|i: int| 0 <= i < reg.len() && reg[i].session_id == session_id
}

/// The registry after a session leaves: every session with that id is gone
/// and nothing else changed.
pub open spec fn spec_leave(reg: Seq<SessionView>, session_id: u64) -> Seq<SessionView> {
    reg.filter(|s: SessionView| s.session_id != session_id)
}

/// Whether a broadcast on `document_id` that excludes `exclude_session_id`
/// is delivered to a session: it must watch that document, be live, and not
/// be the origin.
pub open spec fn should_deliver(s: SessionView, document_id: u64, exclude_session_id: u64) -> bool {
    s.document_id == document_id && s.session_id != exclude_session_id && s.live
}

/// A queue after an enqueue attempt under the reject-newest overflow policy.
pub open spec fn spec_enqueue(q: Seq<UpdateView>, m: UpdateView) -> Seq<UpdateView> {
    if q.len() < QUEUE_CAP {
        q.push(m)
    } else {
        q
    }
}

/// How one session looks after a broadcast: identity, document, authorship
/// and liveness untouched; the message appended to its queue exactly when
/// the session is a delivery target (and its queue has room).
pub open spec fn delivered_view(
    o: SessionView,
    n: SessionView,
    document_id: u64,
    exclude_session_id: u64,
    m: UpdateView,
) -> bool {
    &&& n.session_id == o.session_id
    &&& n.user_id == o.user_id
    &&& n.document_id == o.document_id
    &&& n.is_author == o.is_author
    &&& n.live == o.live
    &&& n.queue == if should_deliver(o, document_id, exclude_session_id) {
        spec_enqueue(o.queue, m)
    } else {
        o.queue
    }
}

/// Filtering keeps a sequence in which every element satisfies the
/// predicate unchanged.
proof fn lemma_filter_keeps_all<A>(s: Seq<A>, pred: spec_fn(A) -> bool)
    requires
        forall|i: int| 0 <= i < s.len() ==> pred(#[trigger] s[i]),
    ensures
        s.filter(pred) == s,
    decreases s.len(),
{
    reveal(Seq::filter);
    if s.len() > 0 {
        lemma_filter_keeps_all(s.drop_last(), pred);
        assert(pred(s.last()));
        assert(s.filter(pred) =~= s);
    } else {
        assert(s.filter(pred) =~= s);
    }
}

/// Filtering a one-element sequence whose element fails the predicate
/// yields the empty sequence.
proof fn lemma_filter_drops_single<A>(s: Seq<A>, pred: spec_fn(A) -> bool)
    requires
        s.len() == 1,
        !pred(s[0]),
    ensures
        s.filter(pred) == Seq::<A>::empty(),
{
    reveal_with_fuel(Seq::filter, 2);
    assert(s.drop_last().len() == 0);
    assert(s.filter(pred) =~= Seq::<A>::empty());
}

/// Every element of a filtered sequence comes from the original sequence.
pub proof fn lemma_filter_is_subset<A>(s: Seq<A>, pred: spec_fn(A) -> bool, i: int)
    requires
        0 <= i < s.filter(pred).len(),
    ensures
        s.contains(s.filter(pred)[i]),
    decreases s.len(),
{
    reveal(Seq::filter);
    if s.len() > 0 {
        let f = s.filter(pred);
        let fd = s.drop_last().filter(pred);
        if pred(s.last()) && i == fd.len() {
            assert(f[i] == s.last());
            assert(s[s.len() - 1] == s.last());
        } else {
            lemma_filter_is_subset(s.drop_last(), pred, i);
            let k = choose|k: int| 0 <= k < s.drop_last().len() && s.drop_last()[k] == fd[i];
            assert(s[k] == fd[i]);
        }
    }
}

/// The registry of live sessions.
pub struct SessionRegistry {
    pub sessions: Vec<Session>,
}

impl View for SessionRegistry {
    type V = Seq<SessionView>;

    open spec fn view(&self) -> Seq<SessionView> {
        self.sessions@.map_values(|s: Session| s@)
    }
}

impl SessionRegistry {
    pub fn new() -> (r: SessionRegistry)
        ensures
            r@ == Seq::<SessionView>::empty(),
            wf_registry(r@),
    {
        let r = SessionRegistry { sessions: Vec::new() };
        proof {
            assert(r@ =~= Seq::<SessionView>::empty());
        }
        r
    }

    /// The position of the session with this id, scanning in join order.
    pub fn find_session(&self, session_id: u64) -> (r: Option<usize>)
        requires
            wf_registry(self@),
        ensures
            match r {
                Some(i) => {
                    &&& i < self@.len()
                    &&& self@[i as int].session_id == session_id
                    &&& i as int == session_index(self@, session_id)
                    &&& has_session(self@, session_id)
                },
                None => !has_session(self@, session_id),
            },
    {
        let mut i: usize = 0;
        while i < self.sessions.len()
            invariant
                wf_registry(self@),
                i <= self@.len(),
                forall|j: int| 0 <= j < i ==> self@[j].session_id != session_id,
            decreases self@.len() - i,
        {
            if self.sessions[i].session_id == session_id {
                proof {
                    assert(self@[i as int].session_id == session_id);
                    assert(has_session(self@, session_id));
                    let w = session_index(self@, session_id);
                    assert(0 <= w < self@.len() && self@[w].session_id == session_id);
                    assert(w == i as int);
                }
                return Some(i);
            }
            i = i + 1;
        }
        None
    }

    /// Registers a session. The caller (the coordinator) supplies a fresh
    /// id; a session must be registered before it may submit, so that no
    /// racing peer's broadcast can miss it.
    pub fn join(&mut self, s: Session)
        requires
            wf_registry(old(self)@),
            !has_session(old(self)@, s.session_id),
        ensures
            final(self)@ == old(self)@.push(s@),
            wf_registry(final(self)@),
    {
        let ghost pre = self@;
        let ghost sv = s@;
        self.sessions.push(s);
        proof {
            assert(self@ =~= pre.push(sv));
            assert forall|i: int, j: int| 0 <= i < j < self@.len() implies self@[i].session_id
                != self@[j].session_id by {
                if j < pre.len() {
                } else {
                    assert(self@[j] == sv);
                    if self@[i].session_id == sv.session_id {
                        assert(has_session(pre, sv.session_id));
                    }
                }
            }
        }
    }

    /// Unregisters the session with this id. Idempotent: leaving twice, or
    /// leaving a session that never joined, changes nothing and never
    /// touches an unrelated session.
    pub fn leave(&mut self, session_id: u64)
        requires
            wf_registry(old(self)@),
        ensures
            final(self)@ == spec_leave(old(self)@, session_id),
            wf_registry(final(self)@),
    {
        let ghost pred = |t: SessionView| t.session_id != session_id;
        let ghost orig = self@;
        match self.find_session(session_id) {
            None => {
                proof {
                    lemma_filter_keeps_all(orig, pred);
                }
            },
            Some(i) => {
                self.sessions.remove(i);
                proof {
                    let a = orig.take(i as int);
                    let b = orig.subrange(i as int, i + 1 as int);
                    let c = orig.skip(i + 1 as int);
                    assert(orig =~= (a + b) + c);
                    Seq::<SessionView>::filter_distributes_over_add(a + b, c, pred);
                    Seq::<SessionView>::filter_distributes_over_add(a, b, pred);
                    assert(forall|k: int| 0 <= k < a.len() ==> #[trigger] pred(a[k]));
                    lemma_filter_keeps_all(a, pred);
                    assert forall|k: int| 0 <= k < c.len() implies #[trigger] pred(c[k]) by {
                        assert(c[k] == orig[i + 1 + k]);
                        assert(orig[i as int].session_id != orig[i + 1 + k].session_id);
                    }
                    lemma_filter_keeps_all(c, pred);
                    assert(b.len() == 1 && b[0] == orig[i as int]);
                    lemma_filter_drops_single(b, pred);
                    assert(orig.filter(pred) == a + Seq::<SessionView>::empty() + c);
                    assert(self@ =~= a + Seq::<SessionView>::empty() + c);
                }
            },
        }
    }

    /// Delivers `message` to every live session of `document_id` except the
    /// one named `exclude_session_id`. A session whose queue is full is
    /// skipped in isolation; nothing else about any session changes, and no
    /// session joins or leaves.
    pub fn broadcast(&mut self, document_id: u64, exclude_session_id: u64, message: &Update)
        requires
            wf_registry(old(self)@),
        ensures
            final(self)@.len() == old(self)@.len(),
            forall|i: int|
                0 <= i < old(self)@.len() ==> delivered_view(
                    old(self)@[i],
                    #[trigger] final(self)@[i],
                    document_id,
                    exclude_session_id,
                    message@,
                ),
            wf_registry(final(self)@),
    {
        let ghost orig = self@;
        let ghost mv = message@;
        let n: usize = self.sessions.len();
        let mut i: usize = 0;
        while i < n
            invariant
                n == self.sessions@.len(),
                orig.len() == n,
                i <= n,
                forall|j: int|
                    0 <= j < i ==> delivered_view(
                        orig[j],
                        #[trigger] self@[j],
                        document_id,
                        exclude_session_id,
                        mv,
                    ),
                forall|j: int| i <= j < n ==> #[trigger] self@[j] == orig[j],
                mv == message@,
            decreases n - i,
        {
            let ghost prev = self@;
            let s = &mut self.sessions[i];
            let ghost s0 = *s;
            if s.document_id == document_id && s.session_id != exclude_session_id && s.live {
                if s.queue.len() < QUEUE_CAP {
                    s.queue.push(message.duplicate());
                }
            }
            proof {
                assert(prev[i as int] == orig[i as int]);
                assert(s0@ == orig[i as int]);
                assert(self@[i as int].queue =~= if should_deliver(
                    orig[i as int],
                    document_id,
                    exclude_session_id,
                ) {
                    spec_enqueue(orig[i as int].queue, mv)
                } else {
                    orig[i as int].queue
                });
                assert(delivered_view(
                    orig[i as int],
                    self@[i as int],
                    document_id,
                    exclude_session_id,
                    mv,
                ));
                assert forall|j: int| 0 <= j < n && j != i implies #[trigger] self@[j]
                    == prev[j] by {
                }
            }
            i = i + 1;
        }
        proof {
            assert forall|i2: int, j2: int| 0 <= i2 < j2 < self@.len() implies self@[i2].session_id
                != self@[j2].session_id by {
                assert(delivered_view(orig[i2], self@[i2], document_id, exclude_session_id, mv));
                assert(delivered_view(orig[j2], self@[j2], document_id, exclude_session_id, mv));
            }
        }
    }

    /// Takes the oldest queued message of the session with this id, if the
    /// session exists and has one; nothing else about the registry changes.
    pub fn receive(&mut self, session_id: u64) -> (r: Option<Update>)
        requires
            wf_registry(old(self)@),
        ensures
            wf_registry(final(self)@),
            !has_session(old(self)@, session_id) ==> r is None && final(self)@ == old(self)@,
            has_session(old(self)@, session_id) ==> ({
                let i = session_index(old(self)@, session_id);
                let o = old(self)@[i];
                if o.queue.len() == 0 {
                    r is None && final(self)@ == old(self)@
                } else {
                    &&& r matches Some(u) && u@ == o.queue[0]
                    &&& final(self)@ == old(self)@.update(
                        i,
                        SessionView { queue: o.queue.drop_first(), ..o },
                    )
                }
            }),
    {
        let ghost orig = self@;
        match self.find_session(session_id) {
            None => None,
            Some(i) => {
                let s = &mut self.sessions[i];
                let ghost s0 = *s;
                if s.queue.len() == 0 {
                    proof {
                        assert(self@ =~= orig);
                    }
                    None
                } else {
                    let u = s.queue.remove(0);
                    proof {
                        assert(s0@ == orig[i as int]);
                        assert(u@ == orig[i as int].queue[0]);
                        assert(self@[i as int].queue =~= orig[i as int].queue.drop_first());
                        assert(self@ =~= orig.update(
                            i as int,
                            SessionView { queue: orig[i as int].queue.drop_first(), ..orig[
                                i as int] },
                        ));
                        assert forall|i2: int, j2: int|
                            0 <= i2 < j2 < self@.len() implies self@[i2].session_id
                            != self@[j2].session_id by {
                            assert(orig[i2].session_id != orig[j2].session_id);
                        }
                    }
                    Some(u)
                }
            },
        }
    }
}

/// The sessions a watcher query keeps: live ones on this document.
pub open spec fn watching(document_id: u64) -> spec_fn(SessionView) -> bool {
    |s: SessionView| s.document_id == document_id && s.live
}

/// The user ids of the live sessions of `document_id`, in join order.
pub open spec fn spec_users(reg: Seq<SessionView>, document_id: u64) -> Seq<u64> {
    reg.filter(watching(document_id)).map_values(|s: SessionView| s.user_id)
}

impl SessionRegistry {
    /// Lists who is currently watching `document_id`, in join order.
    pub fn users_of(&self, document_id: u64) -> (r: Vec<u64>)
        ensures
            r@ == spec_users(self@, document_id),
    {
        let mut out: Vec<u64> = Vec::new();
        let mut i: usize = 0;
        while i < self.sessions.len()
            invariant
                i <= self@.len(),
                out@ == spec_users(self@.take(i as int), document_id),
            decreases self@.len() - i,
        {
            let s = &self.sessions[i];
            let keep = s.live && s.document_id == document_id;
            if keep {
                out.push(s.user_id);
            }
            proof {
                let pred = watching(document_id);
                let a = self@.take(i as int);
                let b = self@.subrange(i as int, i + 1 as int);
                assert(self@.take(i + 1 as int) =~= a + b);
                Seq::<SessionView>::filter_distributes_over_add(a, b, pred);
                assert(self@[i as int] == self.sessions@[i as int]@);
                assert(self@[i as int].live == s.live);
                assert(self@[i as int].document_id == s.document_id);
                assert(self@[i as int].user_id == s.user_id);
                assert(b[0] == self@[i as int]);
                if keep {
                    lemma_filter_keeps_all(b, pred);
                    assert(out@ =~= spec_users(self@.take(i + 1 as int), document_id));
                } else {
                    lemma_filter_drops_single(b, pred);
                    assert(out@ =~= spec_users(self@.take(i + 1 as int), document_id));
                }
            }
            i = i + 1;
        }
        proof {
            assert(self@.take(self@.len() as int) =~= self@);
        }
        out
    }
}

/// Law: a broadcast is never echoed to its origin, and reaches every other
/// live session of the document whose queue has room.
pub proof fn lemma_broadcast_excludes_origin(
    o: SessionView,
    n: SessionView,
    document_id: u64,
    origin_session_id: u64,
    m: UpdateView,
)
    requires
        delivered_view(o, n, document_id, origin_session_id, m),
    ensures
        o.session_id == origin_session_id ==> n.queue == o.queue,
        o.document_id == document_id && o.live && o.session_id != origin_session_id
            && o.queue.len() < QUEUE_CAP ==> n.queue == o.queue.push(m),
{
}

/// Law: leaving is idempotent — a second leave with the same id changes
/// nothing — and every unrelated session survives a leave untouched.
pub proof fn lemma_leave_idempotent(reg: Seq<SessionView>, session_id: u64)
    ensures
        spec_leave(spec_leave(reg, session_id), session_id) == spec_leave(reg, session_id),
        forall|i: int|
            0 <= i < reg.len() && reg[i].session_id != session_id ==> spec_leave(
                reg,
                session_id,
            ).contains(#[trigger] reg[i]),
        forall|j: int|
            0 <= j < spec_leave(reg, session_id).len() ==> #[trigger] spec_leave(
                reg,
                session_id,
            )[j].session_id != session_id,
{
    let pred = |t: SessionView| t.session_id != session_id;
    let once = reg.filter(pred);
    broadcast use Seq::lemma_filter_pred;
    broadcast use Seq::lemma_filter_contains;

    lemma_filter_keeps_all(once, pred);
}

} // verus!
