//! Plain data types shared with the unverified rim of the system: accounts,
//! login claims, document kinds, and the wire-level form of an edit.
//!
//! Identities (users, documents, sessions) are carried as plain `u64`
//! values; the storage layer owns whatever richer id format it prefers and
//! converts at the boundary.

use vstd::prelude::*;
use vstd::string::StrSliceExecFns;
use crate::ops::{OpView, Operation};

verus! {

/// How many seconds a freshly issued login token stays valid.
pub const TOKEN_TTL_SECS: u64 = 2592000;

/// Login credentials as the client submits them.
pub struct LoginUser {
    pub email: String,
    pub password: String,
}

/// A stored user account.
pub struct User {
    pub id: Option<u64>,
    pub name: String,
    pub email: String,
    pub password: String,
    pub doc_count: Option<usize>,
}

/// Why a login attempt was refused.
#[derive(PartialEq, Eq, Structural, Clone, Copy, Debug)]
pub enum AuthError {
    UserNotFound,
    IncorrectPassword,
}

/// The decision at the heart of login: `found` is what the account lookup
/// by e-mail address returned, and the attempt succeeds exactly when an
/// account was found and its password equals the submitted one.
pub fn authenticate(found: Option<User>, login: &LoginUser) -> (r: Result<User, AuthError>)
    ensures
        match r {
            Ok(u) => found matches Some(f) && u == f && f.password@ == login.password@,
            Err(AuthError::UserNotFound) => found is None,
            Err(AuthError::IncorrectPassword) => found matches Some(f) && f.password@
                != login.password@,
        },
{
    match found {
        None => Err(AuthError::UserNotFound),
        Some(u) => {
            if u.password == login.password {
                Ok(u)
            } else {
                Err(AuthError::IncorrectPassword)
            }
        },
    }
}

/// Claims carried by a login session token.
pub struct Claims {
    pub sub: String,
    pub exp: u64,
}

impl Claims {
    pub fn new(sub: String, exp: u64) -> (c: Self)
        ensures
            c.sub == sub,
            c.exp == exp,
    {
        Claims { sub, exp }
    }

    /// The claims issued on a successful login: they expire one token
    /// lifetime after `now_secs`.
    pub fn for_login(sub: String, now_secs: u64) -> (c: Self)
        requires
            now_secs <= u64::MAX - TOKEN_TTL_SECS,
        ensures
            c.sub == sub,
            c.exp == now_secs + TOKEN_TTL_SECS,
    {
        Claims { sub, exp: now_secs + TOKEN_TTL_SECS }
    }
}

/// The token part of a session cookie header: everything after the first
/// `=`, or nothing when the header has no `=` at all. Offsets here, as
/// everywhere in this crate, count characters.
pub fn cookie_token(header: &str) -> (r: Option<String>)
    ensures
        match r {
            Some(t) => exists|i: int|
                {
                    &&& 0 <= i < header@.len()
                    &&& header@[i] == '='
                    &&& (forall|j: int| 0 <= j < i ==> header@[j] != '=')
                    &&& t@ == header@.skip(i + 1)
                },
            None => forall|i: int| 0 <= i < header@.len() ==> header@[i] != '=',
        },
{
    let n: usize = header.unicode_len();
    let mut i: usize = 0;
    while i < n
        invariant
            n == header@.len(),
            i <= n,
            forall|j: int| 0 <= j < i ==> header@[j] != '=',
        decreases n - i,
    {
        if header.get_char(i) == '=' {
            let rest = header.substring_char(i + 1, n);
            let token = rest.to_owned();
            proof {
                assert(token@ == header@.skip(i + 1 as int));
            }
            return Some(token);
        }
        i = i + 1;
    }
    None
}

/// Kinds of document a client can create.
#[derive(PartialEq, Eq, Structural, Clone, Copy, Debug)]
pub enum DocType {
    Blank,
    MeetingDocs,
    DataTable,
    Essay,
}

/// Wire-level form of one edit, as the client names it. The offset it acts
/// at travels beside it as a separate `position` field.
pub enum UpdateType {
    Insert { data: String },
    Delete { length: usize },
}

/// The core operation that a wire-level edit at `position` denotes. The
/// payload of an insert is re-measured in characters here, so the rest of
/// the crate never sees byte offsets.
pub fn operation_of(position: usize, update_type: &UpdateType) -> (r: Operation)
    ensures
        r@ == match update_type {
            UpdateType::Insert { data } => OpView::Insert {
                offset: position as int,
                data: data@,
            },
            UpdateType::Delete { length } => OpView::Delete {
                offset: position as int,
                length: *length as int,
            },
        },
{
    match update_type {
        UpdateType::Insert { data } => {
            let n: usize = data.as_str().unicode_len();
            let mut chars: Vec<char> = Vec::new();
            let mut i: usize = 0;
            while i < n
                invariant
                    n == data@.len(),
                    i <= n,
                    chars@ == data@.take(i as int),
                decreases n - i,
            {
                chars.push(data.as_str().get_char(i));
                proof {
                    assert(chars@ =~= data@.take(i + 1 as int));
                }
                i = i + 1;
            }
            proof {
                assert(chars@ =~= data@);
            }
            Operation::Insert { offset: position, data: chars }
        },
        UpdateType::Delete { length } => Operation::Delete { offset: position, length: *length },
    }
}

/// Snapshot of one document's live audience: its author and the users
/// whose sessions currently watch it.
pub struct DocState {
    pub author: u64,
    pub users: Vec<u64>,
}

impl DocState {
    pub fn new(author: u64, users: Vec<u64>) -> (s: DocState)
        ensures
            s.author == author,
            s.users == users,
    {
        DocState { author, users }
    }
}

/// One finalized edit as recorded and broadcast: the operation together
/// with the origin user and timestamp the coordinator assigned (both are
/// server-side facts, never trusted from the client).
pub struct Update {
    pub op: Operation,
    pub from: u64,
    pub timestamp: u64,
}

/// Mathematical form of an [`Update`].
pub struct UpdateView {
    pub op: OpView,
    pub from: u64,
    pub timestamp: u64,
}

impl View for Update {
    type V = UpdateView;

    open spec fn view(&self) -> UpdateView {
        UpdateView { op: self.op@, from: self.from, timestamp: self.timestamp }
    }
}

impl Update {
    /// An equal copy, for fan-out to several recipients.
    pub fn duplicate(&self) -> (r: Update)
        ensures
            r@ == self@,
    {
        Update { op: self.op.duplicate(), from: self.from, timestamp: self.timestamp }
    }
}

} // verus!
