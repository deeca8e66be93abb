//! In-memory authority for document content and the append-only change log.
//!
//! The coordinator serializes every edit through this store, so its content
//! invariant (§ the store holds the last successfully applied state) is kept
//! by construction. A durable mirror, if any, is written behind it by
//! unverified glue and is never read back on the live path.

use vstd::prelude::*;
use crate::models::{Update, UpdateView};

verus! {

/// The largest content, in characters, the store accepts for one document.
/// A save that would exceed it is refused, which the coordinator reports as
/// a persistence failure; nothing is ever silently truncated.
pub const MAX_DOC_LEN: usize = 1048576;

/// One stored document: identity, authorship, the authoritative content,
/// and the timestamp of the last applied edit.
pub struct DocRecord {
    pub document_id: u64,
    pub author_id: u64,
    pub content: Vec<char>,
    pub last_update: u64,
}

/// Mathematical form of a [`DocRecord`].
pub struct DocRecordView {
    pub document_id: u64,
    pub author_id: u64,
    pub content: Seq<char>,
    pub last_update: u64,
}

impl View for DocRecord {
    type V = DocRecordView;

    open spec fn view(&self) -> DocRecordView {
        DocRecordView {
            document_id: self.document_id,
            author_id: self.author_id,
            content: self.content@,
            last_update: self.last_update,
        }
    }
}

/// No two records share a document id.
pub open spec fn wf_store(docs: Seq<DocRecordView>) -> bool {
    forall|i: int, j: int|
        #![trigger docs[i].document_id, docs[j].document_id]
        0 <= i < j < docs.len() ==> docs[i].document_id != docs[j].document_id
}

/// Whether the store holds a record for `document_id`.
pub open spec fn store_has(docs: Seq<DocRecordView>, document_id: u64) -> bool {
    exists|i: int| 0 <= i < docs.len() && docs[i].document_id == document_id
}

/// The index of the record for `document_id` (meaningful when present).
pub open spec fn doc_index(docs: Seq<DocRecordView>, document_id: u64) -> int {
    choose|i: int| 0 <= i < docs.len() && docs[i].document_id == document_id
}

/// Why a save was refused.
#[derive(PartialEq, Eq, Structural, Clone, Copy, Debug)]
pub enum StoreError {
    /// No record exists for the addressed document.
    NotFound,
    /// The new content would exceed [`MAX_DOC_LEN`].
    TooLarge,
}

/// The table of stored documents.
pub struct DocStore {
    pub docs: Vec<DocRecord>,
}

impl View for DocStore {
    type V = Seq<DocRecordView>;

    open spec fn view(&self) -> Seq<DocRecordView> {
        self.docs@.map_values(|d: DocRecord| d@)
    }
}

impl DocStore {
    pub fn new() -> (s: DocStore)
        ensures
            s@ == Seq::<DocRecordView>::empty(),
    {
        let s = DocStore { docs: Vec::new() };
        proof {
            assert(s@ =~= Seq::<DocRecordView>::empty());
        }
        s
    }

    /// The position of the record for `document_id`, scanning in order.
    pub fn find(&self, document_id: u64) -> (r: Option<usize>)
        requires
            wf_store(self@),
        ensures
            match r {
                Some(i) => {
                    &&& i < self@.len()
                    &&& self@[i as int].document_id == document_id
                    &&& i as int == doc_index(self@, document_id)
                    &&& store_has(self@, document_id)
                },
                None => !store_has(self@, document_id),
            },
    {
        let mut i: usize = 0;
        while i < self.docs.len()
            invariant
                wf_store(self@),
                i <= self@.len(),
                forall|j: int| 0 <= j < i ==> self@[j].document_id != document_id,
            decreases self@.len() - i,
        {
            if self.docs[i].document_id == document_id {
                proof {
                    assert(self@[i as int].document_id == document_id);
                    assert(store_has(self@, document_id));
                    let w = doc_index(self@, document_id);
                    assert(0 <= w < self@.len() && self@[w].document_id == document_id);
                    assert(w == i as int);
                }
                return Some(i);
            }
            i = i + 1;
        }
        None
    }

    /// Registers a new document. Refused when the id is already taken or
    /// the content is over the store's size cap; nothing changes then.
    pub fn put(&mut self, rec: DocRecord) -> (r: Result<(), StoreError>)
        requires
            wf_store(old(self)@),
        ensures
            wf_store(final(self)@),
            match r {
                Ok(()) => {
                    &&& !store_has(old(self)@, rec.document_id)
                    &&& rec.content@.len() <= MAX_DOC_LEN
                    &&& final(self)@ == old(self)@.push(rec@)
                },
                Err(StoreError::NotFound) => {
                    &&& store_has(old(self)@, rec.document_id)
                    &&& final(self)@ == old(self)@
                },
                Err(StoreError::TooLarge) => {
                    &&& !store_has(old(self)@, rec.document_id)
                    &&& rec.content@.len() > MAX_DOC_LEN
                    &&& final(self)@ == old(self)@
                },
            },
    {
        match self.find(rec.document_id) {
            Some(_) => Err(StoreError::NotFound),
            None => {
                if rec.content.len() > MAX_DOC_LEN {
                    return Err(StoreError::TooLarge);
                }
                let ghost pre = self@;
                let ghost recv = rec@;
                self.docs.push(rec);
                proof {
                    assert(self@ =~= pre.push(recv));
                }
                Ok(())
            },
        }
    }

    /// Replaces the content of `document_id` and refreshes its last-update
    /// timestamp, exactly when the document exists and the new content fits.
    pub fn save(&mut self, document_id: u64, content: Vec<char>, timestamp: u64) -> (r: Result<
        (),
        StoreError,
    >)
        requires
            wf_store(old(self)@),
        ensures
            wf_store(final(self)@),
            match r {
                Ok(()) => {
                    &&& store_has(old(self)@, document_id)
                    &&& content@.len() <= MAX_DOC_LEN
                    &&& final(self)@ == old(self)@.update(
                        doc_index(old(self)@, document_id),
                        DocRecordView {
                            document_id,
                            author_id: old(self)@[doc_index(old(self)@, document_id)].author_id,
                            content: content@,
                            last_update: timestamp,
                        },
                    )
                },
                Err(StoreError::NotFound) => {
                    &&& !store_has(old(self)@, document_id)
                    &&& final(self)@ == old(self)@
                },
                Err(StoreError::TooLarge) => {
                    &&& store_has(old(self)@, document_id)
                    &&& content@.len() > MAX_DOC_LEN
                    &&& final(self)@ == old(self)@
                },
            },
    {
        match self.find(document_id) {
            None => Err(StoreError::NotFound),
            Some(i) => {
                if content.len() > MAX_DOC_LEN {
                    return Err(StoreError::TooLarge);
                }
                let ghost pre = self@;
                let ghost cv = content@;
                let rec = &mut self.docs[i];
                rec.content = content;
                rec.last_update = timestamp;
                proof {
                    assert(self@ =~= pre.update(
                        i as int,
                        DocRecordView {
                            document_id,
                            author_id: pre[i as int].author_id,
                            content: cv,
                            last_update: timestamp,
                        },
                    ));
                    assert(wf_store(self@));
                }
                Ok(())
            },
        }
    }

    /// An equal copy of the content of `document_id`, if it is stored.
    pub fn load_content(&self, document_id: u64) -> (r: Option<Vec<char>>)
        requires
            wf_store(self@),
        ensures
            match r {
                Some(c) => {
                    &&& store_has(self@, document_id)
                    &&& c@ == self@[doc_index(self@, document_id)].content
                },
                None => !store_has(self@, document_id),
            },
    {
        match self.find(document_id) {
            None => None,
            Some(i) => Some(crate::ops::copy_chars(&self.docs[i].content)),
        }
    }
}

/// One record of the append-only change log.
pub struct LogEntry {
    pub document_id: u64,
    pub update: Update,
}

/// Mathematical form of a [`LogEntry`].
pub struct LogEntryView {
    pub document_id: u64,
    pub update: UpdateView,
}

impl View for LogEntry {
    type V = LogEntryView;

    open spec fn view(&self) -> LogEntryView {
        LogEntryView { document_id: self.document_id, update: self.update@ }
    }
}

/// Durable record of applied operations, for audit and replay. Entries are
/// only ever appended, never rewritten or dropped, and the live path never
/// reads them back.
pub struct ChangeLog {
    pub entries: Vec<LogEntry>,
}

impl View for ChangeLog {
    type V = Seq<LogEntryView>;

    open spec fn view(&self) -> Seq<LogEntryView> {
        self.entries@.map_values(|e: LogEntry| e@)
    }
}

impl ChangeLog {
    pub fn new() -> (l: ChangeLog)
        ensures
            l@ == Seq::<LogEntryView>::empty(),
    {
        let l = ChangeLog { entries: Vec::new() };
        proof {
            assert(l@ =~= Seq::<LogEntryView>::empty());
        }
        l
    }

    /// Appends one applied operation.
    pub fn append(&mut self, document_id: u64, update: Update)
        ensures
            final(self)@ == old(self)@.push(LogEntryView { document_id, update: update@ }),
    {
        let ghost pre = self@;
        let ghost uv = update@;
        self.entries.push(LogEntry { document_id, update });
        proof {
            assert(self@ =~= pre.push(LogEntryView { document_id, update: uv }));
        }
    }
}

} // verus!
