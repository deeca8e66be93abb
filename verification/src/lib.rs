//! Verified core of a collaborative text-document editor backend.
//!
//! Documents hold a single text body addressed by character (code point)
//! offset. Connected sessions edit a document through insert and delete
//! operations; the coordinator validates each operation against the current
//! content, applies it, records it in an append-only change log, and fans the
//! finalized operation out to every other live session of the same document.

pub mod coordinator;
pub mod lifecycle;
pub mod models;
pub mod ops;
pub mod registry;
pub mod store;
pub mod wire;
