//! Core logic of an incremental media archiver for a paginated social feed.
//!
//! The crate verifies the parts with real state-machine and failure-handling
//! behaviour: the exponential backoff policy, the cursor checkpoint codec, the
//! cursor-based pagination walker, the identifier-keyed dedup store, and the
//! idempotent archive step.  Network and filesystem plumbing live outside the
//! library and drive these state machines through plain values.

pub mod archive;
pub mod backoff;
pub mod bluesky;
pub mod checkpoint;
pub mod database;
pub mod text;
