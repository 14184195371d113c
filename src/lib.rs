//! Storage and lifecycle core of an ephemeral file-drop service: retention
//! policy, metadata records, identifier assignment, upload validation and
//! garbage collection.
pub mod expiry;
pub mod records;
pub mod ingest;
pub mod gc;
