//! A verified request-dispatch and acknowledgment engine for a document-database
//! client, with the administrative command layer built on it.

pub mod document;
pub mod error;
pub mod reply;
pub mod ops;
pub mod client;
pub mod shard;
pub mod options;
