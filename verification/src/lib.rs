//! Local search/indexing layer of a messaging client.
//!
//! The crate keeps a denormalized, queryable copy of chat messages and media
//! attachments so that filtered searches and heuristic "smart collections"
//! can be answered entirely offline.  The index itself is an in-memory value;
//! a surrounding application may mirror it into a file-backed store and
//! hydrate it again from the raw stored rows.

pub mod codec;
pub mod accounts;
pub mod collections;
pub mod deploy;
pub mod index;
pub mod order;
pub mod query;
pub mod records;
pub mod store;
pub mod text;
