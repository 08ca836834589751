//! Shallow file-identifier pipeline.
//!
//! Indexed file-path rows without a linked content object ("orphans") are
//! discovered page by page through a cursor, handed to concurrent extraction
//! tasks, and the identified files are then deduplicated into content objects
//! by object-processor tasks. This crate holds the verified logic of that
//! pipeline: the scope resolver, the orphan cursor, the task-status state
//! machine and the orchestrator that aggregates a dynamic set of in-flight
//! tasks. The asynchronous edges (index queries, the task-execution substrate)
//! live outside; they feed the orchestrator plain values and carry out the
//! actions it decides on.
//!
//! A small side module models the metadata table that the peer-discovery
//! layer exchanges for a peer.

pub mod cursor;
pub mod laws;
pub mod orchestrator;
pub mod peer;
pub mod scope;
pub mod tasks;
