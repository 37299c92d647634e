//! Change-capture and index-maintenance pipeline for keeping a full-text
//! search index synchronized with an embedded SQL database.
//!
//! Applications write rows through ordinary SQL; per-connection hooks
//! translate the mutations into pending operations, a commit hands one
//! transaction's worth of operations to a background worker, and the worker
//! coalesces change-sets and applies them to the index. This crate holds the
//! verified core of that pipeline: the row-to-document projector, the
//! pending-changes buffer, the table-settings registry, the coalescing and
//! batch-planning logic, and the documented semantics of the index's
//! document operations. The unverified shell (SQL connections, threads,
//! the search engine itself) drives these functions from outside.

pub mod assoc;
pub mod buffer;
pub mod hooks;
pub mod index_model;
pub mod instance;
pub mod json;
pub mod laws;
pub mod ops;
pub mod projector;
pub mod registry;
pub mod settings;
pub mod strutil;
pub mod worker;
