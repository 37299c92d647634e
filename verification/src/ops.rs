//! Pending operations.
//!
//! Hooks translate SQL mutations into these: a deletion is captured before
//! the row disappears, so it carries the document's primary key; an insert
//! or update is deferred, carrying only the rowid and the projection query
//! that the worker will run against committed state.

use vstd::prelude::*;

verus! {

/// One pending operation against one index.
pub enum TableUpdate {
    /// Remove the document with this external id.
    Delete { primary_key: String },
    /// Re-query the row with this rowid through `update_query` and upsert
    /// whatever the query returns.
    Upsert { rowid: i64, update_query: String },
}

} // verus!
