//! Append-only persistence: the chained event log and its migrations.
//!
//! Every event carries an integrity digest chained against the digest of the
//! previous event, so rewriting or deleting a past event breaks the chain.
//! Rejected observations are stored, never silently dropped.

pub mod migrations;
pub mod store;
