//! Durable-storage core of a paste-sharing service.
//!
//! A paste ("pasta") is a text or file snippet with metadata: expiration,
//! access counters, encryption flags.  This crate holds the verified logic of
//! the storage layer: the record type and its invariant, the codec that maps a
//! record to and from a flat row of scalar columns, the additive schema
//! migration step, and the table model with its CRUD and bulk-rewrite
//! semantics.  Opening the database file and executing SQL are left to an
//! unverified adapter around this crate.

pub mod codec;
pub mod record;
pub mod schema;
pub mod store;
