//! A persisted, append-only, scoped key-value log.
//!
//! Clients write timestamped values under a `(scope, key)` pair and read them
//! back by time window, expiration state and count. Entries are never changed
//! or removed: every write adds a new version.

pub mod api;
pub mod config;
pub mod entry;
pub mod error;
pub mod json;
pub mod laws;
pub mod query;
pub mod repo;
pub mod routes;
pub mod sqlite;
pub mod time;
