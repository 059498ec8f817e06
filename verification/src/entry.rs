//! The entries of the log, as they are written, stored and returned.

use crate::time::Timestamp;
use serde_json::Value as Json;
use vstd::prelude::*;

verus! {

/// An entry as a caller hands it in: everything but the time of writing,
/// which the store assigns.
#[derive(Debug)]
pub struct PendingEntry {
    pub scope: String,
    pub key: String,
    pub value: Json,
    pub expires_on: Option<Timestamp>,
}

/// An entry of the log: one immutable, timestamped version of the value kept
/// under a `(scope, key)` pair.
#[derive(Debug)]
pub struct Value {
    pub scope: String,
    pub key: String,
    pub value: Json,
    pub created_on: Timestamp,
    pub expires_on: Option<Timestamp>,
}

/// What a query returns of an entry.
#[derive(Debug)]
pub struct QueryResult {
    pub value: Json,
    pub created_on: Timestamp,
    pub expires_on: Option<Timestamp>,
}

/// The mathematical content of an entry that is not yet written.
pub struct Pending {
    pub scope: Seq<char>,
    pub key: Seq<char>,
    pub value: Json,
    pub expires_on: Option<Timestamp>,
}

/// The mathematical content of an entry of the log.
pub struct Entry {
    pub scope: Seq<char>,
    pub key: Seq<char>,
    pub value: Json,
    pub created_on: Timestamp,
    pub expires_on: Option<Timestamp>,
}

impl View for PendingEntry {
    type V = Pending;

    open spec fn view(&self) -> Pending {
        Pending {
            scope: self.scope@,
            key: self.key@,
            value: self.value,
            expires_on: self.expires_on,
        }
    }
}

impl View for Value {
    type V = Entry;

    open spec fn view(&self) -> Entry {
        Entry {
            scope: self.scope@,
            key: self.key@,
            value: self.value,
            created_on: self.created_on,
            expires_on: self.expires_on,
        }
    }
}

/// The entry that a pending entry becomes when it is written at `created_on`.
pub open spec fn stamped(pending: Pending, created_on: Timestamp) -> Entry {
    Entry {
        scope: pending.scope,
        key: pending.key,
        value: pending.value,
        created_on,
        expires_on: pending.expires_on,
    }
}

/// The contents of a sequence of entries.
pub open spec fn entries(rows: Seq<Value>) -> Seq<Entry> {
    rows.map_values(|row: Value| row@)
}

/// The contents of a sequence of pending entries.
pub open spec fn pendings(values: Seq<PendingEntry>) -> Seq<Pending> {
    values.map_values(|value: PendingEntry| value@)
}

/// Gives a pending entry its time of writing.
pub fn stamp(pending: &PendingEntry, created_on: Timestamp) -> (row: Value)
    ensures
        row@ == stamped(pending@, created_on),
{
    Value {
        scope: pending.scope.clone(),
        key: pending.key.clone(),
        value: pending.value.clone(),
        created_on,
        expires_on: pending.expires_on,
    }
}

impl Clone for PendingEntry {
    fn clone(&self) -> (copy: Self)
        ensures
            copy == *self,
    {
        PendingEntry {
            scope: self.scope.clone(),
            key: self.key.clone(),
            value: self.value.clone(),
            expires_on: self.expires_on,
        }
    }
}

impl Clone for Value {
    fn clone(&self) -> (copy: Self)
        ensures
            copy == *self,
    {
        Value {
            scope: self.scope.clone(),
            key: self.key.clone(),
            value: self.value.clone(),
            created_on: self.created_on,
            expires_on: self.expires_on,
        }
    }
}

impl Clone for QueryResult {
    fn clone(&self) -> (copy: Self)
        ensures
            copy == *self,
    {
        QueryResult {
            value: self.value.clone(),
            created_on: self.created_on,
            expires_on: self.expires_on,
        }
    }
}

} // verus!
