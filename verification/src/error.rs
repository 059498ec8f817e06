//! What can go wrong in the store.

use vstd::prelude::*;

verus! {

/// The location cannot be used in the mode asked for: it cannot be written
/// (read-write), or it does not exist or holds no usable database
/// (read-only).
#[derive(Debug)]
pub struct StoreOpenError {
    pub cause: rusqlite::Error,
}

/// What failed underneath the store.
#[derive(Debug)]
pub enum Cause {
    /// A call of the database failed.
    Database(rusqlite::Error),
    /// The system clock shows no time that an entry can carry: it stands
    /// before 1970, or beyond the last second that a timestamp holds.
    Clock,
}

/// Why a batch was not written.
#[derive(Debug)]
pub enum CommitError {
    /// The store was opened read-only.
    Rejected,
    /// The database or the clock failed. Nothing of the batch is kept.
    IoFailure(Cause),
}

/// Why a query was not answered.
#[derive(Debug)]
pub enum QueryError {
    /// The database or the clock failed.
    IoFailure(Cause),
}

} // verus!
