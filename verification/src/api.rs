//! The failures that the gateway reports to its callers.

use crate::error::Cause;
use vstd::prelude::*;

verus! {

/// Why a request was not served.
#[derive(Debug)]
pub enum ApiError {
    /// A write was sent to a read-only store.
    ReadonlyDataStore,
    /// No value stands under the key, which is named.
    ValueNotFound(String),
    /// The store failed.
    UnknownError(Cause),
}

/// The HTTP status of a failure.
pub open spec fn spec_status_code(error: ApiError) -> u16 {
    match error {
        ApiError::ReadonlyDataStore => 403,
        ApiError::ValueNotFound(_) => 404,
        ApiError::UnknownError(_) => 500,
    }
}

impl ApiError {
    /// The HTTP status under which the failure is reported: 403 for a write
    /// to a read-only store, 404 for a key without a value, 500 for a
    /// failure of the store.
    pub fn status_code(&self) -> (code: u16)
        ensures
            code == spec_status_code(*self),
    {
        match self {
            ApiError::ReadonlyDataStore => 403,
            ApiError::ValueNotFound(_) => 404,
            ApiError::UnknownError(_) => 500,
        }
    }
}

/// The lines that name the causes of a failure, outermost first: for each
/// cause `Caused by:`, a line break, a tab, the cause and a line break.
pub open spec fn cause_lines(causes: Seq<String>) -> Seq<char>
    decreases causes.len(),
{
    if causes.len() == 0 {
        Seq::empty()
    } else {
        cause_lines(causes.drop_last()) + "Caused by:\n\t"@ + causes.last()@ + "\n"@
    }
}

/// The report of a failure and its causes: the message, an empty line, and
/// the lines of the causes.
pub open spec fn error_chain(message: Seq<char>, causes: Seq<String>) -> Seq<char> {
    message + "\n\n"@ + cause_lines(causes)
}

/// Writes the report of a failure: its message, followed by the chain of
/// what caused it, outermost cause first.
pub fn error_chain_fmt(message: &str, causes: &Vec<String>) -> (report: String)
    ensures
        report@ == error_chain(message@, causes@),
{
    let mut report = String::from_str(message);
    report.append("\n\n");
    let mut done: usize = 0;
    while done < causes.len()
        invariant
            done <= causes.len(),
            report@ == error_chain(message@, causes@.take(done as int)),
        decreases causes.len() - done,
    {
        proof {
            assert(causes@.take(done + 1).drop_last() == causes@.take(done as int));
            assert(causes@.take(done + 1).last() == causes@[done as int]);
        }
        report.append("Caused by:\n\t");
        report.append(causes[done].as_str());
        report.append("\n");
        done = done + 1;
    }
    proof {
        assert(causes@.take(done as int) == causes@);
    }
    report
}

} // verus!
