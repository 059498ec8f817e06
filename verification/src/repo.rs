//! The entry store: atomic batch append and time-filtered read on one
//! database connection.

use crate::config::AppConfig;
use crate::entry::{entries, pendings, stamp, stamped, Entry, Pending, PendingEntry};
use crate::error::{Cause, CommitError, QueryError, StoreOpenError};
use crate::laws::lemma_times_do_not_go_back;
use crate::query::{lemma_narrowed, select, spec_select, Lookup};
use crate::sqlite::{
    begin, checkpoint, commit, create_tables, in_memory, insert, laid_out, last_written, load,
    open_in_memory, open_with_flags, opened_at, opened_with, rollback, same_database, stored,
};
use crate::time::Timestamp;
use rusqlite::Connection;
use vstd::prelude::*;

pub use crate::entry::{QueryResult, Value};

verus! {

/// SQLite's flag for a database that is only read.
pub const OPEN_READ_ONLY: i32 = 0x1;

/// SQLite's flag for a database that is read and written.
pub const OPEN_READ_WRITE: i32 = 0x2;

/// SQLite's flag for creating the database where it does not exist.
pub const OPEN_CREATE: i32 = 0x4;

/// SQLite's flag for reading the file name as a URI.
pub const OPEN_URI: i32 = 0x40;

/// SQLite's flag for a connection without a mutex of its own.
pub const OPEN_NO_MUTEX: i32 = 0x8000;

/// The flags with which a database file is opened.
pub open spec fn spec_open_flags(readonly: bool) -> int {
    if readonly {
        OPEN_READ_ONLY + OPEN_NO_MUTEX + OPEN_URI
    } else {
        OPEN_READ_WRITE + OPEN_CREATE + OPEN_NO_MUTEX + OPEN_URI
    }
}

/// The flags with which a database file is opened: read-only, or read-write
/// and created where absent.
pub fn open_flags(readonly: bool) -> (flags: i32)
    ensures
        flags == spec_open_flags(readonly),
{
    if readonly {
        OPEN_READ_ONLY + OPEN_NO_MUTEX + OPEN_URI
    } else {
        OPEN_READ_WRITE + OPEN_CREATE + OPEN_NO_MUTEX + OPEN_URI
    }
}

/// Whether `entry` is `pending` as it was written, at whatever time.
pub open spec fn written(pending: Pending, entry: Entry) -> bool {
    entry == stamped(pending, entry.created_on)
}

/// Whether `after` is `before` with the batch appended: the old entries stand
/// unchanged in front, and behind them the entries of the batch in its order,
/// each with a time of writing.
pub open spec fn appended(before: Seq<Entry>, batch: Seq<Pending>, after: Seq<Entry>) -> bool {
    &&& after.len() == before.len() + batch.len()
    &&& after.take(before.len() as int) == before
    &&& forall|i: int|
        before.len() <= i < after.len() ==> written(batch[i - before.len()], #[trigger] after[i])
}

/// Whether the times of writing never go back along a log.
pub open spec fn ascending(log: Seq<Entry>) -> bool {
    forall|i: int, j: int|
        0 <= i <= j < log.len() ==> (#[trigger] log[i]).created_on.instant() <= (
        #[trigger] log[j]).created_on.instant()
}

/// A reading of the clock, lifted to the floor where it lies before it.
pub open spec fn lifted(reading: Timestamp, floor: Option<Timestamp>) -> Timestamp {
    match floor {
        Some(least) => if reading.instant() < least.instant() {
            least
        } else {
            reading
        },
        None => reading,
    }
}

/// Lifts a reading of the clock to the floor where it lies before it.
pub fn lift(reading: Timestamp, floor: Option<Timestamp>) -> (at: Timestamp)
    ensures
        at == lifted(reading, floor),
{
    match floor {
        Some(least) => if reading.is_before(&least) {
            least
        } else {
            reading
        },
        None => reading,
    }
}

/// The time of writing of the last entry of a log, if it has one.
pub open spec fn last_time(log: Seq<Entry>) -> Option<Timestamp> {
    if log.len() == 0 {
        None
    } else {
        Some(log.last().created_on)
    }
}

/// The persisted log.
///
/// A store holds one database connection. What it exposes of the database is
/// the sequence of its entries, oldest first, for a database that lives in
/// memory: no one else can write to that. A database in a file may change
/// under the store, so of its entries the contracts state only what holds
/// whatever the file contains.
///
/// A commit takes the store exclusively. Callers that share one store guard
/// it with a lock, so that one commit or query runs at a time.
#[derive(Debug)]
pub struct Repo {
    connection: Connection,
    readonly: bool,
}

impl Repo {
    /// The entries of the log, oldest first.
    pub closed spec fn view(&self) -> Seq<Entry> {
        stored(self.connection)
    }

    /// Whether the log lives in memory, where only this store can reach it.
    pub closed spec fn is_in_memory(&self) -> bool {
        in_memory(self.connection)
    }

    /// Whether the store was opened read-only.
    pub closed spec fn is_readonly(&self) -> bool {
        self.readonly
    }

    /// The flags with which the database was opened, as the bits of SQLite's
    /// `sqlite3_open_v2`.
    pub closed spec fn open_mode(&self) -> int {
        opened_with(self.connection)
    }

    /// The path at which the database was opened.
    pub closed spec fn location(&self) -> Seq<char> {
        opened_at(self.connection)
    }

    /// Whether the table of the log and its three indexes are in place: the
    /// statements that create them unless they exist have run to success.
    pub closed spec fn is_laid_out(&self) -> bool {
        laid_out(self.connection)
    }

    /// Opens the store on a database file, with the flags that `open_flags`
    /// gives for the mode. Read-write mode creates the file and the table
    /// where they are absent; read-only mode needs both to exist, and the
    /// database then refuses every write.
    pub fn create_with_file(filename: &str, readonly: bool) -> (res: Result<Repo, StoreOpenError>)
        ensures
            res matches Ok(repo) ==> {
                &&& repo.is_readonly() == readonly
                &&& repo.location() == filename@
                &&& repo.open_mode() == spec_open_flags(readonly)
                &&& repo.is_laid_out()
            },
    {
        let connection = match open_with_flags(filename, open_flags(readonly)) {
            Ok(connection) => connection,
            Err(cause) => {
                return Err(StoreOpenError { cause });
            },
        };
        let mut repo = Repo { connection, readonly };
        match repo.init_db() {
            Ok(_) => Ok(repo),
            Err(cause) => Err(StoreOpenError { cause }),
        }
    }

    /// Opens a store on a new, empty log in memory. It is writable, and its
    /// table and indexes are in place.
    pub fn create_in_memory() -> (res: Result<Repo, StoreOpenError>)
        ensures
            res matches Ok(repo) ==> {
                &&& repo.is_in_memory()
                &&& !repo.is_readonly()
                &&& repo.location() == ":memory:"@
                &&& repo.open_mode() == spec_open_flags(false)
                &&& repo.is_laid_out()
                &&& repo@ == Seq::<Entry>::empty()
            },
    {
        let connection = match open_in_memory() {
            Ok(connection) => connection,
            Err(cause) => {
                return Err(StoreOpenError { cause });
            },
        };
        let mut repo = Repo { connection, readonly: false };
        match repo.init_db() {
            Ok(_) => Ok(repo),
            Err(cause) => Err(StoreOpenError { cause }),
        }
    }

    /// Opens the store that the settings name: the database file in the mode
    /// asked for, or a new log in memory where they name no file.
    pub fn open(config: &AppConfig) -> (res: Result<Repo, StoreOpenError>)
        ensures
            res matches Ok(repo) ==> {
                &&& repo.is_readonly() == config.spec_readonly()
                &&& repo.open_mode() == spec_open_flags(config.spec_readonly())
                &&& repo.is_laid_out()
                &&& config.spec_db() matches Some(path) ==> repo.location() == path@
                &&& config.spec_db() is None ==> repo.is_in_memory() && repo@ == Seq::<Entry>::empty()
            },
    {
        match config.db() {
            Some(path) => Repo::create_with_file(path.as_str(), config.readonly()),
            None => Repo::create_in_memory(),
        }
    }

    /// Makes sure that the table and its indexes exist: where it succeeds
    /// they do. The entries stay, whether it succeeds or not.
    fn init_db(&mut self) -> (res: Result<(), rusqlite::Error>)
        ensures
            final(self).is_readonly() == old(self).is_readonly(),
            final(self).is_in_memory() == old(self).is_in_memory(),
            final(self).open_mode() == old(self).open_mode(),
            final(self).location() == old(self).location(),
            old(self).is_in_memory() ==> final(self)@ == old(self)@ && checkpoint(
                final(self).connection,
            ) == checkpoint(old(self).connection),
            res is Ok ==> final(self).is_laid_out(),
            old(self).is_laid_out() ==> final(self).is_laid_out(),
    {
        create_tables(&mut self.connection)
    }

    /// Appends a batch of entries, all or none.
    ///
    /// A read-only store rejects the batch and is left as it was. Otherwise
    /// each entry gets a time of writing of its own: the clock is read for it,
    /// in the order of the batch, and where the clock has gone back behind
    /// the entry before it, or behind the last entry of the log, the entry
    /// gets that entry's time instead. So the times of writing never go back
    /// along the log. The entries are then written in one transaction by
    /// `commit_values_at`. Where the clock or the database fails the failure
    /// is returned and nothing of the batch is kept.
    pub fn commit_values(&mut self, values: &[PendingEntry]) -> (res: Result<(), CommitError>)
        ensures
            final(self).is_readonly() == old(self).is_readonly(),
            final(self).is_in_memory() == old(self).is_in_memory(),
            final(self).open_mode() == old(self).open_mode(),
            final(self).location() == old(self).location(),
            final(self).is_laid_out() == old(self).is_laid_out(),
            old(self).is_readonly() ==> res == Err::<(), CommitError>(CommitError::Rejected),
            old(self).is_readonly() ==> *final(self) == *old(self),
            !old(self).is_readonly() ==> res is Ok || (res matches Err(CommitError::IoFailure(_))),
            old(self).is_in_memory() ==> match res {
                Ok(_) => appended(old(self)@, pendings(values@), final(self)@),
                Err(_) => final(self)@ == old(self)@,
            },
            old(self).is_in_memory() && ascending(old(self)@) && res is Ok ==> ascending(
                final(self)@,
            ),
    {
        if self.readonly {
            return Err(CommitError::Rejected);
        }
        let last = match last_written(&self.connection) {
            Ok(last) => last,
            Err(cause) => {
                return Err(CommitError::IoFailure(Cause::Database(cause)));
            },
        };
        let mut floor = last;
        let mut rows: Vec<Value> = Vec::new();
        let mut done: usize = 0;
        while done < values.len()
            invariant
                done <= values.len(),
                rows.len() == done,
                *self == *old(self),
                !self.readonly,
                forall|i: int| 0 <= i < done ==> written(values[i]@, #[trigger] rows[i]@),
                ascending(entries(rows@)),
                done == 0 ==> floor == last,
                done > 0 ==> floor == Some(rows[done - 1].created_on),
                done > 0 ==> rows[0].created_on == lifted(rows[0].created_on, last),
            decreases values.len() - done,
        {
            let reading = match Timestamp::now() {
                Some(reading) => reading,
                None => {
                    return Err(CommitError::IoFailure(Cause::Clock));
                },
            };
            let at = lift(reading, floor);
            let ghost so_far = entries(rows@);
            rows.push(stamp(&values[done], at));
            proof {
                let now = entries(rows@);
                assert forall|i: int, j: int| 0 <= i <= j < now.len() implies (#[trigger] now[i])
                    .created_on.instant() <= (#[trigger] now[j]).created_on.instant() by {
                    if j < done {
                        assert(now[i] == so_far[i] && now[j] == so_far[j]);
                    } else if i < done {
                        assert(now[i] == so_far[i]);
                        assert(so_far[i].created_on.instant() <= so_far[done - 1].created_on.instant());
                    }
                }
            }
            floor = Some(at);
            done = done + 1;
        }
        let res = self.commit_values_at(rows.as_slice());
        proof {
            let before = old(self)@;
            let batch = entries(rows@);
            let after = before + batch;
            assert(after.take(before.len() as int) == before);
            assert forall|i: int| before.len() <= i < after.len() implies written(
                pendings(values@)[i - before.len()],
                #[trigger] after[i],
            ) by {
                assert(after[i] == rows[i - before.len()]@);
            }
            if old(self).is_in_memory() && ascending(before) && res is Ok {
                if batch.len() > 0 {
                    assert(batch.first() == rows[0]@);
                }
                lemma_times_do_not_go_back(before, batch);
            }
        }
        res
    }

    /// Appends a batch of entries that carry their times of writing, all or
    /// none.
    ///
    /// A read-only store rejects the batch and is left as it was. Otherwise
    /// the rows are written in one transaction, in their order and with the
    /// times that they carry. Where the database fails on any of them the
    /// transaction is rolled back and the failure is returned.
    pub fn commit_values_at(&mut self, rows: &[Value]) -> (res: Result<(), CommitError>)
        ensures
            final(self).is_readonly() == old(self).is_readonly(),
            final(self).is_in_memory() == old(self).is_in_memory(),
            final(self).open_mode() == old(self).open_mode(),
            final(self).location() == old(self).location(),
            final(self).is_laid_out() == old(self).is_laid_out(),
            old(self).is_readonly() ==> res == Err::<(), CommitError>(CommitError::Rejected),
            old(self).is_readonly() ==> *final(self) == *old(self),
            !old(self).is_readonly() ==> res is Ok || (res matches Err(
                CommitError::IoFailure(Cause::Database(_)),
            )),
            old(self).is_in_memory() ==> match res {
                Ok(_) => final(self)@ == old(self)@ + entries(rows@),
                Err(_) => final(self)@ == old(self)@,
            },
    {
        if self.readonly {
            return Err(CommitError::Rejected);
        }
        let ghost before = stored(self.connection);
        let ghost batch = entries(rows@);
        match begin(&mut self.connection) {
            Ok(_) => {},
            Err(cause) => {
                return Err(CommitError::IoFailure(Cause::Database(cause)));
            },
        }
        proof {
            assert(before + batch.take(0) == before);
        }
        let mut done: usize = 0;
        while done < rows.len()
            invariant
                done <= rows.len(),
                batch == entries(rows@),
                before == stored(old(self).connection),
                !self.readonly,
                self.readonly == old(self).readonly,
                same_database(old(self).connection, self.connection),
                laid_out(self.connection) == laid_out(old(self).connection),
                in_memory(self.connection) ==> {
                    &&& checkpoint(self.connection) == Some(before)
                    &&& stored(self.connection) == before + batch.take(done as int)
                },
            decreases rows.len() - done,
        {
            match insert(&mut self.connection, &rows[done]) {
                Ok(_) => {},
                Err(cause) => {
                    let _ = rollback(&mut self.connection);
                    return Err(CommitError::IoFailure(Cause::Database(cause)));
                },
            }
            proof {
                assert(batch[done as int] == rows[done as int]@);
                assert(batch.take(done + 1) == batch.take(done as int).push(batch[done as int]));
                assert((before + batch.take(done as int)).push(batch[done as int]) == before
                    + batch.take(done + 1));
            }
            done = done + 1;
        }
        match commit(&mut self.connection) {
            Ok(_) => {
                proof {
                    assert(batch.take(done as int) == batch);
                }
                Ok(())
            },
            Err(cause) => {
                let _ = rollback(&mut self.connection);
                Err(CommitError::IoFailure(Cause::Database(cause)))
            },
        }
    }

    /// Answers a lookup at the time `now`.
    ///
    /// The answer is that of `select` on the entries of the log. A lookup
    /// that no entry meets is answered with an empty sequence.
    pub fn query_values_at(
        &self,
        now: Timestamp,
        scope: &str,
        key: &str,
        start_on: Option<Timestamp>,
        end_on: Option<Timestamp>,
        limit: Option<u64>,
    ) -> (res: Result<Vec<QueryResult>, QueryError>)
        ensures
            res matches Ok(out) ==> self.answered_at(
                now,
                scope@,
                key@,
                start_on,
                end_on,
                limit,
                out@,
            ),
    {
        let rows = match load(&self.connection, scope, key) {
            Ok(rows) => rows,
            Err(cause) => {
                return Err(QueryError::IoFailure(Cause::Database(cause)));
            },
        };
        let ghost lookup = Lookup { scope: scope@, key: key@, now, start_on, end_on };
        let ghost found = entries(rows@);
        let out = select(rows, scope, key, now, start_on, end_on, limit);
        proof {
            if self.is_in_memory() {
                lemma_narrowed(self@, lookup, limit);
                assert(out@ == spec_select(self@, lookup, limit));
            } else {
                assert(out@ == spec_select(found, lookup, limit));
            }
        }
        Ok(out)
    }

    /// Whether `out` answers a lookup on this store at the time `now`: it is
    /// what `spec_select` gives on some log, and on the store's own entries
    /// where the log lives in memory.
    pub open spec fn answered_at(
        &self,
        now: Timestamp,
        scope: Seq<char>,
        key: Seq<char>,
        start_on: Option<Timestamp>,
        end_on: Option<Timestamp>,
        limit: Option<u64>,
        out: Seq<QueryResult>,
    ) -> bool {
        exists|log: Seq<Entry>|
            {
                &&& self.is_in_memory() ==> log == self@
                &&& out == #[trigger] spec_select(
                    log,
                    Lookup { scope, key, now, start_on, end_on },
                    limit,
                )
            }
    }

    /// Answers a lookup at the time that the clock shows. Where the clock
    /// shows none the query fails.
    pub fn query_values(
        &self,
        scope: &str,
        key: &str,
        start_on: Option<Timestamp>,
        end_on: Option<Timestamp>,
        limit: Option<u64>,
    ) -> (res: Result<Vec<QueryResult>, QueryError>)
        ensures
            res matches Ok(out) ==> exists|now: Timestamp|
                now.spec_secs() >= 0 && #[trigger] self.answered_at(
                    now,
                    scope@,
                    key@,
                    start_on,
                    end_on,
                    limit,
                    out@,
                ),
    {
        let now = match Timestamp::now() {
            Some(now) => now,
            None => {
                return Err(QueryError::IoFailure(Cause::Clock));
            },
        };
        self.query_values_at(now, scope, key, start_on, end_on, limit)
    }
}

} // verus!
