//! The database that holds the log: one SQLite connection, reached through
//! `rusqlite`.
//!
//! Nothing in this file is proved. Each function hands one statement to the
//! database, and its contract says what SQLite does with it.

use crate::entry::{entries, Entry, Value};
use crate::query::kept_under;
use crate::repo::{last_time, spec_open_flags};
use crate::time::Timestamp;
use chrono::{DateTime, Utc};
use rusqlite::{Connection, Error, OptionalExtension};
use vstd::prelude::*;

verus! {

/// `rusqlite::Connection`: a connection to a SQLite database.
#[verifier::external_type_specification]
#[verifier::external_body]
pub struct ExConnection(Connection);

/// `rusqlite::Error`: why a call of the database failed.
#[verifier::external_type_specification]
#[verifier::external_body]
pub struct ExSqlError(Error);

/// The rows of the table `store` as the connection sees them, oldest first:
/// in the order of their `id`, which is the order in which they were
/// inserted. Where the table does not exist there are none.
pub uninterp spec fn stored(connection: Connection) -> Seq<Entry>;

/// The rows to which a rollback returns: those that the table held when the
/// open transaction began. `None` where no transaction is open.
pub uninterp spec fn checkpoint(connection: Connection) -> Option<Seq<Entry>>;

/// Whether the database lives in the memory that the connection owns. No
/// other connection, process or file can reach such a database, so its rows
/// change through this connection only. A database in a file can change
/// behind the connection, and the contracts below claim nothing about its
/// rows.
pub uninterp spec fn in_memory(connection: Connection) -> bool;

/// The flags that were handed to rusqlite when the connection was opened, as
/// the bits of SQLite's `sqlite3_open_v2`.
pub uninterp spec fn opened_with(connection: Connection) -> int;

/// The path that was handed to rusqlite when the connection was opened.
pub uninterp spec fn opened_at(connection: Connection) -> Seq<char>;

/// Whether the statements that create the table `store` and its three
/// indexes, unless they exist, have all run to success on this connection.
pub uninterp spec fn laid_out(connection: Connection) -> bool;

/// What no statement changes of a connection: where its database lives, and
/// the path and the flags with which it was opened.
pub open spec fn same_database(before: Connection, after: Connection) -> bool {
    &&& in_memory(after) == in_memory(before)
    &&& opened_at(after) == opened_at(before)
    &&& opened_with(after) == opened_with(before)
}

/// A failed statement has left the rows and the open transaction alone.
pub open spec fn untouched(before: Connection, after: Connection) -> bool {
    &&& stored(after) == stored(before)
    &&& checkpoint(after) == checkpoint(before)
}

/// The open transaction is gone and the rows are those of its beginning.
pub open spec fn undone(before: Connection, after: Connection) -> bool {
    &&& checkpoint(before) matches Some(rows)
    &&& stored(after) == rows
    &&& checkpoint(after) is None
}

/// `Connection::open_in_memory`: a new database in memory, private to the
/// connection. It is empty and no transaction is open. rusqlite opens it at
/// the path `:memory:` with its default flags, which are those of a database
/// that is read, written and created where absent.
#[verifier::external_body]
pub(crate) fn open_in_memory() -> (res: Result<Connection, Error>)
    ensures
        res matches Ok(connection) ==> {
            &&& in_memory(connection)
            &&& opened_at(connection) == ":memory:"@
            &&& opened_with(connection) == spec_open_flags(false)
            &&& stored(connection) == Seq::<Entry>::empty()
            &&& checkpoint(connection) is None
        },
{
    Connection::open_in_memory()
}

/// `Connection::open_with_flags`, with the flags given as the bits of
/// SQLite's `sqlite3_open_v2` and handed on as they are. Where it succeeds
/// the connection was opened at this path with these flags. Nothing is
/// claimed of what the database holds.
#[verifier::external_body]
pub(crate) fn open_with_flags(path: &str, flags: i32) -> (res: Result<Connection, Error>)
    ensures
        res matches Ok(connection) ==> opened_at(connection) == path@ && opened_with(connection)
            == flags,
{
    Connection::open_with_flags(path, rusqlite::OpenFlags::from_bits_retain(flags))
}

/// `Connection::execute_batch` on the statements that create the table
/// `store` and its three indexes unless they exist. It stops at the first
/// statement that fails, so where it succeeds all four exist. No row is
/// added, changed or removed, whether or not it succeeds.
#[verifier::external_body]
pub(crate) fn create_tables(connection: &mut Connection) -> (res: Result<(), Error>)
    ensures
        same_database(*old(connection), *final(connection)),
        in_memory(*old(connection)) ==> untouched(*old(connection), *final(connection)),
        res is Ok ==> laid_out(*final(connection)),
        laid_out(*old(connection)) ==> laid_out(*final(connection)),
{
    connection.execute_batch(
        "CREATE TABLE IF NOT EXISTS store (\
            id              INTEGER PRIMARY KEY,\
            scope           TEXT NOT NULL,\
            key             TEXT NOT NULL,\
            value           BLOB NOT NULL,\
            created_on      TEXT NOT NULL,\
            expires_on      TEXT\
        );\
        CREATE INDEX IF NOT EXISTS store_scope_key_index ON store (scope, key);\
        CREATE INDEX IF NOT EXISTS store_created_on_index ON store (created_on DESC);\
        CREATE INDEX IF NOT EXISTS store_expires_on_index ON store (expires_on DESC);",
    )
}

/// `Connection::execute_batch` on `BEGIN`. Where it succeeds a transaction
/// is open, and a rollback returns to the rows of this moment. Where it fails,
/// as it does inside a transaction, nothing has changed.
#[verifier::external_body]
pub(crate) fn begin(connection: &mut Connection) -> (res: Result<(), Error>)
    ensures
        same_database(*old(connection), *final(connection)),
        laid_out(*final(connection)) == laid_out(*old(connection)),
        in_memory(*old(connection)) ==> match res {
            Ok(_) => {
                &&& stored(*final(connection)) == stored(*old(connection))
                &&& checkpoint(*final(connection)) == Some(stored(*old(connection)))
            },
            Err(_) => untouched(*old(connection), *final(connection)),
        },
{
    connection.execute_batch("BEGIN DEFERRED")
}

/// `Connection::prepare_cached` and `Statement::execute` on the `INSERT` of
/// one row. Where it succeeds the row stands last in the table, with an `id`
/// above all others. Where it fails SQLite has undone the statement, and
/// after some failures the whole transaction. It fails, before anything is
/// handed to the database, on a time that chrono cannot hold.
#[verifier::external_body]
pub(crate) fn insert(connection: &mut Connection, row: &Value) -> (res: Result<usize, Error>)
    ensures
        same_database(*old(connection), *final(connection)),
        laid_out(*final(connection)) == laid_out(*old(connection)),
        in_memory(*old(connection)) ==> match res {
            Ok(_) => {
                &&& stored(*final(connection)) == stored(*old(connection)).push(row@)
                &&& checkpoint(*final(connection)) == checkpoint(*old(connection))
            },
            Err(_) => untouched(*old(connection), *final(connection)) || undone(
                *old(connection),
                *final(connection),
            ),
        },
{
    let created = DateTime::from_timestamp(row.created_on.secs(), row.created_on.nanos())
        .ok_or(Error::InvalidQuery)?;
    let expires = match row.expires_on {
        Some(at) => Some(DateTime::from_timestamp(at.secs(), at.nanos()).ok_or(Error::InvalidQuery)?),
        None => None,
    };
    connection.prepare_cached(
        "INSERT INTO store (scope, key, value, created_on, expires_on) \
         VALUES (?1, ?2, ?3, ?4, ?5);",
    )?.execute((&row.scope, &row.key, &row.value, created, expires))
}

/// `Connection::execute_batch` on `COMMIT`. Where it succeeds the rows stay
/// and no transaction is open. Where it fails the transaction is still open,
/// or SQLite has undone it.
#[verifier::external_body]
pub(crate) fn commit(connection: &mut Connection) -> (res: Result<(), Error>)
    ensures
        same_database(*old(connection), *final(connection)),
        laid_out(*final(connection)) == laid_out(*old(connection)),
        in_memory(*old(connection)) ==> match res {
            Ok(_) => {
                &&& stored(*final(connection)) == stored(*old(connection))
                &&& checkpoint(*final(connection)) is None
            },
            Err(_) => untouched(*old(connection), *final(connection)) || undone(
                *old(connection),
                *final(connection),
            ),
        },
{
    connection.execute_batch("COMMIT")
}

/// `Connection::execute_batch` on `ROLLBACK`. Afterwards no transaction is
/// open. The rows are those of the beginning of the transaction that was
/// open; where none was open the statement fails and the rows stay.
#[verifier::external_body]
pub(crate) fn rollback(connection: &mut Connection) -> (res: Result<(), Error>)
    ensures
        same_database(*old(connection), *final(connection)),
        laid_out(*final(connection)) == laid_out(*old(connection)),
        in_memory(*old(connection)) ==> {
            &&& checkpoint(*final(connection)) is None
            &&& stored(*final(connection)) == match checkpoint(*old(connection)) {
                Some(rows) => rows,
                None => stored(*old(connection)),
            }
        },
{
    connection.execute_batch("ROLLBACK")
}

/// `Connection::prepare_cached` and `Statement::query_map` on the `SELECT` of
/// the rows of one `(scope, key)` pair, in the order of their `id`. Where it
/// succeeds it returns those rows as they were inserted. It fails, too, where
/// a row does not hold what `insert` writes.
#[verifier::external_body]
pub(crate) fn load(connection: &Connection, scope: &str, key: &str) -> (res: Result<
    Vec<Value>,
    Error,
>)
    ensures
        in_memory(*connection) ==> (res matches Ok(rows) ==> entries(rows@) == stored(
            *connection,
        ).filter(kept_under(scope@, key@))),
{
    let mut statement = connection.prepare_cached(
        "SELECT scope, key, value, created_on, expires_on FROM store \
         WHERE scope = ?1 AND key = ?2 ORDER BY id;",
    )?;
    let rows = statement.query_map((scope, key), |row| {
        let created: DateTime<Utc> = row.get(3)?;
        let expires: Option<DateTime<Utc>> = row.get(4)?;
        let created_on = Timestamp::new(created.timestamp(), created.timestamp_subsec_nanos())
            .ok_or(Error::InvalidQuery)?;
        let expires_on = expires
            .map(|at| Timestamp::new(at.timestamp(), at.timestamp_subsec_nanos()).ok_or(Error::InvalidQuery))
            .transpose()?;
        Ok(Value { scope: row.get(0)?, key: row.get(1)?, value: row.get(2)?, created_on, expires_on })
    })?;
    rows.collect()
}

/// `Connection::prepare_cached` and `Statement::query_row` on the `SELECT` of
/// the time of writing of the row with the highest `id`, turned into an
/// `Option` by `OptionalExtension::optional`. Where it succeeds it returns
/// the time of the last row, or `None` for an empty table.
#[verifier::external_body]
pub(crate) fn last_written(connection: &Connection) -> (res: Result<Option<Timestamp>, Error>)
    ensures
        in_memory(*connection) ==> (res matches Ok(last) ==> last == last_time(stored(*connection))),
{
    let mut statement = connection.prepare_cached(
        "SELECT created_on FROM store ORDER BY id DESC LIMIT 1;",
    )?;
    let last = statement.query_row((), |row| {
        let created: DateTime<Utc> = row.get(0)?;
        Timestamp::new(created.timestamp(), created.timestamp_subsec_nanos()).ok_or(Error::InvalidQuery)
    });
    last.optional()
}

} // verus!
