//! The calls into SQLite that the migration engine makes.
//!
//! What they return depends on the database's contents, so their contracts
//! promise nothing about it; the engine states what holds whatever came back.
use vstd::prelude::*;

use rusqlite::Error as SqliteError;

use crate::ledger::LedgerEntry;

verus! {

/// An open SQLite database handle.
#[verifier::external_type_specification]
#[verifier::external_body]
pub struct ExConnection(rusqlite::Connection);

/// A failure reported by SQLite.
#[verifier::external_type_specification]
#[verifier::external_body]
pub struct ExSqliteError(SqliteError);

/// Relies on `rusqlite::Connection::execute_batch`: runs the statements of
/// `sql` in order and stops at the first that fails.
#[verifier::external_body]
pub(crate) fn run_batch(connection: &rusqlite::Connection, sql: &str) -> (r: Result<
    (),
    SqliteError,
>) {
    connection.execute_batch(sql)
}

/// Relies on the `Display` impl of `rusqlite::Error` for the error's text.
#[verifier::external_body]
pub(crate) fn error_text(error: &SqliteError) -> (r: String) {
    error.to_string()
}

/// Relies on `rusqlite::Connection::prepare` and `Statement::query_map`: the
/// rows of a query whose first two columns are text, in the order SQLite
/// returns them.
#[verifier::external_body]
pub(crate) fn query_entries(connection: &rusqlite::Connection, sql: &str) -> (r: Result<
    Vec<LedgerEntry>,
    SqliteError,
>) {
    let mut statement = connection.prepare(sql)?;
    let rows = statement.query_map([], |row| Ok(LedgerEntry { name: row.get(0)?, hash: row.get(1)? }))?;
    let entries: Result<Vec<LedgerEntry>, SqliteError> = rows.collect();
    entries
}

/// Relies on `rusqlite::Connection::execute`: runs one statement with two
/// positional text parameters.
#[verifier::external_body]
pub(crate) fn execute_with_texts(
    connection: &rusqlite::Connection,
    sql: &str,
    first: &str,
    second: &str,
) -> (r: Result<usize, SqliteError>) {
    connection.execute(sql, [first, second])
}

} // verus!
