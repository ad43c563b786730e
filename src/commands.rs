//! Commands that run caller-supplied SQL on an open database.
use vstd::prelude::*;

use crate::error::Error;
use crate::store::{error_text, run_batch};

verus! {

/// Runs every statement of `batch_sql` in order, stopping at the first that
/// fails; a failure is reported as a database error.
pub fn execute_batch(connection: &rusqlite::Connection, batch_sql: String) -> (r: Result<
    (),
    Error,
>)
    ensures
        r matches Err(e) ==> e is Database,
{
    match run_batch(connection, batch_sql.as_str()) {
        Ok(()) => Ok(()),
        Err(err) => Err(Error::Database(error_text(&err))),
    }
}

} // verus!
