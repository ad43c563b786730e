//! The error kinds that the library reports.
use vstd::prelude::*;

verus! {

/// A failure of one library call. Each kind carries the text that explains it.
#[derive(Debug, Clone, PartialEq, Eq)]
pub enum Error {
    /// No open database handle is registered under the requested name.
    Connection(),
    /// The underlying store failed; holds the store's own error text.
    Database(String),
    /// The migration history diverged, or a new migration could not be applied.
    Migration(String),
    /// A value could not be converted to or from a native SQLite value.
    Marshalling(String),
    /// A database handle could not be opened.
    OpeningConnection(String),
    /// A database handle could not be closed.
    ClosingConnection(String),
}

pub open spec fn connection_text() -> Seq<char> {
    "Please run the open_in_memory or open_in_path method first to establish a connection to the database."@
}

/// Whether `e` is a marshalling error with the text `msg`.
pub open spec fn is_marshalling(e: Error, msg: Seq<char>) -> bool {
    e matches Error::Marshalling(m) && m@ == msg
}

/// Whether `e` is a migration error with the text `msg`.
pub open spec fn is_migration(e: Error, msg: Seq<char>) -> bool {
    e matches Error::Migration(m) && m@ == msg
}

impl Error {
    /// The text of this error as it is shown to callers.
    pub open spec fn text(&self) -> Seq<char> {
        match self {
            Error::Connection() => connection_text(),
            Error::Database(s) => "Database error: "@ + s@,
            Error::Migration(s) => "Migration error: "@ + s@,
            Error::Marshalling(s) => "Marshalling error: "@ + s@,
            Error::OpeningConnection(s) => "Opening connection error: "@ + s@,
            Error::ClosingConnection(s) => "Closing connection error: "@ + s@,
        }
    }

    /// Renders the error as text, prefixed by its kind.
    pub fn message(&self) -> (r: String)
        ensures
            r@ == self.text(),
    {
        match self {
            Error::Connection() => String::from_str(
                "Please run the open_in_memory or open_in_path method first to establish a connection to the database.",
            ),
            Error::Database(s) => String::from_str("Database error: ").concat(s.as_str()),
            Error::Migration(s) => String::from_str("Migration error: ").concat(s.as_str()),
            Error::Marshalling(s) => String::from_str("Marshalling error: ").concat(s.as_str()),
            Error::OpeningConnection(s) => String::from_str("Opening connection error: ").concat(
                s.as_str(),
            ),
            Error::ClosingConnection(s) => String::from_str("Closing connection error: ").concat(
                s.as_str(),
            ),
        }
    }
}

} // verus!
