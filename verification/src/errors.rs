//! Typed errors for the database operations, flattened to plain text at the
//! command boundary.

use vstd::prelude::*;

verus! {

/// Failure of one database operation: either the connection could not be
/// established, or the database rejected or failed to execute a statement.
/// The carried string is the underlying error text, reported verbatim.
pub enum DbError {
    ConnectionFailure(String),
    QueryFailure(String),
}

impl DbError {
    /// The underlying error text carried by this error.
    pub open spec fn text(&self) -> Seq<char> {
        match self {
            DbError::ConnectionFailure(s) => s@,
            DbError::QueryFailure(s) => s@,
        }
    }

    /// Flattens the error to the plain message string shown to the caller:
    /// the underlying error text, unchanged.
    pub fn message(&self) -> (r: String)
        ensures
            r@ == self.text(),
    {
        match self {
            DbError::ConnectionFailure(s) => s.clone(),
            DbError::QueryFailure(s) => s.clone(),
        }
    }
}

} // verus!
