//! The classified failures the library reports to its callers.

use vstd::prelude::*;

verus! {

/// One reason a connection string is rejected before any backend is contacted.
#[derive(Debug, PartialEq)]
pub enum UrlFault {
    /// The string holds no `:` separating a scheme from the rest; carries
    /// the whole string.
    NoScheme(String),
    /// The scheme before the first `:` selects no supported backend.
    UnknownScheme(String),
    /// A document URI does not begin with one of the two accepted prefixes.
    BadDocumentPrefix(String),
    /// The database name extracted from a document URI is empty or whitespace.
    EmptyDatabaseName(String),
    /// The database name holds a character that document database names forbid.
    InvalidNameChar { name: String, ch: char },
    /// The relational target named by the URI does not exist.
    NoSuchDatabase(String),
}

/// Everything a caller of the query layer can be told went wrong.  Per-cell
/// decode failures are never surfaced: they degrade to a null value instead.
#[derive(Debug, PartialEq)]
pub enum DbError {
    /// Malformed scheme, or a missing or invalid database name.
    InvalidConnectionString(UrlFault),
    /// An operation referenced a connection name with no live entry; carries
    /// that exact name.
    DatabaseNotLoaded(String),
    /// The backend could not be reached: connection refused or timed out.
    ConnectionFailed(String),
    /// Credentials were rejected by the backend.
    AuthenticationFailed(String),
    /// Credentials were accepted but grant no access to the database.
    AuthorizationFailed(String),
    /// A relational column's declared type has no decode strategy; carries the
    /// declared type name.  Aborts the whole query.
    UnsupportedDatatype(String),
    /// The command text did not parse as a document-store command object.
    MalformedCommand(String),
    /// Any other native driver failure, passed through with its message.
    BackendProtocolError(String),
}

} // verus!
