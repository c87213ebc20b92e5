use vstd::prelude::*;

verus! {

/// A failure of the table-resolution and data-routing pipeline.
///
/// Every variant is fatal: the pipeline stops at the first error and no
/// partial output is produced.
#[derive(Debug, Clone)]
pub enum CoreError {
    /// No input files were supplied.
    NoInputFiles,
    /// A file path yields no usable base name; holds the offending path.
    InvalidTableName(String),
    /// A FROM-clause entry is not a bare table reference.
    UnsupportedRelation,
    /// A referenced table identifier has no backing entry; holds the
    /// identifier.
    TableNotFound(String),
    /// A cataloged file could not be opened or read; holds the path.
    FileOpenError(String),
    /// A cataloged file's content is not valid JSON; holds the path.
    JsonParseError(String),
    /// Writing the output failed.
    SerializationError,
}

/// A failure while turning a raw SQL string into one SELECT statement.
///
/// These arise at the command-line boundary, before the pipeline proper
/// starts.
#[derive(Debug, Clone)]
pub enum SelectError {
    /// No SQL query was provided.
    NoQuery,
    /// The provided SQL query is empty or all whitespace.
    EmptyQuery,
    /// The SQL text could not be parsed; holds the parser's message.
    ParseFailed(String),
    /// The SQL text holds more or fewer than one statement.
    NotSingleStatement,
    /// The single statement is not a query.
    NotQuery,
    /// The query is not a plain SELECT.
    NotSelect,
}

} // verus!
