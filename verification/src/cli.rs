//! The boundary with the command line: the parsed arguments and the checks
//! that turn them into the pipeline's inputs. Argument definition, and the
//! check that each named file exists, are the caller's concern; the library
//! interprets the values it is handed.

use vstd::prelude::*;

use crate::errors::{CoreError, SelectError};
use crate::sql::{parse_statements, parser_error_text, query_as_select, sql_parses, sql_statement_count, statement_as_query};
use sqlparser::ast::Select;
use vstd::string::StrSliceExecFns;

verus! {

/// The parsed command line: the input files, the SQL query, and the
/// pretty-print flag.
pub struct Cli {
    /// The input files to process; each backs one table.
    pub file: Option<Vec<String>>,
    /// The SQL query to execute.
    pub sql: Option<String>,
    /// Whether to pretty-print the output.
    pub pretty: bool,
}

/// Whether `c` is whitespace, as `char::is_whitespace` decides it: a
/// function of the character alone.
pub uninterp spec fn is_space(c: char) -> bool;

/// Relies on `char::is_whitespace`: whether the character has the Unicode
/// White_Space property.
pub assume_specification[ char::is_whitespace ](c: char) -> (r: bool)
    ensures
        r == is_space(c),
;

/// Every character of the sequence is whitespace; in particular, an empty
/// sequence is all whitespace.
pub open spec fn all_space(s: Seq<char>) -> bool {
    forall|i: int| 0 <= i < s.len() ==> is_space(#[trigger] s[i])
}

/// Whether the string is empty or all whitespace.
pub fn is_blank(s: &str) -> (r: bool)
    ensures
        r == all_space(s@),
{
    let n: usize = s.unicode_len();
    let mut i: usize = 0;
    while i < n
        invariant
            i <= n,
            n == s@.len(),
            forall|j: int| 0 <= j < i ==> is_space(#[trigger] s@[j]),
        decreases n - i,
    {
        if !s.get_char(i).is_whitespace() {
            return false;
        }
        i += 1;
    }
    true
}

/// The input file paths from the command line. Fails with `NoInputFiles`
/// exactly when no file argument was given or the list is empty; otherwise
/// yields the paths unchanged, in order.
pub fn files_from(args: &Cli) -> (r: Result<Vec<String>, CoreError>)
    ensures
        r is Ok <==> (args.file matches Some(f) && f@.len() > 0),
        r matches Ok(files) ==> args.file matches Some(f) && files@ == f@,
        r matches Err(e) ==> e is NoInputFiles,
{
    match &args.file {
        None => Err(CoreError::NoInputFiles),
        Some(files) => {
            if files.len() == 0 {
                Err(CoreError::NoInputFiles)
            } else {
                let n = files.len();
                let mut out: Vec<String> = Vec::new();
                let mut i: usize = 0;
                while i < n
                    invariant
                        i <= n,
                        n == files@.len(),
                        out@ == files@.subrange(0, i as int),
                    decreases n - i,
                {
                    out.push(files[i].clone());
                    proof {
                        assert(out@ =~= files@.subrange(0, i + 1));
                    }
                    i += 1;
                }
                proof {
                    assert(files@.subrange(0, n as int) =~= files@);
                }
                Ok(out)
            }
        },
    }
}

/// The pretty-print flag from the command line.
pub fn pretty(args: &Cli) -> (r: bool)
    ensures
        r == args.pretty,
{
    args.pretty
}

/// Turn the SQL argument into exactly one parsed SELECT statement.
///
/// Fails with `NoQuery` exactly when no SQL was given, with `EmptyQuery`
/// exactly when the given SQL is empty or all whitespace, with
/// `ParseFailed` and the parser's message exactly when the SQL
/// collaborator rejects the text, and with `NotSingleStatement` exactly
/// when it parses the text into more or fewer than one statement. A text
/// parsed into exactly one statement reaches the last split, which the
/// opaque statement's own shape decides: a statement that is no query
/// fails with `NotQuery`, a query that is no plain SELECT with
/// `NotSelect`, and a plain SELECT is returned.
pub fn select_statement_from(args: &Cli) -> (r: Result<Select, SelectError>)
    ensures
        (r matches Err(SelectError::NoQuery)) <==> args.sql is None,
        (r matches Err(SelectError::EmptyQuery)) <==> (args.sql matches Some(q) && all_space(
            q@,
        )),
        (r matches Err(SelectError::ParseFailed(_))) <==> (args.sql matches Some(q)
            && !all_space(q@) && !sql_parses(q@)),
        (r matches Err(SelectError::NotSingleStatement)) <==> (args.sql matches Some(q)
            && !all_space(q@) && sql_parses(q@) && sql_statement_count(q@) != 1),
        (r is Ok || r matches Err(SelectError::NotQuery) || r matches Err(
            SelectError::NotSelect,
        )) <==> (args.sql matches Some(q) && !all_space(q@) && sql_parses(q@)
            && sql_statement_count(q@) == 1),
{
    let sql = match &args.sql {
        None => {
            return Err(SelectError::NoQuery);
        },
        Some(sql) => sql,
    };
    if is_blank(sql.as_str()) {
        return Err(SelectError::EmptyQuery);
    }
    let statements = match parse_statements(sql.as_str()) {
        Ok(statements) => statements,
        Err(e) => {
            return Err(SelectError::ParseFailed(parser_error_text(&e)));
        },
    };
    if statements.len() != 1 {
        return Err(SelectError::NotSingleStatement);
    }
    let query = match statement_as_query(&statements[0]) {
        Some(query) => query,
        None => {
            return Err(SelectError::NotQuery);
        },
    };
    match query_as_select(query) {
        Some(select) => Ok(select),
        None => Err(SelectError::NotSelect),
    }
}

} // verus!
