//! The boundary with the SQL collaborator. SQL lexing and parsing are
//! delegated to the sqlparser crate; the library only walks the parsed
//! statement's structure. Every call into the crate stands behind a trusted
//! item here, and everything that decides on what came back is verified
//! elsewhere.

use vstd::prelude::*;

use sqlparser::ast::{Query, Select, Statement};
use sqlparser::parser::ParserError;

verus! {

#[verifier::external_type_specification]
#[verifier::external_body]
pub struct ExSelect(Select);

#[verifier::external_type_specification]
#[verifier::external_body]
pub struct ExStatement(Statement);

#[verifier::external_type_specification]
#[verifier::external_body]
pub struct ExQuery(Query);

#[verifier::external_type_specification]
#[verifier::external_body]
pub struct ExParserError(ParserError);

/// Whether `sqlparser::parser::Parser::parse_sql` with the generic dialect
/// accepts `s`: a function of the text alone.
pub uninterp spec fn sql_parses(s: Seq<char>) -> bool;

/// How many statements `sqlparser::parser::Parser::parse_sql` with the
/// generic dialect parses out of `s`, when it accepts `s`: a function of
/// the text alone.
pub uninterp spec fn sql_statement_count(s: Seq<char>) -> int;

/// Relies on `sqlparser::parser::Parser::parse_sql` with the generic
/// dialect: parses SQL text into a list of statements, or reports a parse
/// error; whether it succeeds, and into how many statements, depends on
/// the text alone.
#[verifier::external_body]
pub(crate) fn parse_statements(sql: &str) -> (r: Result<Vec<Statement>, ParserError>)
    ensures
        r is Ok <==> sql_parses(sql@),
        r matches Ok(v) ==> v@.len() == sql_statement_count(sql@),
{
    sqlparser::parser::Parser::parse_sql(&sqlparser::dialect::GenericDialect {}, sql)
}

/// Relies on `sqlparser::ast::Statement`: tells the `Query` variant apart
/// from every other kind of statement.
#[verifier::external_body]
pub(crate) fn statement_as_query(stmt: &Statement) -> (r: Option<&Query>) {
    match stmt {
        Statement::Query(q) => Some(q.as_ref()),
        _ => None,
    }
}

/// Relies on `sqlparser::ast::SetExpr::as_select` and `Select::clone`:
/// yields the query's body when it is a plain SELECT, and `None` when it
/// is anything else (a set operation, a VALUES list, ...).
#[verifier::external_body]
pub(crate) fn query_as_select(q: &Query) -> (r: Option<Select>) {
    q.body.as_select().cloned()
}

/// Relies on `sqlparser::parser::ParserError`'s `Display`: renders the
/// parse error as its human-readable message.
#[verifier::external_body]
pub(crate) fn parser_error_text(e: &ParserError) -> (r: String) {
    e.to_string()
}

/// Relies on `sqlparser::ast::TableWithJoins` and `ObjectName`'s `Display`:
/// for each FROM item, the rendered name of its relation when the item is
/// a bare named table — no joins attached and no other table factor. For
/// any other form (a join chain, a derived table, a table function, ...)
/// the item yields `None`.
#[verifier::external_body]
pub(crate) fn relation_names(select: &Select) -> (r: Vec<Option<String>>) {
    select
        .from
        .iter()
        .map(|t| match &t.relation {
            sqlparser::ast::TableFactor::Table { name, .. } if t.joins.is_empty() => {
                Some(name.to_string())
            },
            _ => None,
        })
        .collect()
}

} // verus!
