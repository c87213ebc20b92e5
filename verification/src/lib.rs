//! Query a set of JSON files as ad-hoc relational tables with a single SQL
//! SELECT statement.
//!
//! Each input file backs one logical table whose identifier is derived from
//! the file's base name; a parsed SELECT's FROM clause names the tables a
//! query refers to. The library builds the table catalog, extracts the
//! referenced table set, validates the two against each other, parses the
//! files' JSON payloads, and decides whether one merged document or one
//! document per referenced table is emitted.

pub mod cli;
pub mod errors;
pub mod json;
pub mod names;
pub mod output;
pub mod query;
pub mod sql;
pub mod tables;
