use jsonquery::cli::{select_statement_from, Cli};
use jsonquery::errors::CoreError;
use jsonquery::output::render_output;
use jsonquery::query::load_data;
use jsonquery::tables::{tables_from_files, tables_from_select, verify_files_and_tables_match};

fn cli_with_sql(sql: &str) -> Cli {
    Cli { file: None, sql: Some(sql.to_string()), pretty: false }
}

#[test]
fn validation_rejects_an_unresolved_table() {
    let files = vec!["a.json".to_string()];
    let catalog = tables_from_files(&files).unwrap();
    let select = select_statement_from(&cli_with_sql("SELECT * FROM a, b")).unwrap();
    let tables = tables_from_select(&select).unwrap();
    let r = verify_files_and_tables_match(&catalog, &tables);
    assert!(matches!(r, Err(CoreError::TableNotFound(id)) if id == "B"));
}

#[test]
fn validation_accepts_a_resolved_set() {
    let files = vec!["a.json".to_string(), "b.json".to_string()];
    let catalog = tables_from_files(&files).unwrap();
    let select = select_statement_from(&cli_with_sql("SELECT * FROM b")).unwrap();
    let tables = tables_from_select(&select).unwrap();
    assert!(verify_files_and_tables_match(&catalog, &tables).is_ok());
}

#[test]
fn validation_of_an_empty_referenced_set_succeeds() {
    let files = vec!["a.json".to_string()];
    let catalog = tables_from_files(&files).unwrap();
    let select = select_statement_from(&cli_with_sql("SELECT 1")).unwrap();
    let tables = tables_from_select(&select).unwrap();
    assert!(verify_files_and_tables_match(&catalog, &tables).is_ok());
}

#[test]
fn merge_mode_folds_every_document() {
    let files = vec!["a.json".to_string(), "b.json".to_string()];
    let catalog = tables_from_files(&files).unwrap();
    let contents = vec!["{\"x\":1}".to_string(), "{\"y\":2}".to_string()];
    let data = load_data(&catalog, &contents).unwrap();
    let select = select_statement_from(&cli_with_sql("SELECT 1")).unwrap();
    let tables = tables_from_select(&select).unwrap();
    assert!(tables.is_empty());
    let docs = render_output(&data, &tables, false).unwrap();
    assert_eq!(docs, vec!["{\"x\":1,\"y\":2}".to_string()]);
}

#[test]
fn merge_mode_later_document_wins_at_a_leaf() {
    let files = vec!["a.json".to_string(), "b.json".to_string()];
    let catalog = tables_from_files(&files).unwrap();
    let contents = vec!["{\"x\":1,\"z\":1}".to_string(), "{\"x\":2}".to_string()];
    let data = load_data(&catalog, &contents).unwrap();
    let select = select_statement_from(&cli_with_sql("SELECT 1")).unwrap();
    let tables = tables_from_select(&select).unwrap();
    let docs = render_output(&data, &tables, false).unwrap();
    assert_eq!(docs, vec!["{\"x\":2,\"z\":1}".to_string()]);
}

#[test]
fn selective_mode_emits_only_referenced_tables() {
    let files = vec!["a.json".to_string(), "b.json".to_string()];
    let catalog = tables_from_files(&files).unwrap();
    let contents = vec!["{\"x\":1}".to_string(), "{\"y\":2}".to_string()];
    let data = load_data(&catalog, &contents).unwrap();
    // Every cataloged file is loaded, referenced or not.
    assert_eq!(data.len(), 2);
    let select = select_statement_from(&cli_with_sql("SELECT * FROM a")).unwrap();
    let tables = tables_from_select(&select).unwrap();
    let docs = render_output(&data, &tables, false).unwrap();
    assert_eq!(docs, vec!["{\"x\":1}".to_string()]);
}

#[test]
fn selective_mode_reports_a_missing_document() {
    let files = vec!["a.json".to_string()];
    let catalog = tables_from_files(&files).unwrap();
    let contents = vec!["{\"x\":1}".to_string()];
    let data = load_data(&catalog, &contents).unwrap();
    let select = select_statement_from(&cli_with_sql("SELECT * FROM a, b")).unwrap();
    let tables = tables_from_select(&select).unwrap();
    let r = render_output(&data, &tables, false);
    assert!(matches!(r, Err(CoreError::TableNotFound(id)) if id == "B"));
}

#[test]
fn loading_rejects_invalid_json_naming_the_path() {
    let files = vec!["a.json".to_string(), "b.json".to_string()];
    let catalog = tables_from_files(&files).unwrap();
    let contents = vec!["{\"x\":1}".to_string(), "not json".to_string()];
    let r = load_data(&catalog, &contents);
    assert!(matches!(r, Err(CoreError::JsonParseError(p)) if p == "b.json"));
}

#[test]
fn pretty_output_is_indented_and_compact_is_one_line() {
    let files = vec!["a.json".to_string()];
    let catalog = tables_from_files(&files).unwrap();
    let contents = vec!["{\"x\":1,\"y\":[1,2]}".to_string()];
    let data = load_data(&catalog, &contents).unwrap();
    let select = select_statement_from(&cli_with_sql("SELECT * FROM a")).unwrap();
    let tables = tables_from_select(&select).unwrap();
    let compact = render_output(&data, &tables, false).unwrap();
    assert!(!compact[0].contains('\n'));
    let indented = render_output(&data, &tables, true).unwrap();
    assert!(indented[0].contains('\n'));
}

#[test]
fn selective_round_trip_preserves_the_document() {
    let text = "{\"n\":[1,2,{\"k\":\"v\"}],\"b\":true,\"s\":\"t\",\"f\":1.5,\"z\":null}";
    let files = vec!["doc.json".to_string()];
    let catalog = tables_from_files(&files).unwrap();
    let contents = vec![text.to_string()];
    let data = load_data(&catalog, &contents).unwrap();
    let select = select_statement_from(&cli_with_sql("SELECT * FROM doc")).unwrap();
    let tables = tables_from_select(&select).unwrap();
    let docs = render_output(&data, &tables, false).unwrap();
    assert_eq!(docs.len(), 1);
    let reparsed: serde_json::Value = serde_json::from_str(&docs[0]).unwrap();
    let original: serde_json::Value = serde_json::from_str(text).unwrap();
    assert_eq!(reparsed, original);
}
