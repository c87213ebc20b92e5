use jsonquery::cli::{files_from, pretty, select_statement_from, Cli};
use jsonquery::errors::{CoreError, SelectError};
use jsonquery::tables::{tables_from_relations, tables_from_select};

fn cli_with_sql(sql: &str) -> Cli {
    Cli { file: None, sql: Some(sql.to_string()), pretty: false }
}

#[test]
fn extract_single_table() {
    let select = select_statement_from(&cli_with_sql("SELECT * FROM orders")).unwrap();
    let tables = tables_from_select(&select).unwrap();
    assert_eq!(tables.len(), 1);
    assert_eq!(tables.id_at(0).as_str(), "ORDERS");
}

#[test]
fn extract_two_tables() {
    let select = select_statement_from(&cli_with_sql("SELECT * FROM a, b")).unwrap();
    let tables = tables_from_select(&select).unwrap();
    assert_eq!(tables.len(), 2);
    assert_eq!(tables.id_at(0).as_str(), "A");
    assert_eq!(tables.id_at(1).as_str(), "B");
    assert!(tables.contains(&"A".to_string()));
    assert!(!tables.contains(&"C".to_string()));
}

#[test]
fn extract_from_less_statement_yields_empty_set() {
    let select = select_statement_from(&cli_with_sql("SELECT 1")).unwrap();
    let tables = tables_from_select(&select).unwrap();
    assert!(tables.is_empty());
}

#[test]
fn extract_collapses_duplicates() {
    let select = select_statement_from(&cli_with_sql("SELECT * FROM a, A, a")).unwrap();
    let tables = tables_from_select(&select).unwrap();
    assert_eq!(tables.len(), 1);
    assert_eq!(tables.id_at(0).as_str(), "A");
}

#[test]
fn extract_rejects_a_join() {
    let select = select_statement_from(&cli_with_sql("SELECT * FROM a JOIN b ON 1 = 1")).unwrap();
    let r = tables_from_select(&select);
    assert!(matches!(r, Err(CoreError::UnsupportedRelation)));
}

#[test]
fn extract_rejects_a_derived_table() {
    let select = select_statement_from(&cli_with_sql("SELECT * FROM (SELECT 1) t")).unwrap();
    let r = tables_from_select(&select);
    assert!(matches!(r, Err(CoreError::UnsupportedRelation)));
}

#[test]
fn extract_from_relations_rejects_any_unnamed_item() {
    let raw = vec![Some("a".to_string()), None];
    let r = tables_from_relations(&raw);
    assert!(matches!(r, Err(CoreError::UnsupportedRelation)));
}

#[test]
fn select_statement_errors() {
    let none = Cli { file: None, sql: None, pretty: false };
    assert!(matches!(select_statement_from(&none), Err(SelectError::NoQuery)));
    assert!(matches!(
        select_statement_from(&cli_with_sql("   \t\n")),
        Err(SelectError::EmptyQuery)
    ));
    assert!(matches!(
        select_statement_from(&cli_with_sql("SELECT 1; SELECT 2")),
        Err(SelectError::NotSingleStatement)
    ));
    assert!(matches!(
        select_statement_from(&cli_with_sql("INSERT INTO t VALUES (1)")),
        Err(SelectError::NotQuery)
    ));
    assert!(matches!(
        select_statement_from(&cli_with_sql("SELECT 1 UNION SELECT 2")),
        Err(SelectError::NotSelect)
    ));
    assert!(matches!(
        select_statement_from(&cli_with_sql("%%%")),
        Err(SelectError::ParseFailed(_))
    ));
}

#[test]
fn files_from_requires_a_non_empty_list() {
    let none = Cli { file: None, sql: None, pretty: false };
    assert!(matches!(files_from(&none), Err(CoreError::NoInputFiles)));
    let empty = Cli { file: Some(Vec::new()), sql: None, pretty: false };
    assert!(matches!(files_from(&empty), Err(CoreError::NoInputFiles)));
    let some = Cli {
        file: Some(vec!["a.json".to_string(), "b.json".to_string()]),
        sql: None,
        pretty: true,
    };
    assert_eq!(files_from(&some).unwrap(), vec!["a.json".to_string(), "b.json".to_string()]);
    assert!(pretty(&some));
}
