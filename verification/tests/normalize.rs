use jsonquery::names::sql_table_name;

#[test]
fn normalize_uppercases_and_replaces_hyphens() {
    assert_eq!(sql_table_name("line-items"), "LINE_ITEMS");
    assert_eq!(sql_table_name("a-b-c"), "A_B_C");
    assert_eq!(sql_table_name("under_score"), "UNDER_SCORE");
}

#[test]
fn normalize_is_case_insensitive_on_examples() {
    assert_eq!(sql_table_name("orders"), sql_table_name("ORDERS"));
    assert_eq!(sql_table_name("orders"), "ORDERS");
    assert_eq!(sql_table_name("OrDeRs"), "ORDERS");
}

#[test]
fn normalize_is_hyphen_insensitive_on_examples() {
    assert_eq!(sql_table_name("line-items"), sql_table_name("line_items"));
    assert_eq!(sql_table_name("LINE-ITEMS"), sql_table_name("line_items"));
}

#[test]
fn normalize_is_idempotent_on_examples() {
    let once = sql_table_name("Mixed-Case-name");
    assert_eq!(sql_table_name(&once), once);
    let empty = sql_table_name("");
    assert_eq!(sql_table_name(&empty), empty);
}

#[test]
fn normalize_keeps_whitespace_and_punctuation() {
    assert_eq!(sql_table_name("  a b  "), "  A B  ");
    assert_eq!(sql_table_name("a.b/c"), "A.B/C");
}

#[test]
fn normalize_uppercases_non_ascii() {
    assert_eq!(sql_table_name("café"), "CAFÉ");
    assert_eq!(sql_table_name("straße"), "STRASSE");
}
