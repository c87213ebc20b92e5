use jsonquery::errors::CoreError;
use jsonquery::tables::{file_stem, tables_from_files};

#[test]
fn stem_strips_directory_and_extension() {
    assert_eq!(file_stem("a.json").as_deref(), Some("a"));
    assert_eq!(file_stem("dir/sub/b.json").as_deref(), Some("b"));
    assert_eq!(file_stem("noext").as_deref(), Some("noext"));
    assert_eq!(file_stem("archive.tar.gz").as_deref(), Some("archive.tar"));
    assert_eq!(file_stem(".hidden").as_deref(), Some(".hidden"));
    assert_eq!(file_stem("trailing.").as_deref(), Some("trailing"));
}

#[test]
fn stem_fails_without_a_file_name() {
    assert_eq!(file_stem(""), None);
    assert_eq!(file_stem("dir/"), None);
    assert_eq!(file_stem("/"), None);
    assert_eq!(file_stem("."), None);
    assert_eq!(file_stem(".."), None);
    assert_eq!(file_stem("dir/.."), None);
    assert_eq!(file_stem("..."), Some("..".to_string()));
}

#[test]
fn catalog_from_files() {
    let files = vec!["a.json".to_string(), "B-c.json".to_string()];
    let catalog = tables_from_files(&files).unwrap();
    assert_eq!(catalog.len(), 2);
    assert_eq!(catalog.id_at(0).as_str(), "A");
    assert_eq!(catalog.path_at(0).as_str(), "a.json");
    assert_eq!(catalog.id_at(1).as_str(), "B_C");
    assert_eq!(catalog.path_at(1).as_str(), "B-c.json");
    assert!(catalog.contains_id(&"A".to_string()));
    assert!(catalog.contains_id(&"B_C".to_string()));
    assert!(!catalog.contains_id(&"B-C".to_string()));
}

#[test]
fn catalog_later_file_wins_on_equal_identifiers() {
    let files = vec!["dir/a.json".to_string(), "other/A.json".to_string()];
    let catalog = tables_from_files(&files).unwrap();
    assert_eq!(catalog.len(), 1);
    assert_eq!(catalog.id_at(0).as_str(), "A");
    assert_eq!(catalog.path_at(0).as_str(), "other/A.json");
}

#[test]
fn catalog_rejects_a_path_without_a_stem() {
    let files = vec!["ok.json".to_string(), "broken/".to_string()];
    let r = tables_from_files(&files);
    assert!(matches!(r, Err(CoreError::InvalidTableName(p)) if p == "broken/"));
    let dots = vec!["dir/..".to_string()];
    let r = tables_from_files(&dots);
    assert!(matches!(r, Err(CoreError::InvalidTableName(p)) if p == "dir/.."));
}

#[test]
fn catalog_of_no_files_is_empty() {
    let files: Vec<String> = Vec::new();
    let catalog = tables_from_files(&files).unwrap();
    assert_eq!(catalog.len(), 0);
}
