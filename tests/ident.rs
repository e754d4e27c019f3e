use collection_store::ident::{sanitize, IdentifierError};
use collection_store::sql::{
    contains_text, create_table_sql, delete_record_sql, drop_table_sql, engine_error,
    insert_record_sql, is_missing_table, rename_check, rename_table_sql, select_record_sql, select_records_sql, single_row_outcome,
    tolerate_missing_table, update_record_sql,
};
use collection_store::model::StoreError;

#[test]
fn sanitize_accepts_identifiers() {
    for ok in ["notes", "_x", "A_b_9", "a"] {
        assert_eq!(sanitize(ok).unwrap().as_str(), ok);
    }
    let longest = "a".repeat(64);
    assert!(sanitize(&longest).is_ok());
}

#[test]
fn sanitize_error_kinds() {
    assert_eq!(sanitize("").err(), Some(IdentifierError::Empty));
    assert_eq!(sanitize(&"a".repeat(65)).err(), Some(IdentifierError::TooLong));
    assert_eq!(sanitize("1abc").err(), Some(IdentifierError::LeadingDigit));
    assert_eq!(sanitize("a b").err(), Some(IdentifierError::InvalidChar));
    assert_eq!(sanitize("x'; DROP TABLE users; --").err(), Some(IdentifierError::InvalidChar));
    assert_eq!(sanitize("é").err(), Some(IdentifierError::InvalidChar));
}

#[test]
fn table_name_has_prefix() {
    assert_eq!(sanitize("notes").unwrap().table_name(), "_collections_notes");
}

#[test]
fn statement_texts() {
    let n = sanitize("notes").unwrap();
    let m = sanitize("memo").unwrap();
    assert_eq!(
        create_table_sql(&n),
        "CREATE TABLE IF NOT EXISTS _collections_notes (id INTEGER PRIMARY KEY AUTOINCREMENT, entry TEXT NOT NULL)"
    );
    assert_eq!(insert_record_sql(&n), "INSERT INTO _collections_notes (entry) VALUES (?1)");
    assert_eq!(select_records_sql(&n), "SELECT id, entry FROM _collections_notes ORDER BY id");
    assert_eq!(select_record_sql(&n), "SELECT id, entry FROM _collections_notes WHERE id = ?1");
    assert_eq!(update_record_sql(&n), "UPDATE _collections_notes SET entry = ?1 WHERE id = ?2");
    assert_eq!(delete_record_sql(&n), "DELETE FROM _collections_notes WHERE id = ?1");
    assert_eq!(drop_table_sql(&n), "DROP TABLE IF EXISTS _collections_notes");
    assert_eq!(rename_table_sql(&n, &m), "ALTER TABLE _collections_notes RENAME TO _collections_memo");
}

#[test]
fn text_search() {
    assert!(contains_text("abc", ""));
    assert!(contains_text("abcabd", "abd"));
    assert!(!contains_text("ab", "abc"));
    assert!(is_missing_table("error returned from database: (code: 1) no such table: _collections_x"));
    assert!(!is_missing_table("database is locked"));
}

#[test]
fn affected_rows_outcome() {
    assert!(single_row_outcome(1).is_ok());
    assert!(matches!(single_row_outcome(0), Err(StoreError::NotFound)));
}

#[test]
fn engine_messages_map_to_errors() {
    assert!(matches!(engine_error("no such table: _collections_x"), StoreError::NotFound));
    assert!(matches!(
        engine_error("UNIQUE constraint failed: _collections.name"),
        StoreError::Conflict
    ));
    match engine_error("database is locked") {
        StoreError::Internal(m) => assert_eq!(m, "database is locked"),
        _ => panic!("expected an internal error"),
    }
    assert!(tolerate_missing_table("no such table: _collections_x").is_ok());
    assert!(matches!(tolerate_missing_table("disk I/O error"), Err(StoreError::Internal(_))));
}

#[test]
fn rename_decisions() {
    assert!(matches!(rename_check("a", "b", true), Err(StoreError::Conflict)));
    assert_eq!(rename_check("a", "b", false).unwrap(), true);
    assert_eq!(rename_check("a", "a", true).unwrap(), false);
}
