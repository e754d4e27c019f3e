use collection_store::codec::{decode, encode};
use collection_store::model::StoreError;
use collection_store::store::CollectionStore;

fn json(text: &str) -> String {
    encode(&decode(text).unwrap())
}

#[test]
fn notes_scenario() {
    let mut store = CollectionStore::new();
    let c = store.create_collection("notes", json("{}")).unwrap();
    assert_eq!(c.id, 1);
    assert_eq!(c.name, "notes");
    let e = store.create_collection_record("notes", json(r#"{"text":"hi"}"#)).unwrap();
    assert_eq!(e.id, 1);
    assert_eq!(e.entry, r#"{"text":"hi"}"#);
    let u = store.update_collection_record("notes", 1, json(r#"{"text":"bye"}"#)).unwrap();
    assert_eq!(u.id, 1);
    assert_eq!(u.entry, r#"{"text":"bye"}"#);
    let v = store.view_collection_record("notes", 1).unwrap();
    assert_eq!(v.entry, r#"{"text":"bye"}"#);
}

#[test]
fn create_then_view_collection() {
    let mut store = CollectionStore::new();
    store.create_collection("books", "{\"title\":\"string\"}".to_string()).unwrap();
    let c = store.view_collection("books").unwrap();
    assert_eq!(c.name, "books");
    assert_eq!(c.schema, "{\"title\":\"string\"}");
}

#[test]
fn duplicate_collection_conflicts() {
    let mut store = CollectionStore::new();
    store.create_collection("books", "{}".to_string()).unwrap();
    let r = store.create_collection("books", "{}".to_string());
    assert!(matches!(r, Err(StoreError::Conflict)));
    assert_eq!(store.list_collections().len(), 1);
}

#[test]
fn view_missing_collection_not_found() {
    let store = CollectionStore::new();
    assert!(matches!(store.view_collection("ghost"), Err(StoreError::NotFound)));
}

#[test]
fn invalid_names_refused_without_change() {
    let mut store = CollectionStore::new();
    store.create_collection_record("ok", "1".to_string()).unwrap();
    for bad in ["", "a-b", "x y", "t;DROP", "9lives", "naïve"] {
        assert!(matches!(store.list_collection_records(bad), Err(StoreError::InvalidIdentifier(_))));
        assert!(matches!(
            store.create_collection_record(bad, "1".to_string()),
            Err(StoreError::InvalidIdentifier(_))
        ));
        assert!(matches!(store.view_collection_record(bad, 1), Err(StoreError::InvalidIdentifier(_))));
        assert!(matches!(
            store.update_collection_record(bad, 1, "2".to_string()),
            Err(StoreError::InvalidIdentifier(_))
        ));
        assert!(matches!(store.delete_collection_record(bad, 1), Err(StoreError::InvalidIdentifier(_))));
        assert!(matches!(
            store.create_collection(bad, "{}".to_string()),
            Err(StoreError::InvalidIdentifier(_))
        ));
    }
    assert!(store.list_collections().is_empty());
    let rows = store.list_collection_records("ok").unwrap();
    assert_eq!(rows.len(), 1);
    assert_eq!(rows[0].entry, "1");
}

#[test]
fn record_round_trip_nested_and_unicode() {
    let mut store = CollectionStore::new();
    let text = json(r#"{"a":[1,{"b":null}],"s":"héllo ✓"}"#);
    let e = store.create_collection_record("docs", text.clone()).unwrap();
    let v = store.view_collection_record("docs", e.id).unwrap();
    assert_eq!(v.entry, text);
    assert_eq!(decode(&v.entry).unwrap(), decode(r#"{"a":[1,{"b":null}],"s":"héllo ✓"}"#).unwrap());
}

#[test]
fn record_ids_increase() {
    let mut store = CollectionStore::new();
    let a = store.create_collection_record("docs", "1".to_string()).unwrap();
    let b = store.create_collection_record("docs", "2".to_string()).unwrap();
    assert_eq!(a.id, 1);
    assert_eq!(b.id, 2);
    store.delete_collection_record("docs", 2).unwrap();
    let c = store.create_collection_record("docs", "3".to_string()).unwrap();
    assert_eq!(c.id, 3);
    let other = store.create_collection_record("other", "4".to_string()).unwrap();
    assert_eq!(other.id, 1);
}

#[test]
fn delete_then_view_record_not_found() {
    let mut store = CollectionStore::new();
    let e = store.create_collection_record("docs", "true".to_string()).unwrap();
    store.delete_collection_record("docs", e.id).unwrap();
    assert!(matches!(store.view_collection_record("docs", e.id), Err(StoreError::NotFound)));
    assert!(matches!(store.delete_collection_record("docs", e.id), Err(StoreError::NotFound)));
    assert!(matches!(
        store.update_collection_record("docs", e.id, "false".to_string()),
        Err(StoreError::NotFound)
    ));
}

#[test]
fn declared_collection_without_records_lists_empty() {
    let mut store = CollectionStore::new();
    store.create_collection("empty", "{}".to_string()).unwrap();
    let rows = store.list_collection_records("empty").unwrap();
    assert!(rows.is_empty());
    assert!(matches!(store.view_collection_record("empty", 1), Err(StoreError::NotFound)));
}

#[test]
fn rename_moves_records() {
    let mut store = CollectionStore::new();
    let c = store.create_collection("old_name", "{}".to_string()).unwrap();
    store.create_collection_record("old_name", "1".to_string()).unwrap();
    let u = store.update_collection("old_name", "new_name", "{\"v\":2}".to_string()).unwrap();
    assert_eq!(u.id, c.id);
    assert_eq!(u.name, "new_name");
    assert!(matches!(store.view_collection("old_name"), Err(StoreError::NotFound)));
    assert_eq!(store.list_collection_records("new_name").unwrap().len(), 1);
    assert!(store.list_collection_records("old_name").unwrap().is_empty());
}

#[test]
fn rename_onto_taken_name_conflicts() {
    let mut store = CollectionStore::new();
    store.create_collection("a", "{}".to_string()).unwrap();
    store.create_collection("b", "{}".to_string()).unwrap();
    assert!(matches!(store.update_collection("a", "b", "{}".to_string()), Err(StoreError::Conflict)));
    assert!(matches!(store.update_collection("zzz", "c", "{}".to_string()), Err(StoreError::NotFound)));
}

#[test]
fn delete_collection_drops_records() {
    let mut store = CollectionStore::new();
    store.create_collection("a", "{}".to_string()).unwrap();
    store.create_collection_record("a", "1".to_string()).unwrap();
    store.delete_collection("a").unwrap();
    assert!(matches!(store.view_collection("a"), Err(StoreError::NotFound)));
    assert!(store.list_collection_records("a").unwrap().is_empty());
    assert!(store.delete_collection("a").is_ok());
}

#[test]
fn list_collections_in_declaration_order() {
    let mut store = CollectionStore::new();
    store.create_collection("first", "{}".to_string()).unwrap();
    store.create_collection("second", "[]".to_string()).unwrap();
    let all = store.list_collections();
    assert_eq!(all.len(), 2);
    assert_eq!((all[0].id, all[0].name.as_str()), (1, "first"));
    assert_eq!((all[1].id, all[1].name.as_str()), (2, "second"));
}

#[test]
fn non_json_entry_reads_as_internal() {
    let mut store = CollectionStore::new();
    let e = store.create_collection_record("docs", "not json".to_string()).unwrap();
    assert!(matches!(store.view_collection_record("docs", e.id), Err(StoreError::Internal(_))));
    assert!(matches!(store.list_collection_records("docs"), Err(StoreError::Internal(_))));
    store.update_collection_record("docs", e.id, "{\"ok\":true}".to_string()).unwrap();
    assert_eq!(store.view_collection_record("docs", e.id).unwrap().entry, "{\"ok\":true}");
    assert_eq!(store.list_collection_records("docs").unwrap().len(), 1);
}

#[test]
fn rename_onto_undeclared_table_conflicts() {
    let mut store = CollectionStore::new();
    store.create_collection("a", "{}".to_string()).unwrap();
    store.create_collection_record("loose", "1".to_string()).unwrap();
    assert!(matches!(store.update_collection("a", "loose", "{}".to_string()), Err(StoreError::Conflict)));
    let same = store.update_collection("a", "a", "[]".to_string()).unwrap();
    assert_eq!(same.schema, "[]");
}
