//! The record store against a real in-memory database.
use keeper::store::Store;

fn fresh_store_for_store_tests() -> Store {
    let db = redb::Database::builder()
        .create_with_backend(redb::backends::InMemoryBackend::new())
        .unwrap();
    Store::new(db)
}

#[test]
fn store_write_then_read_returns_value() {
    let mut store = fresh_store_for_store_tests();
    assert_eq!(store.read_entry("t", "k").unwrap(), None);
    store.write_entry("t", "k", "v1").unwrap();
    assert_eq!(store.read_entry("t", "k").unwrap(), Some("v1".to_string()));
    store.write_entry("t", "k", "v2").unwrap();
    assert_eq!(store.read_entry("t", "k").unwrap(), Some("v2".to_string()));
}

#[test]
fn store_delete_removes_entry() {
    let mut store = fresh_store_for_store_tests();
    store.write_entry("t", "k", "v").unwrap();
    store.delete_entry("t", "k").unwrap();
    assert_eq!(store.read_entry("t", "k").unwrap(), None);
    store.delete_entry("t", "missing").unwrap();
}

#[test]
fn store_tables_are_independent() {
    let mut store = fresh_store_for_store_tests();
    store.write_entry("a", "k", "va").unwrap();
    store.write_entry("b", "k", "vb").unwrap();
    assert_eq!(store.read_entry("a", "k").unwrap(), Some("va".to_string()));
    assert_eq!(store.read_entry("b", "k").unwrap(), Some("vb".to_string()));
}

#[test]
fn store_read_table_lists_each_key_once() {
    let mut store = fresh_store_for_store_tests();
    store.write_entry("t", "a", "1").unwrap();
    store.write_entry("t", "b", "2").unwrap();
    store.write_entry("t", "a", "3").unwrap();
    let mut pairs = store.read_table("t").unwrap();
    pairs.sort();
    assert_eq!(
        pairs,
        vec![("a".to_string(), "3".to_string()), ("b".to_string(), "2".to_string())]
    );
}
