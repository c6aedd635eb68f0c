use record_store::execute::Query;
use record_store::record::{Record, StoreError};
use record_store::store::Store;

#[test]
fn new_store_is_empty() {
    let store = Store::new();
    assert_eq!(store.len(), 0);
    assert_eq!(store.select(&Query::All), Vec::<Record>::new());
}

#[test]
fn inserted_record_is_selected_by_key() {
    let mut store = Store::new();
    assert_eq!(store.insert(Record::new("x", 1)), Ok(()));
    assert_eq!(store.select(&Query::Key("x".to_string())), vec![Record::new("x", 1)]);
    assert_eq!(store.select(&Query::Key("y".to_string())), Vec::<Record>::new());
}

#[test]
fn insert_replaces_in_place() {
    let mut store = Store::new();
    store.insert(Record::new("a", 1)).unwrap();
    store.insert(Record::new("b", 2)).unwrap();
    store.insert(Record::new("c", 3)).unwrap();
    store.insert(Record::new("b", 20)).unwrap();
    assert_eq!(store.len(), 3);
    assert_eq!(
        store.select(&Query::All),
        vec![Record::new("a", 1), Record::new("b", 20), Record::new("c", 3)]
    );
}

#[test]
fn empty_key_is_turned_down() {
    let mut store = Store::new();
    store.insert(Record::new("a", 1)).unwrap();
    assert_eq!(store.insert(Record::new("", 9)), Err(StoreError::EmptyKey));
    assert_eq!(store.select(&Query::All), vec![Record::new("a", 1)]);
}

#[test]
fn same_write_twice_is_one_write() {
    let mut once = Store::new();
    once.insert(Record::new("k", 7)).unwrap();
    let mut twice = Store::new();
    twice.insert(Record::new("k", 7)).unwrap();
    twice.insert(Record::new("k", 7)).unwrap();
    assert_eq!(once.select(&Query::All), twice.select(&Query::All));
    assert_eq!(twice.len(), 1);
}

#[test]
fn select_leaves_the_store_unchanged() {
    let mut store = Store::new();
    store.insert(Record::new("a", 1)).unwrap();
    store.insert(Record::new("b", 2)).unwrap();
    let first = store.select(&Query::All);
    let _ = store.select(&Query::Key("a".to_string()));
    let _ = store.select(&Query::Key("zz".to_string()));
    assert_eq!(store.select(&Query::All), first);
}

#[test]
fn keys_differ_by_case_and_length() {
    let mut store = Store::new();
    store.insert(Record::new("k", 1)).unwrap();
    store.insert(Record::new("K", 2)).unwrap();
    store.insert(Record::new("kk", 3)).unwrap();
    assert_eq!(store.len(), 3);
    assert_eq!(store.select(&Query::Key("K".to_string())), vec![Record::new("K", 2)]);
}

#[test]
fn error_messages_are_plain_text() {
    assert_eq!(StoreError::EmptyKey.message(), "record key is empty");
    assert_eq!(StoreError::Closed.message(), "store is closed");
}

#[test]
fn duplicate_equals_the_record() {
    let record = Record::new("x", -4);
    assert_eq!(record.duplicate(), record);
}
