use registry::{KeyStore, MemoryStore, StoreError, StoreValueData};

fn store_with(paths: &[&str]) -> MemoryStore {
    let mut store = MemoryStore::new();
    for path in paths {
        store.add_key(path);
    }
    store
}

#[test]
fn new_store_is_empty() {
    let store = MemoryStore::new();
    assert!(!store.has_key("HKLM"));
    assert!(!store.has_key(""));
    assert!(store.created_keys().is_empty());
    assert!(matches!(store.open("HKLM"), Err(StoreError::NotFound)));
}

#[test]
fn open_finds_exactly_the_keys_that_exist() {
    let store = store_with(&["HKLM", "HKLM\\A"]);
    assert_eq!(store.open("HKLM\\A").unwrap().path(), "HKLM\\A");
    assert!(matches!(store.open("HKLM\\a"), Err(StoreError::NotFound)));
    assert!(matches!(store.open("HKLM\\A\\"), Err(StoreError::NotFound)));
}

#[test]
fn create_subkey_makes_the_child_and_records_it() {
    let mut store = store_with(&["HKLM"]);
    let root = store.open("HKLM").unwrap();
    let child = store.create_subkey(&root, "A").unwrap();
    assert_eq!(child.path(), "HKLM\\A");
    assert!(store.has_key("HKLM\\A"));
    assert_eq!(store.created_keys(), vec!["HKLM\\A".to_string()]);
}

#[test]
fn create_subkey_of_an_existing_child_opens_it() {
    let mut store = store_with(&["HKLM", "HKLM\\A"]);
    let root = store.open("HKLM").unwrap();
    let child = store.create_subkey(&root, "A").unwrap();
    assert_eq!(child.path(), "HKLM\\A");
    assert!(store.created_keys().is_empty());
}

#[test]
fn create_subkey_refuses_a_name_with_a_separator() {
    let mut store = store_with(&["HKLM"]);
    let root = store.open("HKLM").unwrap();
    assert!(matches!(store.create_subkey(&root, "A\\B"), Err(StoreError::Failed(_))));
    assert!(!store.has_key("HKLM\\A\\B"));
    assert!(store.created_keys().is_empty());
}

#[test]
fn create_subkey_under_a_deleted_parent_fails() {
    let mut store = store_with(&["HKLM", "HKLM\\A"]);
    let parent = store.open("HKLM\\A").unwrap();
    store.delete_subtree(&parent).unwrap();
    assert!(matches!(store.create_subkey(&parent, "B"), Err(StoreError::Failed(_))));
    assert!(!store.has_key("HKLM\\A\\B"));
}

#[test]
fn values_are_written_read_replaced_and_deleted() {
    let mut store = store_with(&["HKLM"]);
    let key = store.open("HKLM").unwrap();
    assert!(matches!(store.get_value(&key, "V"), Err(StoreError::NotFound)));
    store.set_value(&key, "V", &StoreValueData::DWord(1)).unwrap();
    store.set_value(&key, "W", &StoreValueData::QWord(7)).unwrap();
    store.set_value(&key, "V", &StoreValueData::DWord(2)).unwrap();
    let value = store.get_value(&key, "V").unwrap();
    assert_eq!(value.key_path, "HKLM");
    assert_eq!(value.name, "V");
    assert!(matches!(value.data, StoreValueData::DWord(2)));
    store.delete_value(&key, "V").unwrap();
    assert!(matches!(store.get_value(&key, "V"), Err(StoreError::NotFound)));
    assert!(matches!(store.delete_value(&key, "V"), Err(StoreError::NotFound)));
    assert!(matches!(store.value("HKLM", "W"), Some(StoreValueData::QWord(7))));
}

#[test]
fn the_unnamed_value_is_a_value_of_its_own() {
    let mut store = store_with(&["HKLM"]);
    let key = store.open("HKLM").unwrap();
    store.set_value(&key, "", &StoreValueData::String("default".to_string())).unwrap();
    assert!(matches!(store.value("HKLM", ""), Some(StoreValueData::String(s)) if s == "default"));
    assert!(store.value("HKLM", " ").is_none());
}

#[test]
fn set_value_under_a_missing_key_fails() {
    let mut store = store_with(&["HKLM", "HKLM\\A"]);
    let key = store.open("HKLM\\A").unwrap();
    store.delete_subtree(&key).unwrap();
    assert!(matches!(
        store.set_value(&key, "V", &StoreValueData::NoData),
        Err(StoreError::Failed(_))
    ));
    assert!(store.value("HKLM\\A", "V").is_none());
}

#[test]
fn delete_subtree_takes_the_keys_below_and_their_values() {
    let mut store = store_with(&["HKLM", "HKLM\\A", "HKLM\\A\\B", "HKLM\\AB", "HKLM\\C"]);
    for path in ["HKLM\\A", "HKLM\\A\\B", "HKLM\\AB"] {
        let key = store.open(path).unwrap();
        store.set_value(&key, "V", &StoreValueData::DWord(5)).unwrap();
    }
    let key = store.open("HKLM\\A").unwrap();
    store.delete_subtree(&key).unwrap();
    assert!(!store.has_key("HKLM\\A"));
    assert!(!store.has_key("HKLM\\A\\B"));
    assert!(store.has_key("HKLM\\AB"));
    assert!(store.has_key("HKLM\\C"));
    assert!(store.has_key("HKLM"));
    assert!(store.value("HKLM\\A", "V").is_none());
    assert!(store.value("HKLM\\A\\B", "V").is_none());
    assert!(matches!(store.value("HKLM\\AB", "V"), Some(StoreValueData::DWord(5))));
    assert!(matches!(store.delete_subtree(&key), Err(StoreError::NotFound)));
}

#[test]
fn a_key_created_again_holds_no_values() {
    let mut store = store_with(&["HKLM", "HKLM\\A"]);
    let key = store.open("HKLM\\A").unwrap();
    store.set_value(&key, "V", &StoreValueData::DWord(5)).unwrap();
    store.delete_subtree(&key).unwrap();
    let root = store.open("HKLM").unwrap();
    let again = store.create_subkey(&root, "A").unwrap();
    assert!(matches!(store.get_value(&again, "V"), Err(StoreError::NotFound)));
}
