use respkv::mem::MemDB;
use respkv::resp::commands::structs::{Data, Value};

fn string_entry(text: &str, expires_at: Option<u64>) -> Data {
    Data { value: Value::String(text.as_bytes().to_vec()), expires_at }
}

#[test]
fn a_new_store_holds_nothing() {
    let db: MemDB<Data> = MemDB::new();
    assert_eq!(db.get("k"), None);
    assert_eq!(db.get(""), None);
}

#[test]
fn what_is_set_is_got() {
    let mut db: MemDB<Data> = MemDB::new();
    db.set("k".to_string(), string_entry("v", None));
    assert_eq!(db.get("k"), Some(&string_entry("v", None)));
    assert_eq!(db.get("K"), None);
    assert_eq!(db.get("k "), None);
}

#[test]
fn set_replaces_the_entry_whole() {
    let mut db: MemDB<Data> = MemDB::new();
    db.set("k".to_string(), string_entry("v", Some(10)));
    db.set("k".to_string(), Data { value: Value::List(vec!["a".to_string()]), expires_at: None });
    assert_eq!(
        db.get("k"),
        Some(&Data { value: Value::List(vec!["a".to_string()]), expires_at: None })
    );
}

#[test]
fn set_leaves_the_other_keys_alone() {
    let mut db: MemDB<Data> = MemDB::new();
    db.set("a".to_string(), string_entry("1", None));
    db.set("b".to_string(), string_entry("2", Some(5)));
    db.set("a".to_string(), string_entry("3", None));
    assert_eq!(db.get("a"), Some(&string_entry("3", None)));
    assert_eq!(db.get("b"), Some(&string_entry("2", Some(5))));
}

#[test]
fn the_store_keeps_entries_whose_time_has_come() {
    let mut db: MemDB<Data> = MemDB::new();
    db.set("k".to_string(), string_entry("v", Some(0)));
    let found = db.get("k");
    assert_eq!(found, Some(&string_entry("v", Some(0))));
    assert!(found.unwrap().expired(0));
    assert_eq!(db.get("k"), Some(&string_entry("v", Some(0))));
}

#[test]
fn the_store_holds_entries_of_any_type() {
    let mut db: MemDB<u32> = MemDB::new();
    db.set("one".to_string(), 1);
    db.set("two".to_string(), 2);
    assert_eq!(db.get("one"), Some(&1));
    assert_eq!(db.get("two"), Some(&2));
    assert_eq!(db.get("three"), None);
}

#[test]
fn an_entry_without_expiry_never_expires() {
    let entry = string_entry("v", None);
    assert!(!entry.expired(0));
    assert!(!entry.expired(u64::MAX));
}

#[test]
fn an_entry_expires_at_its_time_and_not_before() {
    let entry = string_entry("v", Some(100));
    assert!(!entry.expired(0));
    assert!(!entry.expired(99));
    assert!(entry.expired(100));
    assert!(entry.expired(101));
    assert!(entry.expired(u64::MAX));
}

#[test]
fn the_bytes_of_a_string_value() {
    assert_eq!(Value::String(vec![1, 2, 255]).to_vec(), vec![1, 2, 255]);
    assert_eq!(Value::String(vec![]).to_vec(), Vec::<u8>::new());
}
