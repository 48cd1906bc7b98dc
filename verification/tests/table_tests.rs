use poh::table::KeyedTable;

#[test]
fn table_insert_then_get_gives_value_back() {
    let mut t: KeyedTable<u32> = KeyedTable::new();
    assert_eq!(t.len(), 0);
    t.insert("alice".to_string(), 1);
    t.insert("bob".to_string(), 2);
    assert_eq!(t.get(&"alice".to_string()), Some(&1));
    assert_eq!(t.get(&"bob".to_string()), Some(&2));
    assert_eq!(t.get(&"carol".to_string()), None);
    assert_eq!(t.len(), 2);
}

#[test]
fn table_insert_replaces_existing_key() {
    let mut t: KeyedTable<u32> = KeyedTable::new();
    t.insert("alice".to_string(), 1);
    t.insert("alice".to_string(), 7);
    assert_eq!(t.len(), 1);
    assert_eq!(t.get(&"alice".to_string()), Some(&7));
}

#[test]
fn table_remove_returns_value_and_forgets_key() {
    let mut t: KeyedTable<u32> = KeyedTable::new();
    t.insert("a".to_string(), 1);
    t.insert("b".to_string(), 2);
    t.insert("c".to_string(), 3);
    assert_eq!(t.remove(&"b".to_string()), Some(2));
    assert_eq!(t.remove(&"b".to_string()), None);
    assert!(!t.contains_key(&"b".to_string()));
    assert!(t.contains_key(&"a".to_string()));
    assert_eq!(t.keys(), vec!["a".to_string(), "c".to_string()]);
}
