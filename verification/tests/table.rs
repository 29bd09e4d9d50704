use ec2_rs::table::Table;

#[test]
fn a_new_table_is_empty() {
    let table: Table<String> = Table::new();
    assert_eq!(table.len(), 0);
    assert!(table.get("x").is_none());
    assert!(!table.contains_key("x"));
    assert_eq!(table.position("x"), None);
}

#[test]
fn insert_appends_new_keys_in_order() {
    let mut table: Table<String> = Table::new();
    table.insert("b".to_owned(), "1".to_owned());
    table.insert("a".to_owned(), "2".to_owned());
    assert_eq!(table.len(), 2);
    assert_eq!(table.key_at(0), "b");
    assert_eq!(table.key_at(1), "a");
    assert_eq!(table.value_at(0), "1");
    assert_eq!(table.value_at(1), "2");
    assert_eq!(table.position("a"), Some(1));
}

#[test]
fn insert_replaces_in_place() {
    let mut table: Table<String> = Table::new();
    table.insert("b".to_owned(), "1".to_owned());
    table.insert("a".to_owned(), "2".to_owned());
    table.insert("b".to_owned(), "3".to_owned());
    assert_eq!(table.len(), 2);
    assert_eq!(table.key_at(0), "b");
    assert_eq!(table.get("b").map(|v| v.as_str()), Some("3"));
    assert_eq!(table.get("a").map(|v| v.as_str()), Some("2"));
}

#[test]
fn keys_differ_by_case() {
    let mut table: Table<String> = Table::new();
    table.insert("Role".to_owned(), "1".to_owned());
    table.insert("role".to_owned(), "2".to_owned());
    assert_eq!(table.len(), 2);
}

#[test]
fn append_at_extends_one_list() {
    let mut table: Table<Vec<String>> = Table::new();
    table.insert("g1".to_owned(), vec!["h1".to_owned()]);
    table.insert("g2".to_owned(), vec!["h2".to_owned()]);
    table.append_at(0, "h3".to_owned());
    assert_eq!(table.get("g1"), Some(&vec!["h1".to_owned(), "h3".to_owned()]));
    assert_eq!(table.get("g2"), Some(&vec!["h2".to_owned()]));
}

#[test]
fn duplicate_is_an_equal_table() {
    let mut table: Table<String> = Table::new();
    table.insert("k".to_owned(), "v".to_owned());
    table.insert("l".to_owned(), "w".to_owned());
    let copy = table.duplicate();
    assert_eq!(copy.len(), 2);
    assert_eq!(copy.key_at(0), "k");
    assert_eq!(copy.value_at(0), "v");
    assert_eq!(copy.key_at(1), "l");
    assert_eq!(copy.value_at(1), "w");
}
