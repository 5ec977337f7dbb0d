use coco_search::common::table::KeyedTable;

fn keys(table: &KeyedTable<u32>) -> Vec<String> {
    (0..table.len()).map(|at| table.key_at(at).clone()).collect()
}

fn values(table: &KeyedTable<u32>) -> Vec<u32> {
    (0..table.len()).map(|at| *table.value_at(at)).collect()
}

#[test]
fn a_new_table_is_empty() {
    let table: KeyedTable<u32> = KeyedTable::new();
    assert_eq!(table.len(), 0);
    assert_eq!(table.get("a"), None);
    assert!(!table.contains_key("a"));
    assert_eq!(table.find("a"), None);
}

#[test]
fn a_new_key_goes_to_the_end() {
    let mut table = KeyedTable::new();
    assert_eq!(table.insert("b".to_string(), 2), None);
    assert_eq!(table.insert("a".to_string(), 1), None);
    assert_eq!(table.insert("c".to_string(), 3), None);
    assert_eq!(keys(&table), vec!["b", "a", "c"]);
    assert_eq!(values(&table), vec![2, 1, 3]);
    assert_eq!(table.find("a"), Some(1));
    assert_eq!(table.get("c"), Some(&3));
    assert!(table.contains_key("b"));
}

#[test]
fn a_known_key_keeps_its_place_and_gets_the_new_value() {
    let mut table = KeyedTable::new();
    table.insert("a".to_string(), 1);
    table.insert("b".to_string(), 2);
    assert_eq!(table.insert("a".to_string(), 10), Some(1));
    assert_eq!(keys(&table), vec!["a", "b"]);
    assert_eq!(values(&table), vec![10, 2]);
    assert_eq!(table.len(), 2);
}

#[test]
fn a_removed_key_leaves_the_others_in_order() {
    let mut table = KeyedTable::new();
    table.insert("a".to_string(), 1);
    table.insert("b".to_string(), 2);
    table.insert("c".to_string(), 3);
    assert_eq!(table.remove("b"), Some(2));
    assert_eq!(table.remove("b"), None);
    assert_eq!(keys(&table), vec!["a", "c"]);
    assert_eq!(values(&table), vec![1, 3]);
    assert_eq!(table.get("b"), None);
    assert_eq!(table.remove("a"), Some(1));
    assert_eq!(table.remove("c"), Some(3));
    assert_eq!(table.len(), 0);
}

#[test]
fn keys_are_told_apart_by_their_whole_text() {
    let mut table = KeyedTable::new();
    table.insert("".to_string(), 0);
    table.insert("a".to_string(), 1);
    table.insert("A".to_string(), 2);
    table.insert("a ".to_string(), 3);
    table.insert("é".to_string(), 4);
    assert_eq!(table.len(), 5);
    assert_eq!(table.get(""), Some(&0));
    assert_eq!(table.get("A"), Some(&2));
    assert_eq!(table.get("a "), Some(&3));
    assert_eq!(table.get("é"), Some(&4));
    assert_eq!(table.get("e"), None);
}
