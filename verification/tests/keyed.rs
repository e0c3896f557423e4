use rust_edge_agent::agent::KeyedList;

#[test]
fn insert_replaces_and_get_finds() {
    let mut list: KeyedList<u32> = KeyedList::new();
    assert_eq!(list.len(), 0);
    assert_eq!(list.get("a"), None);
    list.insert("a".to_string(), 1);
    list.insert("b".to_string(), 2);
    list.insert("a".to_string(), 3);
    assert_eq!(list.len(), 2);
    assert_eq!(list.get("a"), Some(&3));
    assert_eq!(list.get("b"), Some(&2));
    assert_eq!(list.find("b"), Some(1));
    assert_eq!(list.find("c"), None);
    assert_eq!(list.entry_at(0), &("a".to_string(), 3));
}
