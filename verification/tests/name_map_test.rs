use notion_into_sqlite::name_map::NameMap;

#[test]
fn a_new_map_is_empty() {
    let map: NameMap<u32> = NameMap::new();
    assert_eq!(map.len(), 0);
    assert_eq!(map.get("a"), None);
    assert!(!map.contains_key(""));
    assert_eq!(map.find("a"), None);
}

#[test]
fn names_keep_the_order_in_which_they_came() {
    let mut map = NameMap::new();
    map.insert("b".to_string(), 1);
    map.insert("a".to_string(), 2);
    map.insert("c".to_string(), 3);
    assert_eq!(map.len(), 3);
    assert_eq!(map.key_at(0), "b");
    assert_eq!(map.key_at(1), "a");
    assert_eq!(map.key_at(2), "c");
    assert_eq!(*map.value_at(1), 2);
    assert_eq!(map.find("c"), Some(2));
    assert_eq!(map.get("a"), Some(&2));
    assert_eq!(map.get("d"), None);
    assert!(map.contains_key("b"));
}

#[test]
fn a_name_that_comes_again_keeps_its_place_and_gets_the_new_value() {
    let mut map = NameMap::new();
    map.insert("x".to_string(), "first".to_string());
    map.insert("y".to_string(), "second".to_string());
    map.insert("x".to_string(), "third".to_string());
    assert_eq!(map.len(), 2);
    assert_eq!(map.key_at(0), "x");
    assert_eq!(map.value_at(0), "third");
    assert_eq!(map.key_at(1), "y");
    assert_eq!(map.get("x").unwrap(), "third");
}
