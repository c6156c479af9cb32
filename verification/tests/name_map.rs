use briefing::name_map::NameMap;

#[test]
fn a_new_map_is_empty() {
    let map: NameMap<u32> = NameMap::new();
    assert_eq!(map.get("a"), None);
    assert!(!map.contains_key(""));
}

#[test]
fn insert_replaces_the_value_of_a_name() {
    let mut map: NameMap<u32> = NameMap::new();
    map.insert("a".to_string(), 1);
    map.insert("b".to_string(), 2);
    assert_eq!(map.get("a"), Some(&1));
    map.insert("a".to_string(), 3);
    assert_eq!(map.get("a"), Some(&3));
    assert_eq!(map.get("b"), Some(&2));
    assert_eq!(map.get("c"), None);
    assert!(map.contains_key("b"));
    assert!(!map.contains_key("B"));
    assert!(!map.contains_key("ab"));
}
