use testcontainers_rs::string_map::StringMap;

#[test]
fn new_map_is_empty() {
    let map: StringMap<String> = StringMap::new();
    assert!(map.is_empty());
    assert_eq!(map.len(), 0);
    assert_eq!(map.get("a"), None);
    assert!(!map.contains_key("a"));
}

#[test]
fn insert_returns_the_previous_value() {
    let mut map: StringMap<String> = StringMap::new();
    assert_eq!(map.insert(String::from("a"), String::from("1")), None);
    assert_eq!(map.insert(String::from("b"), String::from("2")), None);
    assert_eq!(map.insert(String::from("a"), String::from("3")), Some(String::from("1")));
    assert_eq!(map.len(), 2);
    assert_eq!(map.get("a"), Some(&String::from("3")));
    assert_eq!(map.get("b"), Some(&String::from("2")));
    assert!(map.contains_key("a"));
    assert!(!map.contains_key("c"));
}

#[test]
fn entries_stay_in_the_order_of_first_insertion() {
    let mut map: StringMap<String> = StringMap::new();
    map.insert(String::from("z"), String::from("1"));
    map.insert(String::from("a"), String::from("2"));
    map.insert(String::from("z"), String::from("3"));
    assert_eq!(map.key_at(0), "z");
    assert_eq!(map.value_at(0), "3");
    assert_eq!(map.key_at(1), "a");
    assert_eq!(map.value_at(1), "2");
}

#[test]
fn keys_are_compared_exactly() {
    let mut map: StringMap<String> = StringMap::new();
    map.insert(String::from("Key"), String::from("1"));
    map.insert(String::from("key"), String::from("2"));
    map.insert(String::from(""), String::from("3"));
    assert_eq!(map.len(), 3);
    assert_eq!(map.get("Key"), Some(&String::from("1")));
    assert_eq!(map.get("key"), Some(&String::from("2")));
    assert_eq!(map.get(""), Some(&String::from("3")));
    assert_eq!(map.get("ke"), None);
}

#[test]
fn clone_keeps_keys_and_values() {
    let mut map: StringMap<Vec<String>> = StringMap::new();
    map.insert(String::from("net"), vec![String::from("a"), String::from("b")]);
    let copy = map.clone();
    assert_eq!(copy.len(), 1);
    assert_eq!(copy.get("net"), Some(&vec![String::from("a"), String::from("b")]));
}

#[test]
fn default_map_is_empty() {
    let map: StringMap<String> = StringMap::default();
    assert!(map.is_empty());
}
