use bathpack::table::NameMap;

fn names_of(map: &NameMap<u32>) -> Vec<String> {
    let mut out = Vec::new();
    for i in 0..map.len() {
        out.push(map.name(i).clone());
    }
    out
}

#[test]
fn new_map_is_empty() {
    let map: NameMap<u32> = NameMap::new();
    assert_eq!(map.len(), 0);
    assert!(map.find("a").is_none());
    assert!(map.get("a").is_none());
}

#[test]
fn insert_keeps_the_names_ascending() {
    let mut map: NameMap<u32> = NameMap::new();
    assert!(map.insert("m".to_string(), 1).is_none());
    assert!(map.insert("z".to_string(), 2).is_none());
    assert!(map.insert("a".to_string(), 3).is_none());
    assert!(map.insert("n".to_string(), 4).is_none());
    assert_eq!(names_of(&map), vec!["a", "m", "n", "z"]);
    assert_eq!(*map.item(0), 3);
    assert_eq!(*map.item(1), 1);
    assert_eq!(*map.item(2), 4);
    assert_eq!(*map.item(3), 2);
}

#[test]
fn insert_of_a_known_name_replaces_the_item() {
    let mut map: NameMap<u32> = NameMap::new();
    map.insert("b".to_string(), 1);
    map.insert("a".to_string(), 2);
    assert_eq!(map.insert("b".to_string(), 7), Some(1));
    assert_eq!(map.len(), 2);
    assert_eq!(names_of(&map), vec!["a", "b"]);
    assert_eq!(map.get("b"), Some(&7));
    assert_eq!(map.get("a"), Some(&2));
}

#[test]
fn find_gives_the_position() {
    let mut map: NameMap<u32> = NameMap::new();
    map.insert("b".to_string(), 1);
    map.insert("a".to_string(), 2);
    map.insert("c".to_string(), 3);
    assert_eq!(map.find("a"), Some(0));
    assert_eq!(map.find("b"), Some(1));
    assert_eq!(map.find("c"), Some(2));
    assert_eq!(map.find("d"), None);
}

#[test]
fn names_lacking_lists_what_the_other_map_does_not_hold() {
    let mut left: NameMap<u32> = NameMap::new();
    left.insert("c".to_string(), 1);
    left.insert("a".to_string(), 2);
    left.insert("b".to_string(), 3);
    let mut right: NameMap<bool> = NameMap::new();
    right.insert("b".to_string(), true);
    right.insert("d".to_string(), false);
    assert_eq!(left.names_lacking(&right), vec!["a", "c"]);
    assert_eq!(right.names_lacking(&left), vec!["d"]);
    assert!(left.names_lacking(&left).is_empty());
}

#[test]
fn with_items_keeps_the_names() {
    let mut map: NameMap<u32> = NameMap::new();
    map.insert("b".to_string(), 1);
    map.insert("a".to_string(), 2);
    let other = map.with_items(vec!["first", "second"]);
    assert_eq!(other.len(), 2);
    assert_eq!(other.name(0), "a");
    assert_eq!(*other.item(0), "first");
    assert_eq!(other.name(1), "b");
    assert_eq!(*other.item(1), "second");
}
