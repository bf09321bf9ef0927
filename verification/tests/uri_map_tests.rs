use verse_lsp::uri_map::{UriMap, UriSet};

fn text(s: &str) -> String {
    s.to_string()
}

#[test]
fn map_keeps_keys_in_insertion_order() {
    let mut map: UriMap<u32> = UriMap::new();
    assert_eq!(map.len(), 0);
    map.insert(text("file:///b"), 2);
    map.insert(text("file:///a"), 1);
    map.insert(text("file:///c"), 3);
    assert_eq!(map.len(), 3);
    assert_eq!(map.key_at(0), "file:///b");
    assert_eq!(map.key_at(1), "file:///a");
    assert_eq!(map.key_at(2), "file:///c");
    assert_eq!(*map.value_at(1), 1);
    assert_eq!(map.find(&text("file:///c")), Some(2));
    assert_eq!(map.find(&text("file:///d")), None);
}

#[test]
fn map_insert_replaces_in_place() {
    let mut map: UriMap<u32> = UriMap::new();
    map.insert(text("file:///a"), 1);
    map.insert(text("file:///b"), 2);
    map.insert(text("file:///a"), 7);
    assert_eq!(map.len(), 2);
    assert_eq!(map.key_at(0), "file:///a");
    assert_eq!(map.get(&text("file:///a")), Some(&7));
    assert_eq!(map.get(&text("file:///b")), Some(&2));
    assert_eq!(map.get(&text("file:///z")), None);
}

#[test]
fn map_appends_behind_what_is_listed() {
    let mut map: UriMap<Vec<u32>> = UriMap::new();
    map.append(text("file:///a"), 1);
    map.append(text("file:///b"), 2);
    map.append(text("file:///a"), 3);
    map.append_all(text("file:///b"), vec![4, 5]);
    map.append_all(text("file:///c"), vec![]);
    assert_eq!(map.len(), 3);
    assert_eq!(map.get(&text("file:///a")), Some(&vec![1, 3]));
    assert_eq!(map.get(&text("file:///b")), Some(&vec![2, 4, 5]));
    assert_eq!(map.get(&text("file:///c")), Some(&vec![]));
}

#[test]
fn map_hands_its_entries_out_in_order() {
    let mut map: UriMap<u32> = UriMap::new();
    map.insert(text("file:///x"), 10);
    map.insert(text("file:///y"), 20);
    let entries = map.into_entries();
    assert_eq!(entries.len(), 2);
    assert_eq!(entries[0].uri, "file:///x");
    assert_eq!(entries[0].value, 10);
    assert_eq!(entries[1].uri, "file:///y");
    assert_eq!(entries[1].value, 20);
}

#[test]
fn set_holds_each_member_once() {
    let mut set = UriSet::new();
    assert!(set.is_empty());
    set.insert(text("file:///a"));
    set.insert(text("file:///b"));
    set.insert(text("file:///a"));
    assert_eq!(set.len(), 2);
    assert_eq!(set.uri_at(0), "file:///a");
    assert_eq!(set.uri_at(1), "file:///b");
    assert!(set.has(&text("file:///b")));
    assert!(!set.has(&text("file:///c")));
    set.clear();
    assert!(set.is_empty());
    assert!(!set.has(&text("file:///a")));
}
