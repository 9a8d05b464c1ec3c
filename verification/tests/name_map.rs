use rbx_reflection::name_map::clone_name;
use rbx_reflection::name_map::text_of;
use rbx_reflection::NameMap;
use std::borrow::Cow;

#[test]
fn new_map_has_no_entry() {
    let map: NameMap<u32> = NameMap::new();
    assert_eq!(map.len(), 0);
    assert!(map.is_empty());
    assert!(!map.contains_key("Size"));
    assert!(map.get("Size").is_none());
    assert!(map.entry(0).is_none());
}

#[test]
fn inserted_value_is_found_under_its_name() {
    let mut map = NameMap::new();
    assert_eq!(map.insert("Size".into(), 3), None);
    assert_eq!(map.insert("Color".into(), 5), None);
    assert_eq!(map.len(), 2);
    assert!(!map.is_empty());
    assert_eq!(map.get("Size"), Some(&3));
    assert_eq!(map.get("Color"), Some(&5));
    assert_eq!(map.get("Name"), None);
    assert!(map.contains_key("Size"));
    assert!(map.contains_key("Color"));
    assert!(!map.contains_key("Name"));
}

#[test]
fn names_are_matched_exactly() {
    let mut map = NameMap::new();
    map.insert("Size".into(), 1);
    assert!(map.get("size").is_none());
    assert!(map.get("Size ").is_none());
    assert!(map.get("Siz").is_none());
    assert!(map.get("").is_none());
    map.insert("".into(), 2);
    assert_eq!(map.get(""), Some(&2));
    assert_eq!(map.get("Size"), Some(&1));
}

#[test]
fn last_write_for_a_name_wins() {
    let mut map = NameMap::new();
    assert_eq!(map.insert("Size".into(), 1), None);
    assert_eq!(map.insert("Color".into(), 2), None);
    assert_eq!(map.insert("Size".into(), 3), Some(1));
    assert_eq!(map.len(), 2);
    assert_eq!(map.get("Size"), Some(&3));
    assert_eq!(map.get("Color"), Some(&2));
    assert_eq!(map.insert(String::from("Size").into(), 4), Some(3));
    assert_eq!(map.get("Size"), Some(&4));
    assert_eq!(map.len(), 2);
}

#[test]
fn entries_come_in_the_order_of_first_insertion() {
    let mut map = NameMap::new();
    map.insert("b".into(), 1);
    map.insert("a".into(), 2);
    map.insert("c".into(), 3);
    map.insert("a".into(), 4);
    assert_eq!(map.len(), 3);
    assert_eq!(map.entry(0), Some(("b", &1)));
    assert_eq!(map.entry(1), Some(("a", &4)));
    assert_eq!(map.entry(2), Some(("c", &3)));
    assert_eq!(map.entry(3), None);
    assert_eq!(map.entry(usize::MAX), None);
}

#[test]
fn borrowed_and_owned_names_are_the_same_key() {
    let mut map = NameMap::new();
    map.insert(Cow::Borrowed("Size"), 1);
    assert_eq!(map.insert(Cow::Owned(String::from("Size")), 2), Some(1));
    assert_eq!(map.len(), 1);
    assert_eq!(map.get("Size"), Some(&2));
}

#[test]
fn clone_of_a_map_has_the_same_entries() {
    let mut map = NameMap::new();
    map.insert("Size".into(), String::from("big"));
    map.insert(String::from("Color").into(), String::from("red"));
    let mut copy = map.clone();
    assert_eq!(copy.len(), 2);
    assert_eq!(copy.entry(0), Some(("Size", &String::from("big"))));
    assert_eq!(copy.entry(1), Some(("Color", &String::from("red"))));
    copy.insert("Size".into(), String::from("small"));
    assert_eq!(map.get("Size"), Some(&String::from("big")));
    assert_eq!(copy.get("Size"), Some(&String::from("small")));
}

#[test]
fn text_of_a_name_is_its_text() {
    assert_eq!(text_of(&Cow::Borrowed("Part")), "Part");
    assert_eq!(text_of(&Cow::Owned(String::from("BasePart"))), "BasePart");
    assert_eq!(text_of(&Cow::Borrowed("")), "");
}

#[test]
fn clone_of_a_name_keeps_text_and_ownership() {
    let borrowed = clone_name(&Cow::Borrowed("Part"));
    assert_eq!(borrowed, "Part");
    assert!(matches!(borrowed, Cow::Borrowed(_)));
    let owned = clone_name(&Cow::Owned(String::from("BasePart")));
    assert_eq!(owned, "BasePart");
    assert!(matches!(owned, Cow::Owned(_)));
}
