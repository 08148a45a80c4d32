use pods_model::ordered_map::OrderedMap;
use pods_model::text::{copy_text, holds, insert_item, remove_item, starts_with};

fn strings(items: &[&str]) -> Vec<String> {
    items.iter().map(|s| s.to_string()).collect()
}

#[test]
fn ordered_map_keeps_insertion_order() {
    let mut m: OrderedMap<u32> = OrderedMap::new();
    assert_eq!(m.len(), 0);
    assert_eq!(m.position("a"), None);
    assert_eq!(m.insert("a".to_string(), 1), (0, None));
    assert_eq!(m.insert("b".to_string(), 2), (1, None));
    assert_eq!(m.insert("c".to_string(), 3), (2, None));
    assert_eq!(m.len(), 3);
    assert_eq!(m.position("a"), Some(0));
    assert_eq!(m.position("c"), Some(2));
    assert_eq!(m.position("d"), None);
    assert_eq!(m.get_index(1), Some(&2));
    assert_eq!(m.get_index(3), None);
}

#[test]
fn ordered_map_replaces_in_place() {
    let mut m: OrderedMap<u32> = OrderedMap::new();
    m.insert("a".to_string(), 1);
    m.insert("b".to_string(), 2);
    assert_eq!(m.insert("a".to_string(), 10), (0, Some(1)));
    assert_eq!(m.len(), 2);
    assert_eq!(m.get_index(0), Some(&10));
    assert_eq!(m.get_index(1), Some(&2));
    *m.get_index_mut(1) = 20;
    assert_eq!(m.get_index(1), Some(&20));
    assert_eq!(m.position("b"), Some(1));
}

#[test]
fn ordered_map_removal_shifts_the_rest_down() {
    let mut m: OrderedMap<u32> = OrderedMap::new();
    for (i, k) in ["a", "b", "c", "d"].iter().enumerate() {
        m.insert(k.to_string(), i as u32);
    }
    assert_eq!(m.remove("b"), Some((1, 1)));
    assert_eq!(m.remove("b"), None);
    assert_eq!(m.len(), 3);
    assert_eq!(m.position("a"), Some(0));
    assert_eq!(m.position("c"), Some(1));
    assert_eq!(m.position("d"), Some(2));
    assert_eq!(m.get_index(1), Some(&2));
    assert_eq!(m.remove("a"), Some((0, 0)));
    assert_eq!(m.remove("d"), Some((1, 3)));
    assert_eq!(m.remove("c"), Some((0, 2)));
    assert_eq!(m.len(), 0);
    assert_eq!(m.insert("b".to_string(), 7), (0, None));
}

#[test]
fn prefixes() {
    assert!(starts_with("unix:///run", "unix"));
    assert!(starts_with("unix", "unix"));
    assert!(starts_with("anything", ""));
    assert!(starts_with("", ""));
    assert!(!starts_with("uni", "unix"));
    assert!(!starts_with("xunix", "unix"));
    assert!(!starts_with("", "u"));
    assert!(starts_with("häuser", "hä"));
    assert!(!starts_with("hauser", "hä"));
}

#[test]
fn lists_without_duplicates() {
    let mut list = strings(&["a", "b"]);
    assert!(holds(&list, "a"));
    assert!(!holds(&list, "c"));
    assert!(!holds(&list, ""));
    assert!(!insert_item(&mut list, "a".to_string()));
    assert_eq!(list, strings(&["a", "b"]));
    assert!(insert_item(&mut list, "c".to_string()));
    assert_eq!(list, strings(&["a", "b", "c"]));
    assert!(remove_item(&mut list, "b"));
    assert_eq!(list, strings(&["a", "c"]));
    assert!(!remove_item(&mut list, "b"));
    assert_eq!(list, strings(&["a", "c"]));
    let mut twice = strings(&["x", "y", "x", "x", "z"]);
    assert!(remove_item(&mut twice, "x"));
    assert_eq!(twice, strings(&["y", "z"]));
    let mut empty: Vec<String> = vec![];
    assert!(!remove_item(&mut empty, "x"));
    assert_eq!(copy_text(&Some("s".to_string())), Some("s".to_string()));
    assert_eq!(copy_text(&None), None);
}
