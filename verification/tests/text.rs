use oats_framework::text::{join_texts, sort_texts, text_le_exec};
use oats_framework::NamedMap;

#[test]
fn join_puts_the_separator_between_neighbours() {
    let parts = vec!["a".to_string(), "b".to_string(), "c".to_string()];
    assert_eq!(join_texts(&parts, ", "), "a, b, c");
    assert_eq!(join_texts(&vec!["only".to_string()], ", "), "only");
    assert_eq!(join_texts(&Vec::new(), ", "), "");
}

#[test]
fn texts_sort_as_str_orders_them() {
    let items: Vec<String> = ["pear", "apple", "Äpfel", "app", "zebra", "apple", ""].iter().map(|s| s.to_string()).collect();
    let mut expected = items.clone();
    expected.sort();
    assert_eq!(sort_texts(items), expected);
    assert!(text_le_exec("app", "apple"));
    assert!(!text_le_exec("b", "a"));
    assert!(text_le_exec("same", "same"));
}

#[test]
fn named_map_keeps_insertion_order_and_replaces_in_place() {
    let mut m = NamedMap::new();
    m.insert("b".to_string(), 1);
    m.insert("a".to_string(), 2);
    m.insert("b".to_string(), 3);
    assert_eq!(m.len(), 2);
    assert_eq!(m.key_at(0), "b");
    assert_eq!(*m.value_at(0), 3);
    assert_eq!(m.key_at(1), "a");
    assert_eq!(m.get("a"), Some(&2));
    assert!(m.contains_key("b"));
    assert!(!m.contains_key("c"));
    let c = m.clone();
    assert_eq!(c.get("b"), Some(&3));
    m.clear();
    assert_eq!(m.len(), 0);
}
