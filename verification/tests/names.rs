use fastn::names::{NameMap, PairSet};

#[test]
fn name_map_insert_get_replace() {
    let mut m: NameMap<String> = NameMap::new();
    assert_eq!(m.len(), 0);
    assert!(!m.contains_key("a"));
    m.insert("a".to_string(), "1".to_string());
    m.insert("b".to_string(), "2".to_string());
    assert_eq!(m.get("a"), Some(&"1".to_string()));
    assert_eq!(m.get("b"), Some(&"2".to_string()));
    assert_eq!(m.get("c"), None);
    m.insert("a".to_string(), "3".to_string());
    assert_eq!(m.get("a"), Some(&"3".to_string()));
    assert_eq!(m.len(), 2);
    assert_eq!(m.keys(), vec!["a".to_string(), "b".to_string()]);
}

#[test]
fn name_map_copy_is_equal() {
    let mut m: NameMap<String> = NameMap::new();
    m.insert("k".to_string(), "v".to_string());
    let c = m.copy();
    assert_eq!(c, m);
    assert_eq!(c.get("k"), Some(&"v".to_string()));
}

#[test]
fn pair_set_insert_contains_remove() {
    let mut s = PairSet::new();
    assert!(!s.contains("a", "b"));
    s.insert("a".to_string(), "b".to_string());
    s.insert("a".to_string(), "b".to_string());
    s.insert("c".to_string(), "d".to_string());
    assert!(s.contains("a", "b"));
    assert!(!s.contains("b", "a"));
    s.remove("a", "b");
    assert!(!s.contains("a", "b"));
    assert!(s.contains("c", "d"));
    s.remove("x", "y");
    assert!(s.contains("c", "d"));
}
