use pls::number::{i32_to_string, u64_to_string};
use pls::order::{sort_strings, string_le};
use pls::rand::rand_string;
use pls::table::{clone_string_map, merge_string_maps, StringMap, Table};
use pls::text::{concat3, join_strings};

#[test]
fn numbers_as_text() {
    assert_eq!(u64_to_string(0), "0");
    assert_eq!(u64_to_string(7), "7");
    assert_eq!(u64_to_string(120), "120");
    assert_eq!(u64_to_string(u64::MAX), u64::MAX.to_string());
    assert_eq!(i32_to_string(-1), "-1");
    assert_eq!(i32_to_string(i32::MIN), i32::MIN.to_string());
    assert_eq!(i32_to_string(i32::MAX), i32::MAX.to_string());
}

#[test]
fn texts_in_order() {
    assert!(string_le("", "a"));
    assert!(string_le("a", "a"));
    assert!(string_le("a", "ab"));
    assert!(!string_le("ab", "a"));
    assert!(string_le("artifact.container_image.copy", "artifact.exec.copy"));
    assert!(!string_le("b", "a"));
    let sorted = sort_strings(vec![
        "pear".to_string(),
        "apple".to_string(),
        "fig".to_string(),
        "apple".to_string(),
        "".to_string(),
    ]);
    assert_eq!(sorted, vec!["", "apple", "apple", "fig", "pear"]);
    let mut expected = vec!["b".to_string(), "B".to_string(), "é".to_string(), "a".to_string()];
    let ours = sort_strings(vec!["b".to_string(), "B".to_string(), "é".to_string(), "a".to_string()]);
    expected.sort();
    assert_eq!(ours, expected);
}

#[test]
fn random_names() {
    let a = rand_string(8);
    assert_eq!(a.chars().count(), 8);
    assert!(a.chars().all(|c| c.is_ascii_alphanumeric()));
    assert_eq!(rand_string(0), "");
    let long = rand_string(64);
    assert_eq!(long.len(), 64);
    assert!(long.chars().all(|c| c.is_ascii_alphanumeric()));
}

#[test]
fn joining_texts() {
    assert_eq!(join_strings(&vec![], ", "), "");
    assert_eq!(join_strings(&vec!["a".to_string()], ", "), "a");
    assert_eq!(join_strings(&vec!["a".to_string(), "b".to_string(), "c".to_string()], ", "), "a, b, c");
    assert_eq!(pls::text::concat("a", "b"), "ab");
    assert_eq!(concat3("a", "b", "c"), "abc");
}

#[test]
fn tables_keep_the_order_of_arrival() {
    let mut t: StringMap = Table::new();
    assert!(t.is_empty());
    t.insert("b".to_string(), "1".to_string());
    t.insert("a".to_string(), "2".to_string());
    t.insert("b".to_string(), "3".to_string());
    assert_eq!(t.len(), 2);
    assert_eq!(t.entries, vec![("b".to_string(), "3".to_string()), ("a".to_string(), "2".to_string())]);
    assert!(t.contains_key(&"a".to_string()));
    assert!(!t.contains_key(&"c".to_string()));
    assert_eq!(t.get(&"c".to_string()), None);
    assert_eq!(t.position(&"a".to_string()), 1);
    let copy = clone_string_map(&t);
    assert_eq!(copy.entries, t.entries);
}

#[test]
fn merging_lets_the_later_table_win() {
    let mut base = StringMap::new();
    base.insert("a".to_string(), "base".to_string());
    base.insert("b".to_string(), "base".to_string());
    let mut over = StringMap::new();
    over.insert("b".to_string(), "over".to_string());
    over.insert("c".to_string(), "over".to_string());
    let merged = merge_string_maps(&base, &over);
    assert_eq!(
        merged.entries,
        vec![
            ("a".to_string(), "base".to_string()),
            ("b".to_string(), "over".to_string()),
            ("c".to_string(), "over".to_string()),
        ]
    );
}
