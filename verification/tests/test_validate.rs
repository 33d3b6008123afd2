use pls::table::{StringMap, Table};
use pls::validate::{
    keys_and_values_non_empty_strings, keys_non_empty_strings, non_empty_strings,
};

fn map(entries: Vec<(&str, &str)>) -> StringMap {
    let mut m = StringMap::new();
    for (k, v) in entries {
        m.insert(k.to_string(), v.to_string());
    }
    m
}

#[test]
fn non_empty_strings_no_strings() {
    non_empty_strings(&vec![]).unwrap()
}

#[test]
fn non_empty_strings_empty_string() {
    let res = non_empty_strings(&vec!["".to_string()]);
    assert!(res.is_err());
    assert_eq!(res.unwrap_err().to_string(), "string cannot be empty");
}

#[test]
fn non_empty_strings_non_empty_string() {
    non_empty_strings(&vec!["foo".to_string()]).unwrap()
}

#[test]
fn keys_non_empty_strings_no_strings() {
    keys_non_empty_strings::<bool>(&Table::new()).unwrap()
}

#[test]
fn keys_non_empty_strings_non_empty_string() {
    let mut t: Table<String, bool> = Table::new();
    t.insert("foo".to_string(), true);
    keys_non_empty_strings::<bool>(&t).unwrap()
}

#[test]
fn keys_non_empty_strings_empty_string() {
    let mut t: Table<String, bool> = Table::new();
    t.insert("".to_string(), true);
    let res = keys_non_empty_strings::<bool>(&t);
    assert!(res.is_err());
    assert_eq!(res.unwrap_err().to_string(), "key cannot be empty");
}

#[test]
fn keys_and_values_non_empty_strings_no_strings() {
    keys_and_values_non_empty_strings(&map(vec![])).unwrap()
}

#[test]
fn keys_and_values_non_empty_strings_non_empty_string() {
    keys_and_values_non_empty_strings(&map(vec![("foo", "bar")])).unwrap()
}

#[test]
fn keys_and_values_non_empty_strings_empty_key() {
    let res = keys_and_values_non_empty_strings(&map(vec![("", "bar")]));
    assert!(res.is_err());
    assert_eq!(res.unwrap_err().to_string(), "key cannot be empty");
}

#[test]
fn keys_and_values_non_empty_strings_empty_value() {
    let res = keys_and_values_non_empty_strings(&map(vec![("foo", "")]));
    assert!(res.is_err());
    assert_eq!(res.unwrap_err().to_string(), "value cannot be empty");
}

#[test]
fn keys_and_values_non_empty_strings_empty_key_and_value() {
    let res = keys_and_values_non_empty_strings(&map(vec![("", "")]));
    assert!(res.is_err());
    assert_eq!(res.unwrap_err().to_string(), "key cannot be empty");
}
