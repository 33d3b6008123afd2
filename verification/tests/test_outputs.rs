use pls::name::FullyQualifiedName;
use pls::outputs::OutputsManager;

#[test]
fn store_output() {
    let mut outputs = OutputsManager::default();
    let target_name = FullyQualifiedName { tag: "tag".to_string(), name: "test".to_string() };
    outputs.store_output(target_name.clone(), "key", "value");
    assert_eq!(outputs.outputs.len(), 1);
    let test_outputs = outputs.outputs.get(&target_name).unwrap();
    assert_eq!(test_outputs.len(), 1);
    assert_eq!(test_outputs.get(&"key".to_string()), Some(&"value".to_string()));
}

#[test]
fn store_output_overwrites() {
    let mut outputs = OutputsManager::new();
    let target_name = FullyQualifiedName { tag: "tag".to_string(), name: "test".to_string() };
    outputs.store_output(target_name.clone(), "key", "one");
    outputs.store_output(target_name.clone(), "other", "kept");
    outputs.store_output(target_name.clone(), "key", "two");
    assert_eq!(outputs.get(&target_name, "key"), Some(&"two".to_string()));
    assert_eq!(outputs.get(&target_name, "other"), Some(&"kept".to_string()));
    assert_eq!(outputs.get_all(&target_name).unwrap().len(), 2);
    let missing = FullyQualifiedName { tag: "tag".to_string(), name: "none".to_string() };
    assert!(outputs.get(&missing, "key").is_none());
    assert!(outputs.get_all(&missing).is_none());
}
