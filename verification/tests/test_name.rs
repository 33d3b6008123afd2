use pls::name::FullyQualifiedName;

#[test]
fn test_from_string() {
    let fqn = FullyQualifiedName::from_string("tag.name");
    assert_eq!(fqn.tag, "tag");
    assert_eq!(fqn.name, "name");
}

#[test]
fn test_from_string_with_multiple_tags() {
    let fqn = FullyQualifiedName::from_string("tag1.tag2.name");
    assert_eq!(fqn.tag, "tag1.tag2");
    assert_eq!(fqn.name, "name");
}

#[test]
fn test_from_string_with_no_tags() {
    let fqn = FullyQualifiedName::from_string("name");
    assert_eq!(fqn.tag, "");
    assert_eq!(fqn.name, "name");
}

#[test]
fn name_text_round_trip() {
    let fqn = FullyQualifiedName { tag: "command.exec".to_string(), name: "hello".to_string() };
    assert_eq!(fqn.to_string(), "command.exec.hello");
    let back = FullyQualifiedName::from_string(fqn.to_string().as_str());
    assert_eq!(back, fqn);
}
