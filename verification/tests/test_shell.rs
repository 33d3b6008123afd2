use pls::shell::{escape_string, prepend_argument_if_set, prepend_arguments_if_set};

#[test]
fn test_escape_string() {
    assert_eq!(escape_string("foo").unwrap(), "foo");
    assert_eq!(escape_string("foo bar").unwrap(), "'foo bar'");
    assert_eq!(escape_string("foo'bar").unwrap(), "\"foo'bar\"");
}

#[test]
fn escape_string_refuses_nul() {
    let err = escape_string("a\0b").unwrap_err();
    assert_eq!(err.kind, pls::error::ErrorKind::Quote);
    assert_eq!(err.to_string(), "cannot shell-quote string containing nul byte");
}

#[test]
fn test_prepend_argument_if_set() {
    assert_eq!(prepend_argument_if_set("-e", &Some("foo")).unwrap(), "-e foo");
    assert_eq!(prepend_argument_if_set("-e", &None).unwrap(), "");
}

#[test]
fn test_prepend_argument_if_set_escapes() {
    assert_eq!(prepend_argument_if_set("-e", &Some("$foo")).unwrap(), "-e '$foo'");
    assert_eq!(prepend_argument_if_set("-e", &None).unwrap(), "");
}

#[test]
fn test_prepend_arguments_if_set() {
    assert_eq!(
        prepend_arguments_if_set("-e", &Some(vec!["foo", "bar"])).unwrap(),
        "-e foo -e bar"
    );
    assert_eq!(prepend_arguments_if_set("-e", &None).unwrap(), "");
}

#[test]
fn test_prepend_arguments_if_set_escapes() {
    assert_eq!(
        prepend_arguments_if_set("-e", &Some(vec!["$foo", "bar"])).unwrap(),
        "-e '$foo' -e bar"
    );
    assert_eq!(prepend_arguments_if_set("-e", &None).unwrap(), "");
}

#[test]
fn prepend_arguments_refuses_nul() {
    assert!(prepend_arguments_if_set("-e", &Some(vec!["ok", "a\0"])).is_err());
    assert_eq!(prepend_arguments_if_set("-e", &Some(vec![])).unwrap(), "");
}

fn context_with(name: &pls::name::FullyQualifiedName, key: &str, value: &str) -> pls::context::Context {
    let mut context = pls::context::Context::default();
    let mut vars = pls::table::StringMap::new();
    vars.insert(key.to_string(), value.to_string());
    context.variables.insert(name.clone(), vars);
    context
}

#[test]
fn test_escape_and_prepend() {
    let name = pls::name::FullyQualifiedName { tag: "tag".to_string(), name: "bar".to_string() };
    let context = context_with(&name, "foo", "baz");
    assert_eq!(
        pls::shell::escape_and_prepend(
            &name,
            &context,
            &pls::outputs::OutputsManager::default(),
            "-e",
            &Some("{foo}".to_string())
        )
        .unwrap(),
        "-e baz"
    );
    assert_eq!(
        pls::shell::escape_and_prepend(
            &name,
            &context,
            &pls::outputs::OutputsManager::default(),
            "-e",
            &None
        )
        .unwrap(),
        ""
    );
}

#[test]
fn test_escape_and_prepend_escapes_after() {
    let name = pls::name::FullyQualifiedName { tag: "tag".to_string(), name: "bar".to_string() };
    let context = context_with(&name, "foo", "$baz");
    assert_eq!(
        pls::shell::escape_and_prepend(
            &name,
            &context,
            &pls::outputs::OutputsManager::default(),
            "-e",
            &Some("{foo}".to_string())
        )
        .unwrap(),
        "-e '$baz'"
    );
}

#[test]
fn test_escape_and_prepend_vec() {
    let name = pls::name::FullyQualifiedName { tag: "foo".to_string(), name: "bar".to_string() };
    let context = context_with(&name, "foo", "baz");
    assert_eq!(
        pls::shell::escape_and_prepend_vec(
            &name,
            &context,
            &pls::outputs::OutputsManager::default(),
            "-e",
            &Some(vec!["{foo}".to_string(), "qux".to_string()])
        )
        .unwrap(),
        "-e baz -e qux"
    );
    assert_eq!(
        pls::shell::escape_and_prepend_vec(
            &name,
            &context,
            &pls::outputs::OutputsManager::default(),
            "-e",
            &None
        )
        .unwrap(),
        ""
    );
}

#[test]
fn test_escape_and_prepend_vec_escapes_after() {
    let name = pls::name::FullyQualifiedName { tag: "tag".to_string(), name: "bar".to_string() };
    let context = context_with(&name, "foo", "$baz");
    assert_eq!(
        pls::shell::escape_and_prepend_vec(
            &name,
            &context,
            &pls::outputs::OutputsManager::default(),
            "-e",
            &Some(vec!["{foo}".to_string(), "qux".to_string()])
        )
        .unwrap(),
        "-e '$baz' -e qux"
    );
}
