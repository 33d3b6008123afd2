use pls::context::{extract_variables, Context};
use pls::error::ErrorKind;
use pls::name::FullyQualifiedName;
use pls::outputs::OutputsManager;
use pls::table::StringMap;

fn fqn(text: &str) -> FullyQualifiedName {
    FullyQualifiedName::from_string(text)
}

fn context() -> Context {
    let mut context = Context::new();
    context.globals.insert("place".to_string(), "world".to_string());
    let mut own = StringMap::new();
    own.insert("who".to_string(), "me".to_string());
    own.insert("braces".to_string(), "{who}".to_string());
    context.variables.insert(fqn("command.exec.this"), own);
    let mut other = StringMap::new();
    other.insert("port".to_string(), "5432".to_string());
    context.variables.insert(fqn("command.container.db"), other);
    context
}

fn expand(text: &str) -> Result<String, pls::error::Error> {
    let mut outputs = OutputsManager::new();
    outputs.store_output(fqn("artifact.container_image.img"), "sha", "abc123");
    context().resolve_substitutions(text, &fqn("command.exec.this"), &outputs)
}

#[test]
fn text_without_braces_is_unchanged() {
    for text in ["", "echo hello", "a } b", "}} }", "no placeholders at all"] {
        assert_eq!(expand(text).unwrap(), text);
    }
}

#[test]
fn unmatched_opening_braces_stay() {
    assert_eq!(expand("echo {").unwrap(), "echo {");
    assert_eq!(expand("{who} and {").unwrap(), "me and {");
    assert_eq!(expand("{who} and {who").unwrap(), "me and {who");
    assert_eq!(expand("a { b { c").unwrap(), "a { b { c");
    assert_eq!(expand("} {who} }{").unwrap(), "} me }{");
}

#[test]
fn the_innermost_braces_make_the_placeholder() {
    assert_eq!(expand("{a{who}").unwrap(), "{ame");
    assert_eq!(expand("{{who}}").unwrap(), "{me}");
}

#[test]
fn each_kind_of_reference_is_expanded() {
    assert_eq!(expand("{who}").unwrap(), "me");
    assert_eq!(expand("{globals.place}").unwrap(), "world");
    assert_eq!(expand("{command.container.db.port}").unwrap(), "5432");
    assert_eq!(expand("{artifact.container_image.img.output.sha}").unwrap(), "abc123");
    assert_eq!(expand("{args}").unwrap(), "");
    assert_eq!(expand("<{who}|{globals.place}|{who}>").unwrap(), "<me|world|me>");
    // a value is put in as it is, braces and all
    assert_eq!(expand("{braces}").unwrap(), "{who}");
}

#[test]
fn a_placeholder_without_a_value_is_an_error() {
    for (text, ident) in [
        ("{nobody}", "nobody"),
        ("{}", ""),
        ("{who} {globals.nowhere}", "globals.nowhere"),
        ("{command.container.db.host}", "command.container.db.host"),
        ("{command.exec.gone.key}", "command.exec.gone.key"),
        ("{artifact.container_image.img.output.tag}", "artifact.container_image.img.output.tag"),
        ("{ who }", " who "),
        ("{first} {second}", "first"),
    ] {
        let err = expand(text).unwrap_err();
        assert_eq!(err.kind, ErrorKind::VariableNotFound);
        assert_eq!(err.to_string(), format!("Variable <{}> not found", ident));
    }
}

fn with_args(text: &str, args: Vec<&str>, default_args: Option<&str>) -> Result<String, pls::error::Error> {
    context().resolve_substitutions_with_args(
        text,
        &fqn("command.exec.this"),
        &OutputsManager::new(),
        args.into_iter().map(String::from).collect(),
        &default_args.map(String::from),
    )
}

#[test]
fn arguments_are_quoted_and_put_in_place_or_appended() {
    assert_eq!(with_args("echo {args} end", vec!["a b", "c"], None).unwrap(), "echo 'a b' c end");
    assert_eq!(with_args("echo", vec!["a b", "c"], None).unwrap(), "echo 'a b' c");
    assert_eq!(with_args("echo {args} {args}", vec!["x"], None).unwrap(), "echo x x");
    assert_eq!(with_args("echo {args}", vec![], Some("--help")).unwrap(), "echo --help");
    assert_eq!(with_args("echo {args}", vec!["x"], Some("--help")).unwrap(), "echo x");
    assert_eq!(with_args("echo {args}", vec![], None).unwrap(), "echo ");
    assert_eq!(with_args("echo", vec![], None).unwrap(), "echo ");
    assert_eq!(with_args("echo {who}", vec!["x"], None).unwrap(), "echo me x");
    assert_eq!(with_args("echo {who", vec!["x"], None).unwrap(), "echo {who x");
}

#[test]
fn an_argument_that_cannot_be_quoted_is_an_error() {
    let err = with_args("echo {args}", vec!["fine", "bad\0arg", "worse\0"], None).unwrap_err();
    assert_eq!(err.kind, ErrorKind::Quote);
    assert_eq!(
        err.to_string(),
        "While escaping argument <bad\0arg>: cannot shell-quote string containing nul byte"
    );
    // quoting comes before expansion
    let err = with_args("echo {nobody}", vec!["\0"], None).unwrap_err();
    assert_eq!(err.kind, ErrorKind::Quote);
}

#[test]
fn extract_variables_lists_the_placeholders() {
    assert_eq!(extract_variables("no braces"), Vec::<String>::new());
    assert_eq!(extract_variables("{a} {b.c} {d.output.e}"), vec!["a", "b.c", "d.output.e"]);
    assert_eq!(extract_variables("{a{b}c} } {"), vec!["b"]);
    assert_eq!(extract_variables("{}{x}"), vec!["", "x"]);
}
