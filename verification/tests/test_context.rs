use pls::config::Config;
use pls::config::TargetInfo as ConfigTargetInfo;
use pls::context::{
    get_lookup_name, resolve_requires, resolve_target_names_in, target_info_from_config, Context,
    NameMap, Variable,
};
use pls::name::FullyQualifiedName;
use pls::outputs::OutputsManager;
use pls::table::{StringMap, Table};
use pls::target::{Command, CommandInfo, Target, TargetInfo};
use pls::targets::ExecCommand;

fn fqn(tag: &str, name: &str) -> FullyQualifiedName {
    FullyQualifiedName { tag: tag.to_string(), name: name.to_string() }
}

#[test]
fn from_empty_config() {
    let config = Config::default();
    let context = Context::from_config(&config, "test".to_string()).unwrap();
    assert_eq!(context.variables.len(), 0);
}

#[test]
fn uses_globals() {
    let mut config = Config { globals: Some(StringMap::new()), ..Default::default() };
    config.globals.as_mut().unwrap().insert("key".to_string(), "value".to_string());
    let context = Context::from_config(&config, "test".to_string()).unwrap();
    assert_eq!(context.variables.len(), 0);
    assert_eq!(context.globals.len(), 1);
    assert_eq!(context.globals.get(&"key".to_string()), Some(&"value".to_string()));
}

#[test]
fn resolve_substitutions_with_variable() {
    let mut context = Context::default();
    let outputs = OutputsManager::default();
    context.globals.insert("key".to_string(), "value".to_string());
    let qualified_name = fqn("command", "foo");
    let resolved =
        context.resolve_substitutions("echo {globals.key}", &qualified_name, &outputs).unwrap();
    assert_eq!(resolved, "echo value");
}

#[test]
fn resolve_substitutions_with_output() {
    let mut context = Context::default();
    let mut outputs = OutputsManager::default();
    let qualified_name = fqn(pls::config::ExecCommand::tag(), "foo");
    outputs.store_output(qualified_name.clone(), "key", "value");
    let cmd = ExecCommand {
        target_info: TargetInfo {
            name: qualified_name.clone(),
            requires: vec![],
            variables: StringMap::new(),
            description: None,
        },
        command_info: CommandInfo { daemon: false },
        command: "echo {foo.output.key}".to_string(),
        default_args: None,
        env: vec![],
    };
    context.targets.insert(qualified_name, Target::Command(Command::Exec(cmd)));
    let this_target = fqn(pls::config::ContainerCommand::tag(), "bar");
    let resolved = context
        .resolve_substitutions("echo {command.exec.foo.output.key}", &this_target, &outputs)
        .unwrap();
    assert_eq!(resolved, "echo value");
}

#[test]
fn resolve_substitutions_with_no_match() {
    let context = Context::default();
    let qualified_name = fqn("command", "foo");
    let resolved =
        context.resolve_substitutions("echo {globals.key}", &qualified_name, &OutputsManager::default());
    assert!(resolved.is_err());
    assert_eq!(resolved.unwrap_err().to_string(), "Variable <globals.key> not found");
}

#[test]
fn resolve_substitutions_for_current_target_name() {
    let mut context = Context::default();
    let qualified_name = fqn("command", "foo");
    let mut test_variables = StringMap::new();
    test_variables.insert("key".to_string(), "value".to_string());
    context.variables.insert(qualified_name.clone(), test_variables);
    let resolved = context
        .resolve_substitutions("echo {key}", &qualified_name, &OutputsManager::default())
        .unwrap();
    assert_eq!(resolved, "echo value");
}

#[test]
fn resolve_substitutions_with_args_replaces_args() {
    let context = Context::default();
    let qualified_name = fqn("command", "foo");
    let resolved = context
        .resolve_substitutions_with_args(
            "echo {args}",
            &qualified_name,
            &OutputsManager::default(),
            vec!["arg".to_string()],
            &None,
        )
        .unwrap();
    assert_eq!(resolved, "echo arg");
}

#[test]
fn resolve_substitutions_with_args_appends_args() {
    let context = Context::default();
    let qualified_name = fqn("command", "foo");
    let resolved = context
        .resolve_substitutions_with_args(
            "echo",
            &qualified_name,
            &OutputsManager::default(),
            vec!["arg".to_string()],
            &None,
        )
        .unwrap();
    assert_eq!(resolved, "echo arg");
}

#[test]
fn resolve_substitutions_with_args_escapes_args() {
    let context = Context::default();
    let qualified_name = fqn("command", "foo");
    let resolved = context
        .resolve_substitutions_with_args(
            "echo",
            &qualified_name,
            &OutputsManager::default(),
            vec!["$arg".to_string()],
            &None,
        )
        .unwrap();
    assert_eq!(resolved, "echo '$arg'");
}

#[test]
fn resolve_substitutions_with_args_uses_default_args() {
    let context = Context::default();
    let qualified_name = fqn("command", "foo");
    let resolved = context
        .resolve_substitutions_with_args(
            "echo",
            &qualified_name,
            &OutputsManager::default(),
            vec![],
            &Some("arg".to_string()),
        )
        .unwrap();
    assert_eq!(resolved, "echo arg");
}

#[test]
fn test_get_lookup_name() {
    let name = get_lookup_name("tag.name".to_string(), "default".to_string());
    assert_eq!(name.tag, "tag");
    assert_eq!(name.name, "name");
    let name = get_lookup_name("name".to_string(), "default".to_string());
    assert_eq!(name.tag, "default");
    assert_eq!(name.name, "name");
}

fn single(name_map: &mut NameMap, key: &str, tag: &str, name: &str) {
    name_map.insert(key.to_string(), vec![fqn(tag, name)]);
}

#[test]
fn test_resolve_requires() {
    let mut name_map: NameMap = Table::new();
    single(&mut name_map, "a", "tag", "a");
    single(&mut name_map, "b", "tag", "b");
    let requires = vec!["a".to_string(), "b".to_string()];
    let resolved = resolve_requires(&requires, &name_map).unwrap();
    assert_eq!(resolved.len(), 2);
    assert_eq!(resolved[0].name, "a");
    assert_eq!(resolved[1].name, "b");
}

#[test]
fn test_resolve_requires_ambiguous() {
    let mut name_map: NameMap = Table::new();
    single(&mut name_map, "a", "tag", "a");
    name_map.insert("b".to_string(), vec![fqn("tag", "b"), fqn("tag", "b")]);
    let requires = vec!["a".to_string(), "b".to_string()];
    let resolved = resolve_requires(&requires, &name_map);
    assert!(resolved.is_err());
    assert_eq!(
        resolved.unwrap_err().to_string(),
        "Ambiguous reference <b>, could be <tag.b, tag.b>"
    );
}

#[test]
fn test_resolve_requires_non_existent() {
    let name_map: NameMap = Table::new();
    let requires = vec!["a".to_string(), "b".to_string()];
    let resolved = resolve_requires(&requires, &name_map);
    assert!(resolved.is_err());
    assert_eq!(resolved.unwrap_err().to_string(), "Non-existent reference <a>");
}

#[test]
fn test_target_info_from_config() {
    let config = ConfigTargetInfo {
        requires: Some(vec!["a".to_string(), "b".to_string()]),
        variables: Some(StringMap::new()),
        extends: None,
        description: Some("description".to_string()),
    };
    let mut name_map: NameMap = Table::new();
    single(&mut name_map, "a", "tag", "a");
    single(&mut name_map, "b", "tag", "b");
    let target_info = target_info_from_config(fqn("tag", "name"), &config, &name_map, None).unwrap();
    assert_eq!(target_info.name.name, "name");
    assert_eq!(target_info.requires.len(), 2);
    assert_eq!(target_info.variables.len(), 0);
    assert_eq!(target_info.description, Some("description".to_string()));
}

#[test]
fn test_variable_from_string_simple() {
    let variable = Variable::from_string("foo").unwrap();
    match variable {
        Variable::Simple(s) => assert_eq!(s, "foo"),
        _ => panic!("Expected simple variable"),
    }
}

#[test]
fn test_variable_from_string_global() {
    let variable = Variable::from_string("globals.foo").unwrap();
    match variable {
        Variable::Global(s) => assert_eq!(s, "foo"),
        _ => panic!("Expected global variable"),
    }
}

#[test]
fn test_variable_from_string_output() {
    let variable = Variable::from_string("commands.foo.output.bar").unwrap();
    match variable {
        Variable::Output(target, s) => {
            assert_eq!(target, "commands.foo");
            assert_eq!(s, "bar");
        }
        _ => panic!("Expected output variable"),
    }
}

#[test]
fn test_variable_from_string_output_multi_part() {
    let variable = Variable::from_string("commands.exec.foo.output.bar").unwrap();
    match variable {
        Variable::Output(target, s) => {
            assert_eq!(target, "commands.exec.foo");
            assert_eq!(s, "bar");
        }
        _ => panic!("Expected output variable"),
    }
}

#[test]
fn test_variable_from_string_ref() {
    let variable = Variable::from_string("commands.foo.bar").unwrap();
    match variable {
        Variable::Ref(target, s) => {
            assert_eq!(target, "commands.foo");
            assert_eq!(s, "bar");
        }
        _ => panic!("Expected ref variable"),
    }
}

#[test]
fn test_variable_from_string_ref_multi_part() {
    let variable = Variable::from_string("commands.exec.foo.bar").unwrap();
    match variable {
        Variable::Ref(target, s) => {
            assert_eq!(target, "commands.exec.foo");
            assert_eq!(s, "bar");
        }
        _ => panic!("Expected ref variable"),
    }
}

#[test]
fn test_resolve_target_names_in() {
    let mut name_map: NameMap = Table::new();
    single(&mut name_map, "foo", "command", "foo");
    let resolved = resolve_target_names_in("{foo.bar}", &name_map).unwrap();
    assert_eq!(resolved, "{command.foo.bar}");
}

#[test]
fn test_resolve_target_names_in_with_output() {
    let mut name_map: NameMap = Table::new();
    single(&mut name_map, "foo", "commands", "foo");
    let resolved = resolve_target_names_in("{foo.output.bar}", &name_map).unwrap();
    assert_eq!(resolved, "{commands.foo.output.bar}");
}

#[test]
fn test_resolve_target_names_in_with_global() {
    let name_map: NameMap = Table::new();
    let resolved = resolve_target_names_in("{globals.bar}", &name_map).unwrap();
    assert_eq!(resolved, "{globals.bar}");
}

#[test]
fn test_resolve_target_names_in_with_simple() {
    let name_map: NameMap = Table::new();
    let resolved = resolve_target_names_in("{bar}", &name_map).unwrap();
    assert_eq!(resolved, "{bar}");
}
