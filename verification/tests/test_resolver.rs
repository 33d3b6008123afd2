use pls::config::{
    Artifact, ArtifactInfo, Command, CommandInfo, Config, ContainerBuild, ContainerCommand,
    ExecArtifact, ExecCommand, TargetInfo,
};
use pls::context::{resolve_extends, ConfigWrapper, Context, NameMap};
use pls::error::ErrorKind;
use pls::name::FullyQualifiedName;
use pls::table::{StringMap, Table};
use pls::target::Target;
use pls::validate::Validate;

fn fqn(text: &str) -> FullyQualifiedName {
    FullyQualifiedName::from_string(text)
}

fn strings(items: Vec<&str>) -> Vec<String> {
    items.into_iter().map(String::from).collect()
}

fn map(entries: Vec<(&str, &str)>) -> StringMap {
    Table { entries: entries.into_iter().map(|(k, v)| (k.to_string(), v.to_string())).collect() }
}

fn no_info() -> TargetInfo {
    TargetInfo { requires: None, extends: None, variables: None, description: None }
}

fn extending(name: &str) -> TargetInfo {
    TargetInfo { extends: Some(name.to_string()), ..no_info() }
}

fn exec(command: Option<&str>, target_info: TargetInfo) -> ExecCommand {
    ExecCommand {
        command: command.map(String::from),
        default_args: None,
        env: None,
        target_info,
        command_info: CommandInfo { daemon: None },
    }
}

fn container(image: Option<&str>, target_info: TargetInfo) -> ContainerCommand {
    ContainerCommand {
        image: image.map(String::from),
        env: None,
        command: None,
        mount: None,
        workdir: None,
        network: None,
        create_network: None,
        default_args: None,
        target_info,
        command_info: CommandInfo { daemon: None },
    }
}

fn exec_artifact(command: Option<&str>, target_info: TargetInfo) -> ExecArtifact {
    ExecArtifact {
        command: command.map(String::from),
        env: None,
        target_info,
        artifact_info: ArtifactInfo { updates_paths: None, if_files_changed: None },
    }
}

fn image(context: Option<&str>, tag: Option<&str>, target_info: TargetInfo) -> ContainerBuild {
    ContainerBuild {
        context: context.map(String::from),
        tag: tag.map(String::from),
        artifact_info: ArtifactInfo { updates_paths: None, if_files_changed: None },
        target_info,
    }
}

fn table<V>(entries: Vec<(&str, V)>) -> Option<Table<String, V>> {
    Some(Table { entries: entries.into_iter().map(|(k, v)| (k.to_string(), v)).collect() })
}

fn config(
    execs: Vec<(&str, ExecCommand)>,
    containers: Vec<(&str, ContainerCommand)>,
    images: Vec<(&str, ContainerBuild)>,
    exec_artifacts: Vec<(&str, ExecArtifact)>,
) -> Config {
    Config {
        globals: None,
        command: Some(Command { executable: table(execs), container: table(containers) }),
        artifact: Some(Artifact { container_image: table(images), executable: table(exec_artifacts) }),
    }
}

fn load(config: &Config) -> Result<Context, pls::error::Error> {
    Context::from_config(config, "pls.toml".to_string())
}

fn exec_of(context: &Context, name: &str) -> pls::targets::ExecCommand {
    match context.targets.get(&fqn(name)).unwrap() {
        Target::Command(pls::target::Command::Exec(c)) => c.clone(),
        other => panic!("expected an exec command, got {:?}", other),
    }
}

fn container_of(context: &Context, name: &str) -> pls::targets::ContainerCommand {
    match context.targets.get(&fqn(name)).unwrap() {
        Target::Command(pls::target::Command::Container(c)) => c.clone(),
        other => panic!("expected a container command, got {:?}", other),
    }
}

#[test]
fn extends_folds_each_field_by_its_rule() {
    let mut base = exec(Some("serve"), no_info());
    base.default_args = Some("--port 80".to_string());
    base.env = Some(strings(vec!["A=1", "B=2"]));
    base.command_info.daemon = Some(true);
    base.target_info.requires = Some(strings(vec!["setup"]));
    base.target_info.variables = Some(map(vec![("host", "base"), ("port", "80")]));
    base.target_info.description = Some("the base".to_string());

    let mut child = exec(None, extending("base"));
    child.env = Some(strings(vec!["C=3"]));
    child.target_info.requires = Some(strings(vec!["extra"]));
    child.target_info.variables = Some(map(vec![("port", "8080"), ("mode", "dev")]));

    let mut grandchild = exec(Some("serve --fast"), extending("child"));
    grandchild.default_args = Some("--port 81".to_string());
    grandchild.command_info.daemon = Some(false);

    let context = load(&config(
        vec![
            ("grandchild", grandchild),
            ("child", child),
            ("base", base),
            ("setup", exec(Some("true"), no_info())),
            ("extra", exec(Some("true"), no_info())),
        ],
        vec![],
        vec![],
        vec![],
    ))
    .unwrap();

    let child = exec_of(&context, "command.exec.child");
    assert_eq!(child.command, "serve");
    assert_eq!(child.default_args, Some("--port 80".to_string()));
    assert_eq!(child.env, strings(vec!["A=1", "B=2", "C=3"]));
    assert!(child.command_info.daemon);
    assert_eq!(child.target_info.requires, vec![fqn("command.exec.setup"), fqn("command.exec.extra")]);
    assert_eq!(
        child.target_info.variables.entries,
        map(vec![("host", "base"), ("port", "8080"), ("mode", "dev")]).entries
    );
    assert_eq!(child.target_info.description, None);

    let grandchild = exec_of(&context, "command.exec.grandchild");
    assert_eq!(grandchild.command, "serve --fast");
    assert_eq!(grandchild.default_args, Some("--port 81".to_string()));
    assert_eq!(grandchild.env, strings(vec!["A=1", "B=2", "C=3"]));
    assert!(!grandchild.command_info.daemon);
    assert_eq!(grandchild.target_info.requires.len(), 2);

    let base = exec_of(&context, "command.exec.base");
    assert_eq!(base.target_info.description, Some("the base".to_string()));
    assert_eq!(base.env, strings(vec!["A=1", "B=2"]));

    // the variables of the context are the materialized ones
    let vars = context.variables.get(&fqn("command.exec.child")).unwrap();
    assert_eq!(vars.get(&"port".to_string()), Some(&"8080".to_string()));
    assert_eq!(vars.get(&"host".to_string()), Some(&"base".to_string()));
    assert_eq!(context.variables.len(), context.targets.len());
}

#[test]
fn extends_of_a_container_merges_mounts_and_switches() {
    let mut base = container(Some("alpine"), no_info());
    base.mount = Some(map(vec![("/src", "/app"), ("/cache", "/cache")]));
    base.workdir = Some("/app".to_string());
    base.create_network = Some(true);
    let mut child = container(None, extending("command.container.base"));
    child.mount = Some(map(vec![("/cache", "/var/cache"), ("/data", "/data")]));
    child.network = Some("host".to_string());
    child.command = Some("ls".to_string());
    let context = load(&config(vec![], vec![("base", base), ("child", child)], vec![], vec![])).unwrap();
    let child = container_of(&context, "command.container.child");
    assert_eq!(child.image, "alpine");
    assert_eq!(
        child.mount.entries,
        map(vec![("/src", "/app"), ("/cache", "/var/cache"), ("/data", "/data")]).entries
    );
    assert_eq!(child.workdir, Some("/app".to_string()));
    assert_eq!(child.network, Some("host".to_string()));
    assert!(child.create_network);
    assert_eq!(child.command, Some("ls".to_string()));
    let base = container_of(&context, "command.container.base");
    assert_eq!(base.command, None);
    assert!(!base.command_info.daemon);
}

#[test]
fn extends_of_artifacts_merges_paths() {
    let mut base = exec_artifact(Some("make"), no_info());
    base.artifact_info.if_files_changed = Some(strings(vec!["src/*.c"]));
    let mut child = exec_artifact(None, extending("base"));
    child.artifact_info.if_files_changed = Some(strings(vec!["include/*.h"]));
    child.artifact_info.updates_paths = Some(strings(vec!["out"]));
    let plain = exec_artifact(Some("true"), no_info());
    let mut tagged = image(None, Some("app:dev"), extending("img"));
    tagged.target_info.description = Some("dev image".to_string());
    let context = load(&config(
        vec![],
        vec![],
        vec![("img", image(Some("."), Some("app:latest"), no_info())), ("dev", tagged)],
        vec![("base", base), ("child", child), ("plain", plain)],
    ))
    .unwrap();
    let info = |name: &str| match context.targets.get(&fqn(name)).unwrap() {
        Target::Artifact(a) => a.artifact_info().clone(),
        _ => panic!("expected an artifact"),
    };
    assert_eq!(info("artifact.exec.child").if_files_changed, Some(strings(vec!["src/*.c", "include/*.h"])));
    assert_eq!(info("artifact.exec.child").updates_paths, Some(strings(vec!["out"])));
    assert_eq!(info("artifact.exec.base").updates_paths, None);
    assert_eq!(info("artifact.exec.plain").if_files_changed, None);
    match context.targets.get(&fqn("artifact.container_image.dev")).unwrap() {
        Target::Artifact(pls::target::Artifact::ContainerImage(i)) => {
            assert_eq!(i.context, ".");
            assert_eq!(i.tag, "app:dev");
        }
        other => panic!("expected an image, got {:?}", other),
    }
}

#[test]
fn references_are_written_out_in_full_at_load() {
    let mut db = container(Some("postgres"), no_info());
    db.target_info.variables = Some(map(vec![("port", "5432")]));
    let mut app = exec(Some("app --db {db.port} --image {img.output.sha} {globals.x} {own}"), no_info());
    app.target_info.variables = Some(map(vec![("own", "{db.port}")]));
    app.target_info.requires = Some(strings(vec!["db", "artifact.container_image.img"]));
    let context = load(&config(
        vec![("app", app)],
        vec![("db", db)],
        vec![("img", image(Some("."), Some("app"), no_info()))],
        vec![],
    ))
    .unwrap();
    let app = exec_of(&context, "command.exec.app");
    assert_eq!(
        app.command,
        "app --db {command.container.db.port} --image {artifact.container_image.img.output.sha} {globals.x} {own}"
    );
    assert_eq!(
        app.target_info.variables.get(&"own".to_string()),
        Some(&"{command.container.db.port}".to_string())
    );
    assert_eq!(
        app.target_info.requires,
        vec![fqn("command.container.db"), fqn("artifact.container_image.img")]
    );
}

#[test]
fn reference_errors_name_the_target_and_the_candidates() {
    let mut app = exec(Some("app"), no_info());
    app.target_info.requires = Some(strings(vec!["copy"]));
    let cfg = config(
        vec![("app", app)],
        vec![],
        vec![("copy", image(Some("."), Some("t"), no_info()))],
        vec![("copy", exec_artifact(Some("cp a b"), no_info()))],
    );
    let err = load(&cfg).unwrap_err();
    assert_eq!(err.kind, ErrorKind::AmbiguousReference);
    assert_eq!(
        err.to_string(),
        "Invalid reference from <command.exec.app>: Ambiguous reference <copy>, could be <artifact.container_image.copy, artifact.exec.copy>"
    );

    let mut app = exec(Some("app"), no_info());
    app.target_info.requires = Some(strings(vec!["nothing"]));
    let err = load(&config(vec![("app", app)], vec![], vec![], vec![])).unwrap_err();
    assert_eq!(err.kind, ErrorKind::NonExistentReference);
    assert_eq!(
        err.to_string(),
        "Invalid reference from <command.exec.app>: Non-existent reference <nothing>"
    );

    let err = load(&config(vec![("app", exec(Some("run {ghost.key}"), no_info()))], vec![], vec![], vec![]))
        .unwrap_err();
    assert_eq!(err.to_string(), "Non-existent reference <ghost>");
}

#[test]
fn extends_errors() {
    let err = load(&config(vec![("a", exec(Some("x"), extending("gone")))], vec![], vec![], vec![]))
        .unwrap_err();
    assert_eq!(err.kind, ErrorKind::ExtendsNonExistent);
    assert_eq!(err.to_string(), "<command.exec.a> extends non-existent <command.exec.gone>");

    let err = load(&config(
        vec![("a", exec(Some("x"), extending("b"))), ("b", exec(None, extending("a")))],
        vec![],
        vec![],
        vec![],
    ))
    .unwrap_err();
    assert_eq!(err.kind, ErrorKind::ExtendsCycle);

    let err = load(&config(vec![("a", exec(Some("x"), extending("a")))], vec![], vec![], vec![]))
        .unwrap_err();
    assert_eq!(err.kind, ErrorKind::ExtendsCycle);

    let err = load(&config(
        vec![("a", exec(Some("x"), extending("command.container.c")))],
        vec![("c", container(Some("alpine"), no_info()))],
        vec![],
        vec![],
    ))
    .unwrap_err();
    assert_eq!(err.kind, ErrorKind::WrongKind);
    assert_eq!(err.to_string(), "Expected an exec command");

    let err = load(&config(
        vec![("a", exec(Some("x"), extending("artifact.exec.f")))],
        vec![],
        vec![],
        vec![("f", exec_artifact(Some("make"), no_info()))],
    ))
    .unwrap_err();
    assert_eq!(err.to_string(), "Expected a command");

    let err = load(&config(
        vec![("c", exec(Some("x"), no_info()))],
        vec![],
        vec![("i", image(Some("."), Some("t"), extending("command.exec.c")))],
        vec![],
    ))
    .unwrap_err();
    assert_eq!(err.to_string(), "Expected an artifact");

    let err = load(&config(
        vec![],
        vec![],
        vec![("i", image(Some("."), Some("t"), extending("artifact.exec.f")))],
        vec![("f", exec_artifact(Some("make"), extending("artifact.container_image.j")))],
    ))
    .unwrap_err();
    assert_eq!(err.kind, ErrorKind::ExtendsNonExistent);
}

#[test]
fn records_are_validated() {
    let err = load(&config(vec![("a", exec(None, no_info()))], vec![], vec![], vec![])).unwrap_err();
    assert_eq!(err.kind, ErrorKind::Validation);
    assert_eq!(err.to_string(), "Error validating <command.exec.a>: Command must not be empty");
    let err = load(&config(vec![], vec![("c", container(None, no_info()))], vec![], vec![])).unwrap_err();
    assert_eq!(err.to_string(), "Error validating <command.container.c>: image must not be empty");
    let err = load(&config(vec![], vec![], vec![("i", image(Some("."), None, no_info()))], vec![]))
        .unwrap_err();
    assert_eq!(err.to_string(), "Error validating <artifact.container_image.i>: tag must not be empty");
    let err = load(&config(vec![], vec![], vec![], vec![("f", exec_artifact(None, no_info()))]))
        .unwrap_err();
    assert_eq!(err.to_string(), "Error validating <artifact.exec.f>: Command must not be empty");
    let mut c = container(Some("alpine"), no_info());
    c.mount = Some(map(vec![("/a", "")]));
    let err = load(&config(vec![], vec![("c", c)], vec![], vec![])).unwrap_err();
    assert_eq!(err.to_string(), "Error validating <command.container.c>: value cannot be empty");
    let mut e = exec(Some("x"), no_info());
    e.env = Some(strings(vec!["A=1", ""]));
    let err = load(&config(vec![("e", e)], vec![], vec![], vec![])).unwrap_err();
    assert_eq!(err.to_string(), "Error validating <command.exec.e>: string cannot be empty");
}

#[test]
fn the_configuration_is_validated() {
    let good = config(
        vec![("a", exec(Some("x"), no_info()))],
        vec![("c", container(Some("alpine"), no_info()))],
        vec![("i", image(Some("."), Some("t"), no_info()))],
        vec![("f", exec_artifact(Some("make"), no_info()))],
    );
    assert!(good.validate().is_ok());
    assert!(Config { globals: None, command: None, artifact: None }.validate().is_ok());

    let mut bad = config(vec![("a", exec(Some(""), no_info()))], vec![], vec![], vec![]);
    assert_eq!(bad.validate().unwrap_err().to_string(), "Command must not be empty");
    bad.globals = Some(map(vec![("k", "")]));
    let err = bad.validate().unwrap_err();
    assert_eq!(err.code, "invalid_hash_value");
    assert_eq!(err.to_string(), "value cannot be empty");

    let mut info = no_info();
    info.extends = Some("".to_string());
    let bad = config(vec![("a", exec(Some("x"), info))], vec![], vec![], vec![]);
    assert_eq!(bad.validate().unwrap_err().to_string(), "Name must not be empty");

    let mut info = no_info();
    info.requires = Some(strings(vec!["a", ""]));
    let bad = config(vec![], vec![("c", container(Some("alpine"), info))], vec![], vec![]);
    assert_eq!(bad.validate().unwrap_err().to_string(), "string cannot be empty");

    let mut info = no_info();
    info.variables = Some(map(vec![("", "v")]));
    let bad = config(vec![], vec![], vec![("i", image(Some("."), Some("t"), info))], vec![]);
    assert_eq!(bad.validate().unwrap_err().to_string(), "key cannot be empty");

    let mut f = exec_artifact(Some("make"), no_info());
    f.artifact_info.updates_paths = Some(strings(vec![""]));
    let bad = config(vec![], vec![], vec![], vec![("f", f)]);
    assert_eq!(bad.validate().unwrap_err().code, "empty_string_in_vec");

    let mut c = container(Some(""), no_info());
    c.workdir = Some("".to_string());
    let bad = config(vec![], vec![("c", c)], vec![], vec![]);
    assert_eq!(bad.validate().unwrap_err().to_string(), "image must not be empty");
}

#[test]
fn resolve_extends_lays_a_definition_on_its_base() {
    let base = exec(Some("echo base"), no_info());
    let child = exec(None, extending("base"));
    let mut commands: Table<FullyQualifiedName, ConfigWrapper> = Table::new();
    commands.insert(fqn("command.exec.base"), ConfigWrapper::Exec(&base));
    commands.insert(fqn("command.exec.child"), ConfigWrapper::Exec(&child));
    let name_map: NameMap = Table::new();
    let target = resolve_extends(
        fqn("command.exec.child"),
        &ConfigWrapper::Exec(&child),
        &commands,
        &name_map,
    )
    .unwrap();
    match target {
        Target::Command(pls::target::Command::Exec(c)) => {
            assert_eq!(c.command, "echo base");
            assert_eq!(c.target_info.name, fqn("command.exec.child"));
        }
        other => panic!("expected an exec command, got {:?}", other),
    }
    let wrapper = ConfigWrapper::Exec(&child);
    assert_eq!(wrapper.extends(), Some("base".to_string()));
    assert_eq!(wrapper.type_tag(), "command.exec");
    assert!(!wrapper.is_artifact());
    assert!(wrapper.command_info().is_some());
    assert!(wrapper.artifact_info().is_none());
}
