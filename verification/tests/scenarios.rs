use pls::cmd::status::status_line;
use pls::cmd::{
    BuildCommand, Execute, ListCommand, RunCommand, StartCommand, StatusCommand, StopCommand,
    WatchCommand, Work,
};
use pls::commands::{build_command, status, Daemon};
use pls::config::{
    Artifact, ArtifactInfo, Command, CommandInfo, Config, ContainerBuild, ContainerCommand,
    ExecArtifact, ExecCommand, TargetInfo,
};
use pls::context::Context;
use pls::error::ErrorKind;
use pls::name::FullyQualifiedName;
use pls::outputs::OutputsManager;
use pls::runner::{teardown, Step};
use pls::staleness::{last_run, should_rerun, LastRun};
use pls::table::{StringMap, Table};
use pls::target::{Runnable, Target};

fn fqn(text: &str) -> FullyQualifiedName {
    FullyQualifiedName::from_string(text)
}

fn no_info() -> TargetInfo {
    TargetInfo { requires: None, extends: None, variables: None, description: None }
}

fn exec(command: &str) -> ExecCommand {
    ExecCommand {
        command: Some(command.to_string()),
        default_args: None,
        env: None,
        target_info: no_info(),
        command_info: CommandInfo { daemon: None },
    }
}

fn container(image: Option<&str>, command: Option<&str>) -> ContainerCommand {
    ContainerCommand {
        image: image.map(String::from),
        env: None,
        command: command.map(String::from),
        mount: None,
        workdir: None,
        network: None,
        create_network: None,
        default_args: None,
        target_info: no_info(),
        command_info: CommandInfo { daemon: None },
    }
}

fn exec_artifact(command: &str) -> ExecArtifact {
    ExecArtifact {
        command: Some(command.to_string()),
        env: None,
        target_info: no_info(),
        artifact_info: ArtifactInfo { updates_paths: None, if_files_changed: None },
    }
}

fn image(context: &str, tag: &str) -> ContainerBuild {
    ContainerBuild {
        context: Some(context.to_string()),
        tag: Some(tag.to_string()),
        artifact_info: ArtifactInfo { updates_paths: None, if_files_changed: None },
        target_info: no_info(),
    }
}

fn table<V>(entries: Vec<(&str, V)>) -> Option<Table<String, V>> {
    Some(Table { entries: entries.into_iter().map(|(k, v)| (k.to_string(), v)).collect() })
}

fn config(
    execs: Vec<(&str, ExecCommand)>,
    containers: Vec<(&str, ContainerCommand)>,
    images: Vec<(&str, ContainerBuild)>,
    exec_artifacts: Vec<(&str, ExecArtifact)>,
) -> Config {
    Config {
        globals: None,
        command: Some(Command { executable: table(execs), container: table(containers) }),
        artifact: Some(Artifact { container_image: table(images), executable: table(exec_artifacts) }),
    }
}

fn load(config: &Config) -> Context {
    Context::from_config(config, "pls.toml".to_string()).unwrap()
}

fn steps_of(work: Work) -> Vec<Step> {
    match work {
        Work::Steps(steps) => steps,
        other => panic!("expected steps, got {:?}", other),
    }
}

fn show(steps: &Vec<Step>) -> Vec<String> {
    steps
        .iter()
        .map(|s| match s {
            Step::Build(n, check) => format!("build {} {}", n.to_string(), check),
            Step::Run(n, args) => format!("run {} {:?}", n.to_string(), args),
            Step::Start(n, args) => format!("start {} {:?}", n.to_string(), args),
            Step::Stop(n) => format!("stop {}", n.to_string()),
        })
        .collect()
}

fn run(context: &Context, name: &str, args: Vec<&str>) -> Result<Work, pls::error::Error> {
    RunCommand { name: name.to_string(), args: args.into_iter().map(String::from).collect() }
        .execute(context)
}

fn argv_of(context: &Context, name: &str, args: Vec<&str>) -> Vec<String> {
    let target = context.targets.get(&fqn(name)).unwrap();
    let job = target
        .run(context, &OutputsManager::new(), args.into_iter().map(String::from).collect())
        .unwrap();
    let line = build_command(job.command.as_str()).unwrap();
    let mut argv = vec![line.program];
    argv.extend(line.args);
    argv
}

#[test]
fn test_exec_command() {
    let context = load(&config(vec![("hello", exec("echo hello"))], vec![], vec![], vec![]));
    let steps = steps_of(run(&context, "hello", vec![]).unwrap());
    assert_eq!(show(&steps), vec!["run command.exec.hello []"]);
    assert_eq!(argv_of(&context, "command.exec.hello", vec![]), vec!["echo", "hello"]);
}

#[test]
fn test_globals() {
    let mut cfg = config(vec![("hello", exec("echo hello {globals.place}"))], vec![], vec![], vec![]);
    let mut globals = StringMap::new();
    globals.insert("place".to_string(), "world".to_string());
    cfg.globals = Some(globals);
    let context = load(&cfg);
    assert_eq!(argv_of(&context, "command.exec.hello", vec![]), vec!["echo", "hello", "world"]);
}

#[test]
fn test_variables() {
    let mut hello = exec("echo hello {place}");
    let mut variables = StringMap::new();
    variables.insert("place".to_string(), "world".to_string());
    hello.target_info.variables = Some(variables);
    let context = load(&config(vec![("hello", hello)], vec![], vec![], vec![]));
    assert_eq!(argv_of(&context, "command.exec.hello", vec![]), vec!["echo", "hello", "world"]);
}

#[test]
fn test_with_args() {
    let context = load(&config(vec![("hello", exec("echo {args} hello"))], vec![], vec![], vec![]));
    let steps = steps_of(run(&context, "hello", vec!["world"]).unwrap());
    assert_eq!(show(&steps), vec!["run command.exec.hello [\"world\"]"]);
    let target = context.targets.get(&fqn("command.exec.hello")).unwrap();
    let job = target.run(&context, &OutputsManager::new(), vec!["world".to_string()]).unwrap();
    assert_eq!(job.command, "echo world hello");
}

#[test]
fn test_requires() {
    let mut world = exec("echo world");
    world.target_info.requires = Some(vec!["hello".to_string()]);
    let context = load(&config(vec![("hello", exec("echo hello")), ("world", world)], vec![], vec![], vec![]));
    let steps = steps_of(run(&context, "world", vec![]).unwrap());
    assert_eq!(show(&steps), vec!["run command.exec.hello []", "run command.exec.world []"]);
}

#[test]
fn test_exec_command_test_extends() {
    let mut world = exec("echo world");
    world.target_info.extends = Some("hello".to_string());
    let context = load(&config(vec![("hello", exec("echo hello")), ("world", world)], vec![], vec![], vec![]));
    assert_eq!(argv_of(&context, "command.exec.world", vec![]), vec!["echo", "world"]);
}

#[test]
fn test_container_command() {
    let context = load(&config(
        vec![],
        vec![("hello", container(Some("docker.io/alpine:latest"), Some("echo hello")))],
        vec![],
        vec![],
    ));
    let argv = argv_of(&context, "command.container.hello", vec![]);
    assert_eq!(&argv[0..4], &["podman", "run", "--name", argv[3].as_str()]);
    assert!(argv[3].starts_with("command.container.hello-"));
    assert_eq!(argv[3].len(), "command.container.hello-".len() + 8);
    assert_eq!(&argv[4..], &["--rm", "docker.io/alpine:latest", "echo", "hello"]);
}

#[test]
fn test_container_command_test_extends() {
    let mut world = container(None, Some("echo world"));
    world.target_info.extends = Some("hello".to_string());
    let context = load(&config(
        vec![],
        vec![("hello", container(Some("docker.io/alpine:latest"), None)), ("world", world)],
        vec![],
        vec![],
    ));
    let argv = argv_of(&context, "command.container.world", vec![]);
    assert_eq!(&argv[4..], &["--rm", "docker.io/alpine:latest", "echo", "world"]);
}

fn copy_artifact() -> ExecArtifact {
    let mut copy = exec_artifact("cp hello world");
    copy.artifact_info.updates_paths = Some(vec!["world".to_string()]);
    copy.artifact_info.if_files_changed = Some(vec!["hello".to_string()]);
    copy
}

fn artifact_info_of(context: &Context, name: &str) -> pls::target::ArtifactInfo {
    match context.targets.get(&fqn(name)).unwrap() {
        Target::Artifact(a) => a.artifact_info().clone(),
        Target::Command(_) => panic!("expected an artifact"),
    }
}

#[test]
fn test_build() {
    let context = load(&config(vec![], vec![], vec![], vec![("copy", copy_artifact())]));
    let work = BuildCommand { artifact: "copy".to_string() }.execute(&context).unwrap();
    assert_eq!(show(&steps_of(work)), vec!["build artifact.exec.copy true"]);
    // `hello` was touched at 100 and `world` does not exist yet
    let info = artifact_info_of(&context, "artifact.exec.copy");
    let built = last_run(&info, LastRun::Never, vec![]);
    assert_eq!(built, LastRun::Never);
    assert!(should_rerun(&info, LastRun::Never, built, LastRun::Time(100), &vec![]));
    assert_eq!(argv_of(&context, "artifact.exec.copy", vec![]), vec!["cp", "hello", "world"]);
}

#[test]
fn test_build_doesnt_rebuild() {
    let context = load(&config(vec![], vec![], vec![], vec![("copy", copy_artifact())]));
    let info = artifact_info_of(&context, "artifact.exec.copy");
    // after the first build `world` carries the time 200, `hello` still 100
    let built = last_run(&info, LastRun::Time(201), vec![LastRun::Time(200)]);
    assert_eq!(built, LastRun::Time(200));
    assert!(!should_rerun(&info, LastRun::Time(201), built, LastRun::Time(100), &vec![]));
}

#[test]
fn test_build_rebuilds_if_file_changes() {
    let context = load(&config(vec![], vec![], vec![], vec![("copy", copy_artifact())]));
    let info = artifact_info_of(&context, "artifact.exec.copy");
    let built = last_run(&info, LastRun::Time(201), vec![LastRun::Time(200)]);
    assert!(!should_rerun(&info, LastRun::Time(201), built, LastRun::Time(100), &vec![]));
    // `hello` is touched again at 300
    assert!(should_rerun(&info, LastRun::Time(201), built, LastRun::Time(300), &vec![]));
}

#[test]
fn test_error_when_is_not_an_arfifact() {
    let context = load(&config(vec![("copy", exec("cp hello world"))], vec![], vec![], vec![]));
    let err = BuildCommand { artifact: "copy".to_string() }.execute(&context).unwrap_err();
    assert_eq!(err.kind, ErrorKind::Capability);
    assert_eq!(err.to_string(), "Target <copy> is not buildable, use the run command instead");
}

#[test]
fn test_build_test_error_when_does_not_exist() {
    let context = load(&config(vec![("copy", exec("cp hello world"))], vec![], vec![], vec![]));
    let err = BuildCommand { artifact: "non_existent".to_string() }.execute(&context).unwrap_err();
    assert_eq!(err.kind, ErrorKind::TargetNotFound);
    assert_eq!(err.to_string(), "Target <non_existent> not found in config file <pls.toml>");
}

fn two_copies() -> Context {
    load(&config(
        vec![],
        vec![],
        vec![("copy", image(".", "latest"))],
        vec![("copy", exec_artifact("cp hello world"))],
    ))
}

const AMBIGUOUS: &str = "Target <copy> is ambiguous, possible values are <artifact.container_image.copy, artifact.exec.copy>, please specify the command to run using one of those names";

#[test]
fn test_build_test_error_when_ambiguous() {
    let err = BuildCommand { artifact: "copy".to_string() }.execute(&two_copies()).unwrap_err();
    assert_eq!(err.kind, ErrorKind::AmbiguousTarget);
    assert_eq!(err.to_string(), AMBIGUOUS);
}

#[test]
fn test_run_test_error_when_does_not_exist() {
    let context = load(&config(vec![("copy", exec("cp hello world"))], vec![], vec![], vec![]));
    let err = run(&context, "non_existent", vec![]).unwrap_err();
    assert_eq!(err.to_string(), "Target <non_existent> not found in config file <pls.toml>");
}

#[test]
fn test_run_test_error_when_ambiguous() {
    let err = run(&two_copies(), "copy", vec![]).unwrap_err();
    assert_eq!(err.to_string(), AMBIGUOUS);
}

#[test]
fn ambiguity_is_resolved_by_the_full_name() {
    let context = two_copies();
    let work = BuildCommand { artifact: "artifact.exec.copy".to_string() }.execute(&context).unwrap();
    assert_eq!(show(&steps_of(work)), vec!["build artifact.exec.copy true"]);
    match context.get_target("copy") {
        pls::context::CommandLookupResult::Duplicates(d) => {
            assert_eq!(d, vec!["artifact.container_image.copy", "artifact.exec.copy"])
        }
        _ => panic!("expected duplicates"),
    }
    assert!(matches!(context.get_target("nothing"), pls::context::CommandLookupResult::NotFound));
    assert!(matches!(
        context.get_target("artifact.exec.nothing"),
        pls::context::CommandLookupResult::NotFound
    ));
}

#[test]
fn test_list() {
    let mut hello = container(Some("alpine"), None);
    hello.target_info.description = Some("Hello world".to_string());
    let context = load(&config(
        vec![],
        vec![("hello", hello)],
        vec![],
        vec![("copy", exec_artifact("cp hello world"))],
    ));
    match (ListCommand {}).execute(&context).unwrap() {
        Work::Print(lines) => {
            assert_eq!(lines, vec!["artifact.exec.copy - ", "command.container.hello - Hello world"])
        }
        other => panic!("expected lines, got {:?}", other),
    }
}

fn daemon(command: &str) -> ExecCommand {
    let mut d = exec(command);
    d.command_info.daemon = Some(true);
    d
}

#[test]
fn test_start() {
    let context = load(&config(vec![("do_stuff", daemon("sleep 60"))], vec![], vec![], vec![]));
    let work = StartCommand { name: "do_stuff".to_string(), args: vec![] }.execute(&context).unwrap();
    assert_eq!(show(&steps_of(work)), vec!["start command.exec.do_stuff []"]);
    let work = StopCommand { target: "do_stuff".to_string() }.execute(&context).unwrap();
    assert_eq!(show(&steps_of(work)), vec!["stop command.exec.do_stuff"]);
}

#[test]
fn test_status_not_started() {
    let context = load(&config(vec![("do_stuff", daemon("sleep 60"))], vec![], vec![], vec![]));
    let work = StatusCommand { name: "do_stuff".to_string() }.execute(&context).unwrap();
    match work {
        Work::Status(name) => {
            assert_eq!(name, fqn("command.exec.do_stuff"));
            assert_eq!(
                status_line(&name, &status(Daemon::NoPidFile)),
                "[command.exec.do_stuff] Not running"
            );
            assert_eq!(
                status_line(&name, &status(Daemon::Alive(77))),
                "[command.exec.do_stuff] Running with pid <77>"
            );
        }
        other => panic!("expected a status request, got {:?}", other),
    }
}

#[test]
fn artifacts_cannot_be_started_stopped_or_asked_for_status() {
    let context = load(&config(vec![], vec![], vec![], vec![("copy", exec_artifact("cp a b"))]));
    let err = StartCommand { name: "copy".to_string(), args: vec![] }.execute(&context).unwrap_err();
    assert_eq!(err.to_string(), "Target <copy> is not startable");
    let err = StopCommand { target: "copy".to_string() }.execute(&context).unwrap_err();
    assert_eq!(err.to_string(), "Target <copy> is not stopable");
    let err = StatusCommand { name: "copy".to_string() }.execute(&context).unwrap_err();
    assert_eq!(err.to_string(), "Target <copy> is not startable");
    let err = run(&context, "copy", vec!["x"]).unwrap_err();
    assert_eq!(err.kind, ErrorKind::ArtifactArguments);
    assert_eq!(err.to_string(), "Artifacts do not accept arguments");
    let steps = steps_of(run(&context, "copy", vec![]).unwrap());
    assert_eq!(show(&steps), vec!["build artifact.exec.copy false"]);
}

fn requiring(mut target: ExecCommand, names: Vec<&str>) -> ExecCommand {
    target.target_info.requires = Some(names.into_iter().map(String::from).collect());
    target
}

#[test]
fn requirements_are_satisfied_in_order_and_daemons_are_stopped_after() {
    let mut gen = exec_artifact("make gen");
    gen.target_info.requires = Some(vec!["db".to_string()]);
    let context = load(&config(
        vec![
            ("db", daemon("postgres")),
            ("cache", daemon("redis")),
            ("migrate", requiring(exec("migrate"), vec!["db"])),
            ("app", requiring(exec("app"), vec!["gen", "cache", "migrate"])),
        ],
        vec![],
        vec![],
        vec![("gen", gen)],
    ));
    let steps = steps_of(run(&context, "app", vec!["--port", "80"]).unwrap());
    assert_eq!(
        show(&steps),
        vec![
            "start command.exec.db []",
            "build artifact.exec.gen true",
            "stop command.exec.db",
            "start command.exec.cache []",
            "start command.exec.db []",
            "run command.exec.migrate []",
            "stop command.exec.db",
            "run command.exec.app [\"--port\", \"80\"]",
            "stop command.exec.cache",
        ]
    );
    // what is still running should a step fail
    let running = |done: usize| -> Vec<String> {
        teardown(&steps, done).iter().map(|n| n.to_string()).collect()
    };
    assert_eq!(running(0), Vec::<String>::new());
    assert_eq!(running(1), vec!["command.exec.db"]);
    assert_eq!(running(3), Vec::<String>::new());
    assert_eq!(running(5), vec!["command.exec.cache", "command.exec.db"]);
    assert_eq!(running(7), vec!["command.exec.cache"]);
    assert_eq!(running(9), Vec::<String>::new());
}

#[test]
fn self_requirement_and_cycles_are_refused() {
    let cfg = config(vec![("a", requiring(exec("a"), vec!["a"]))], vec![], vec![], vec![]);
    let err = Context::from_config(&cfg, "pls.toml".to_string()).unwrap_err();
    assert_eq!(err.kind, ErrorKind::RequiresCycle);
    assert_eq!(
        err.to_string(),
        "Target <command.exec.a> requires itself, directly or through others"
    );
    let cfg = config(
        vec![
            ("a", requiring(exec("a"), vec!["b"])),
            ("b", requiring(exec("b"), vec!["c"])),
            ("c", requiring(exec("c"), vec!["a"])),
        ],
        vec![],
        vec![],
        vec![],
    );
    assert_eq!(
        Context::from_config(&cfg, "pls.toml".to_string()).unwrap_err().kind,
        ErrorKind::RequiresCycle
    );
    // a diamond is no cycle
    let cfg = config(
        vec![
            ("a", requiring(exec("a"), vec!["b", "c"])),
            ("b", requiring(exec("b"), vec!["d"])),
            ("c", requiring(exec("c"), vec!["d"])),
            ("d", exec("d")),
        ],
        vec![],
        vec![],
        vec![],
    );
    let context = load(&cfg);
    let steps = steps_of(run(&context, "a", vec![]).unwrap());
    assert_eq!(
        show(&steps),
        vec![
            "run command.exec.d []",
            "run command.exec.b []",
            "run command.exec.d []",
            "run command.exec.c []",
            "run command.exec.a []",
        ]
    );
}

#[test]
fn a_context_built_by_hand_is_checked_when_it_is_walked() {
    let make = |name: &str, requires: Vec<&str>| -> Target {
        Target::Command(pls::target::Command::Exec(pls::targets::ExecCommand {
            command: "true".to_string(),
            default_args: None,
            env: vec![],
            target_info: pls::target::TargetInfo {
                name: fqn(name),
                requires: requires.into_iter().map(fqn).collect(),
                variables: StringMap::new(),
                description: None,
            },
            command_info: pls::target::CommandInfo { daemon: false },
        }))
    };
    let mut context = Context::new();
    context.config_path = "here".to_string();
    context.targets.insert(fqn("t.selfish"), make("t.selfish", vec!["t.selfish"]));
    context.targets.insert(fqn("t.lost"), make("t.lost", vec!["t.gone"]));
    context.targets.insert(fqn("t.a"), make("t.a", vec!["t.b"]));
    context.targets.insert(fqn("t.b"), make("t.b", vec!["t.a"]));
    let err = run(&context, "t.selfish", vec![]).unwrap_err();
    assert_eq!(err.kind, ErrorKind::RequiresItself);
    assert_eq!(err.to_string(), "Target <t.selfish> requires itself");
    let err = run(&context, "t.lost", vec![]).unwrap_err();
    assert_eq!(err.kind, ErrorKind::TargetNotFound);
    assert_eq!(err.to_string(), "Target <t.gone> not found in config file <here>");
    let err = run(&context, "t.a", vec![]).unwrap_err();
    assert_eq!(err.kind, ErrorKind::RequiresCycle);
}

#[test]
fn watching_starts_the_target_and_runs_it_again_on_change() {
    let mut gen = exec_artifact("make gen");
    gen.artifact_info.if_files_changed = Some(vec!["src/**/*.proto".to_string()]);
    let context = load(&config(
        vec![("server", requiring(daemon("serve"), vec!["gen"]))],
        vec![],
        vec![],
        vec![("gen", gen)],
    ));
    let work = WatchCommand { name: "server".to_string(), args: vec![] }.execute(&context).unwrap();
    match work {
        Work::Watch { start, triggers, watches } => {
            assert_eq!(
                show(&start),
                vec!["build artifact.exec.gen true", "start command.exec.server []"]
            );
            assert_eq!(watches, vec!["src/"]);
            assert_eq!(triggers.len(), 2);
            assert_eq!(triggers[1].target, fqn("artifact.exec.gen"));
            assert_eq!(triggers[1].and_then, vec![fqn("command.exec.server")]);
            let again =
                WatchCommand::on_change(&triggers, &context, &vec!["src/api/a.proto".to_string()])
                    .unwrap();
            assert_eq!(
                show(&again),
                vec![
                    "build artifact.exec.gen false",
                    "stop command.exec.server",
                    "start command.exec.server []",
                ]
            );
            let nothing =
                WatchCommand::on_change(&triggers, &context, &vec!["README.md".to_string()]).unwrap();
            assert!(nothing.is_empty());
        }
        other => panic!("expected a watch, got {:?}", other),
    }
}
