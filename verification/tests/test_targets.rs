use pls::context::Context;
use pls::job::Job;
use pls::name::FullyQualifiedName;
use pls::outputs::OutputsManager;
use pls::table::{StringMap, Table};
use pls::target::{
    last_run_path, log_path, metadata_path, pid_path, Artifact, ArtifactInfo, Buildable, Command,
    CommandInfo, Runnable, Startable, Target, TargetInfo, Targetable,
};
use pls::targets::command::container::{
    container_run_command, container_run_command_with_mounts, mount_arguments,
};
use pls::targets::{ContainerArtifact, ContainerCommand, ExecArtifact, ExecCommand};

fn fqn(text: &str) -> FullyQualifiedName {
    FullyQualifiedName::from_string(text)
}

fn strings(items: Vec<&str>) -> Vec<String> {
    items.into_iter().map(String::from).collect()
}

fn map(entries: Vec<(&str, &str)>) -> StringMap {
    Table { entries: entries.into_iter().map(|(k, v)| (k.to_string(), v.to_string())).collect() }
}

fn info(name: &str) -> TargetInfo {
    TargetInfo { name: fqn(name), requires: vec![], variables: StringMap::new(), description: None }
}

fn context() -> Context {
    let mut context = Context::new();
    context.globals.insert("registry".to_string(), "example.org".to_string());
    context.variables.insert(fqn("command.container.web"), map(vec![("port", "8080"), ("dir", "my dir")]));
    context
}

fn web() -> ContainerCommand {
    ContainerCommand {
        image: "{globals.registry}/web:latest".to_string(),
        env: strings(vec!["PORT={port}", "MODE=dev mode"]),
        command: Some("serve --port {port}".to_string()),
        mount: map(vec![("/src", "/app"), ("/{dir}", "/data")]),
        workdir: Some("/app".to_string()),
        network: None,
        create_network: true,
        default_args: Some("--quiet".to_string()),
        target_info: info("command.container.web"),
        command_info: CommandInfo { daemon: true },
    }
}

#[test]
fn container_run_command_assembles_the_line() {
    let run = container_run_command(&web(), &context(), &OutputsManager::new(), "web-1", strings(vec!["a b"]))
        .unwrap();
    assert_eq!(
        run.command,
        "podman run --name web-1 --rm -e 'PORT=8080' -e 'MODE=dev mode' -v /src:/app -v '/my dir:/data' -w /app --network web-1 example.org/web:latest serve --port 8080 'a b'"
    );
    assert_eq!(run.name, "web-1");
    assert_eq!(run.network, Some("web-1".to_string()));
    assert_eq!(run.pre_commands, vec!["podman network create web-1"]);
    assert_eq!(run.post_stop_commands, vec!["podman network rm web-1"]);
}

#[test]
fn container_run_command_without_extras() {
    let plain = ContainerCommand {
        image: "alpine".to_string(),
        env: vec![],
        command: None,
        mount: StringMap::new(),
        workdir: None,
        network: Some("host".to_string()),
        create_network: true,
        default_args: None,
        target_info: info("command.container.plain"),
        command_info: CommandInfo { daemon: false },
    };
    let run = container_run_command_with_mounts(
        &plain,
        &context(),
        &OutputsManager::new(),
        "my box",
        vec![],
        vec![],
    )
    .unwrap();
    assert_eq!(run.command, "podman run --name 'my box' --rm    --network host alpine ");
    assert!(run.pre_commands.is_empty());
    assert!(run.post_stop_commands.is_empty());
    assert_eq!(run.network, Some("host".to_string()));
}

#[test]
fn container_run_command_reports_what_failed() {
    let mut broken = web();
    broken.env = strings(vec!["X={missing}"]);
    let err = container_run_command(&broken, &context(), &OutputsManager::new(), "n", vec![]).unwrap_err();
    assert_eq!(err.to_string(), "Failed to escape env: Variable <missing> not found");
    let mut broken = web();
    broken.workdir = Some("{missing}".to_string());
    let err = container_run_command(&broken, &context(), &OutputsManager::new(), "n", vec![]).unwrap_err();
    assert_eq!(err.to_string(), "Failed to escape workdir: Variable <missing> not found");
    let mut broken = web();
    broken.command = Some("{missing}".to_string());
    let err = container_run_command(&broken, &context(), &OutputsManager::new(), "n", vec![]).unwrap_err();
    assert_eq!(err.to_string(), "Failed to escape command: Variable <missing> not found");
    let mut broken = web();
    broken.mount = map(vec![("/a", "{missing}")]);
    let err = container_run_command(&broken, &context(), &OutputsManager::new(), "n", vec![]).unwrap_err();
    assert_eq!(err.to_string(), "Failed to escape mount: Variable <missing> not found");
    let mut broken = web();
    broken.image = "{missing}".to_string();
    let err = container_run_command(&broken, &context(), &OutputsManager::new(), "n", vec![]).unwrap_err();
    assert_eq!(err.to_string(), "Variable <missing> not found");
    let mut broken = web();
    broken.network = Some("{missing}".to_string());
    let err = container_run_command(&broken, &context(), &OutputsManager::new(), "n", vec![]).unwrap_err();
    assert_eq!(err.to_string(), "Failed to escape network: Variable <missing> not found");
    let err = container_run_command(&web(), &context(), &OutputsManager::new(), "n\0", vec![]).unwrap_err();
    assert_eq!(err.kind, pls::error::ErrorKind::Quote);
}

#[test]
fn mount_arguments_keep_paths_without_a_tilde() {
    assert_eq!(
        mount_arguments(&map(vec![("/src", "/app"), ("rel/dir", "/x"), ("a~b", "/y")])),
        vec!["/src:/app", "rel/dir:/x", "a~b:/y"]
    );
    let home = mount_arguments(&map(vec![("~/work", "/w")]));
    assert_eq!(home.len(), 1);
    assert!(home[0].ends_with("/work:/w"));
}

fn job_of(target: &Target, args: Vec<&str>) -> Job {
    target.run(&context(), &OutputsManager::new(), strings(args)).unwrap()
}

#[test]
fn running_a_container_sets_up_its_cleanups() {
    let target = Target::Command(Command::Container(web()));
    let job = job_of(&target, vec![]);
    let name = job.cleanups.last().unwrap().1.strip_prefix("podman stop -i ").unwrap().to_string();
    assert!(name.starts_with("command.container.web-"));
    assert_eq!(name.len(), "command.container.web-".len() + 8);
    assert_eq!(job.pre_commands, vec![format!("podman network create {}", name)]);
    assert_eq!(
        job.cleanups,
        vec![
            ("clean_up_network".to_string(), format!("podman network rm {}", name)),
            ("stop_container".to_string(), format!("podman stop -i {}", name)),
        ]
    );
    assert!(job.command.starts_with(format!("podman run --name {} --rm ", name).as_str()));
    assert!(job.command.ends_with(" serve --port 8080 --quiet"));
    assert!(job.outputs.is_empty());
    assert!(job.env.is_empty());
    assert_eq!(job.capture, None);
    // two runs get two names
    let again = job_of(&target, vec![]);
    assert_ne!(again.cleanups.last().unwrap().1, job.cleanups.last().unwrap().1);
}

#[test]
fn starting_a_container_notes_its_name_and_network() {
    let job = web().start(&context(), &OutputsManager::new(), vec![]).unwrap();
    assert!(job.cleanups.is_empty());
    assert_eq!(job.outputs.len(), 2);
    assert_eq!(job.outputs[0].0, "name");
    assert_eq!(job.outputs[1].0, "network");
    assert_eq!(job.outputs[0].1, job.outputs[1].1);
    assert!(job.outputs[0].1.starts_with("command.container.web-"));
    let mut quiet = web();
    quiet.create_network = false;
    let job = quiet.start(&context(), &OutputsManager::new(), vec![]).unwrap();
    assert_eq!(job.outputs.len(), 1);
    assert!(job.pre_commands.is_empty());
    assert_eq!(web().stop(), ".taskrunner/command.container.web/pid");
    let mut broken = web();
    broken.image = "{missing}".to_string();
    let err = broken.start(&context(), &OutputsManager::new(), vec![]).unwrap_err();
    assert_eq!(
        err.to_string(),
        "Error escaping podman command for <command.container.web>: Variable <missing> not found"
    );
}

fn exec_command() -> ExecCommand {
    ExecCommand {
        command: "run {args} --registry {globals.registry}".to_string(),
        default_args: Some("--all".to_string()),
        env: strings(vec!["REGISTRY={globals.registry}", "PLAIN=1"]),
        target_info: info("command.exec.tool"),
        command_info: CommandInfo { daemon: false },
    }
}

#[test]
fn exec_commands_resolve_their_line_and_environment() {
    let tool = exec_command();
    assert_eq!(
        tool.resolve_command(&context(), &OutputsManager::new(), strings(vec!["x y"])).unwrap(),
        "run 'x y' --registry example.org"
    );
    let job = tool.run(&context(), &OutputsManager::new(), vec![]).unwrap();
    assert_eq!(job.command, "run --all --registry example.org");
    assert_eq!(job.env, vec!["REGISTRY=example.org", "PLAIN=1"]);
    assert!(job.pre_commands.is_empty() && job.cleanups.is_empty() && job.outputs.is_empty());
    let started = tool.start(&context(), &OutputsManager::new(), vec![]).unwrap();
    assert_eq!(started.command, job.command);
    assert_eq!(Command::Exec(exec_command()).stop(), ".taskrunner/command.exec.tool/pid");
    let mut broken = exec_command();
    broken.env = strings(vec!["X={nothing}"]);
    assert!(broken.run(&context(), &OutputsManager::new(), vec![]).is_err());
}

#[test]
fn artifacts_build_and_take_no_arguments() {
    let image = ContainerArtifact {
        context: "./docker dir".to_string(),
        tag: "{globals.registry}/app:latest".to_string(),
        artifact_info: ArtifactInfo { updates_paths: None, if_files_changed: None },
        target_info: info("artifact.container_image.app"),
    };
    let job = image.build(&context(), &OutputsManager::new()).unwrap();
    assert_eq!(job.command, "podman build -t example.org/app:latest './docker dir'");
    assert_eq!(job.capture, Some("sha".to_string()));
    let files = ExecArtifact {
        command: "make -C {globals.registry}".to_string(),
        env: strings(vec!["V=1"]),
        artifact_info: ArtifactInfo { updates_paths: None, if_files_changed: None },
        target_info: info("artifact.exec.files"),
    };
    let target = Target::Artifact(Artifact::Exec(files));
    let job = job_of(&target, vec![]);
    assert_eq!(job.command, "make -C example.org");
    assert_eq!(job.env, vec!["V=1"]);
    assert_eq!(job.capture, None);
    let err = target.run(&context(), &OutputsManager::new(), strings(vec!["x"])).unwrap_err();
    assert_eq!(err.to_string(), "Artifacts do not accept arguments");
}

#[test]
fn what_a_target_can_do() {
    let command = Target::Command(Command::Exec(exec_command()));
    let artifact = Target::Artifact(Artifact::ContainerImage(ContainerArtifact {
        context: ".".to_string(),
        tag: "t".to_string(),
        artifact_info: ArtifactInfo { updates_paths: None, if_files_changed: None },
        target_info: info("artifact.container_image.app"),
    }));
    assert!(command.is_runnable() && command.is_startable() && !command.is_buildable());
    assert!(artifact.is_runnable() && !artifact.is_startable() && artifact.is_buildable());
    assert!(command.as_runnable().is_some() && artifact.as_runnable().is_some());
    assert!(command.as_startable().is_some() && artifact.as_startable().is_none());
    assert!(command.as_buildable().is_none() && artifact.as_buildable().is_some());
    assert!(command.artifact().is_err() && command.command().is_ok());
    assert_eq!(artifact.command().unwrap_err().to_string(), "Expected a command");
    assert_eq!(command.artifact().unwrap_err().to_string(), "Expected an artifact");
    assert!(command.command_info().is_some() && artifact.command_info().is_none());
    assert!(!command.is_daemon() && !artifact.is_daemon());
    match (&command, &artifact) {
        (Target::Command(c), Target::Artifact(a)) => {
            assert!(c.as_exec().is_ok());
            assert_eq!(c.container().unwrap_err().to_string(), "Expected a container command");
            assert!(a.container_image().is_ok());
            assert_eq!(a.as_exec().unwrap_err().to_string(), "Expected an exec artifact");
            assert!(c.is_runnable() && c.is_startable() && !c.is_buildable());
            assert!(a.is_runnable() && !a.is_startable() && a.is_buildable());
        }
        _ => unreachable!(),
    }
}

#[test]
fn where_what_is_kept_of_a_target_lives() {
    let t = info("command.exec.tool");
    assert_eq!(metadata_path("command.exec.tool"), ".taskrunner/command.exec.tool");
    assert_eq!(last_run_path(&t), ".taskrunner/command.exec.tool/last_run");
    assert_eq!(pid_path(&t), ".taskrunner/command.exec.tool/pid");
    assert_eq!(log_path(&t), ".taskrunner/command.exec.tool/log");
}
