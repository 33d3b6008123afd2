use pls::context::Context;
use pls::name::FullyQualifiedName;
use pls::table::StringMap;
use pls::target::{Artifact, ArtifactInfo, Command, CommandInfo, Target, TargetInfo};
use pls::targets::{ExecArtifact, ExecCommand};
use pls::watch::{find_matching_paths, WatchTrigger};

fn fqn(tag: &str, name: &str) -> FullyQualifiedName {
    FullyQualifiedName { tag: tag.to_string(), name: name.to_string() }
}

fn info(name: FullyQualifiedName, requires: Vec<FullyQualifiedName>) -> TargetInfo {
    TargetInfo { name, requires, variables: StringMap::new(), description: None }
}

fn command(name: FullyQualifiedName, requires: Vec<FullyQualifiedName>) -> Target {
    Target::Command(Command::Exec(ExecCommand {
        command: "true".to_string(),
        default_args: None,
        env: vec![],
        target_info: info(name, requires),
        command_info: CommandInfo { daemon: false },
    }))
}

fn any_target() -> Target {
    command(fqn("test", "any"), vec![])
}

fn any_artifact_target() -> Target {
    Target::Artifact(Artifact::Exec(ExecArtifact {
        command: "true".to_string(),
        env: vec![],
        artifact_info: ArtifactInfo {
            updates_paths: None,
            if_files_changed: Some(vec!["src/*.rs".to_string()]),
        },
        target_info: info(fqn("test", "artifact"), vec![]),
    }))
}

fn context_of(targets: Vec<Target>) -> Context {
    let mut context = Context::default();
    context.config_path = "<test>".to_string();
    for target in targets {
        context.targets.insert(target.target_info().name.clone(), target);
    }
    context
}

fn trigger(paths: Vec<&str>, target: FullyQualifiedName, and_then: Vec<FullyQualifiedName>) -> WatchTrigger {
    WatchTrigger { paths: paths.into_iter().map(String::from).collect(), target, and_then }
}

#[test]
fn test_debug() {
    let t = trigger(vec!["*.rs"], any_target().target_info().name.clone(), vec![]);
    assert_eq!(
        t.describe(),
        "WatchTrigger { paths: [\"*.rs\"], target: \"test.any\", and_then: [] }"
    );
}

#[test]
fn test_watch_trigger_matches() {
    let t = trigger(vec!["*.rs"], fqn("test", "any"), vec![]);
    assert!(t.matches(&vec!["test.rs".to_string()]));
    assert!(!t.matches(&vec!["test.c".to_string()]));
}

#[test]
fn watch_trigger_matches_any_pattern_and_any_path() {
    let t = trigger(vec!["docs/*.md", "src/**/*.rs"], fqn("test", "any"), vec![]);
    assert!(t.matches(&vec!["README".to_string(), "src/a/b/c.rs".to_string()]));
    assert!(t.matches(&vec!["docs/x.md".to_string()]));
    assert!(!t.matches(&vec!["docs/x.txt".to_string(), "lib/a.rs".to_string()]));
    assert!(!t.matches(&vec![]));
    let broken = trigger(vec!["a[", "***"], fqn("test", "any"), vec![]);
    assert!(!broken.matches(&vec!["a[".to_string(), "***".to_string()]));
}

#[test]
fn test_get_all() {
    let target = any_target();
    let context = context_of(vec![target.clone()]);
    let triggers = WatchTrigger::get_all(&target, &context).unwrap();
    assert_eq!(triggers.len(), 1);
    assert_eq!(triggers[0].target, target.target_info().name);
    assert_eq!(triggers[0].paths.len(), 0);
}

#[test]
fn test_get_all_with_artifact() {
    let target = any_artifact_target();
    let context = context_of(vec![target.clone()]);
    let triggers = WatchTrigger::get_all(&target, &context).unwrap();
    assert_eq!(triggers.len(), 1);
    assert_eq!(triggers[0].target, target.target_info().name);
    assert_eq!(triggers[0].paths, vec!["src/*.rs"]);
}

#[test]
fn test_get_all_with_dependency() {
    let dependency = any_target();
    let target = command(fqn("test", "target"), vec![dependency.target_info().name.clone()]);
    let context = context_of(vec![dependency.clone(), target.clone()]);
    let mut triggers = WatchTrigger::get_all(&target, &context).unwrap();
    triggers.sort_by(|a, b| a.target.to_string().cmp(&b.target.to_string()));
    assert_eq!(triggers.len(), 2);
    assert_eq!(triggers[0].target, dependency.target_info().name);
    assert_eq!(triggers[0].and_then.len(), 1);
    assert_eq!(triggers[0].and_then[0], target.target_info().name);
    assert_eq!(triggers[1].target, target.target_info().name);
}

#[test]
fn get_all_walks_the_whole_closure_once() {
    // top -> left -> base, top -> right -> base, and base -> top closes a cycle
    let base = command(fqn("t", "base"), vec![fqn("t", "top")]);
    let left = command(fqn("t", "left"), vec![fqn("t", "base")]);
    let right = command(fqn("t", "right"), vec![fqn("t", "base")]);
    let top = command(fqn("t", "top"), vec![fqn("t", "left"), fqn("t", "right")]);
    let context = context_of(vec![base, left, right, top.clone()]);
    let triggers = WatchTrigger::get_all(&top, &context).unwrap();
    let names: Vec<String> = triggers.iter().map(|t| t.target.to_string()).collect();
    assert_eq!(names, vec!["t.top", "t.left", "t.right", "t.base"]);
    let base_trigger = &triggers[3];
    assert_eq!(base_trigger.and_then, vec![fqn("t", "left"), fqn("t", "right")]);
    assert_eq!(triggers[0].and_then, vec![fqn("t", "base")]);
}

#[test]
fn get_all_fails_on_unknown_requirement_and_bad_pattern() {
    let target = command(fqn("t", "top"), vec![fqn("t", "gone")]);
    let context = context_of(vec![target.clone()]);
    let err = WatchTrigger::get_all(&target, &context).unwrap_err();
    assert_eq!(err.kind, pls::error::ErrorKind::TargetNotFound);
    assert_eq!(err.to_string(), "Target <t.gone> not known");

    let bad = Target::Artifact(Artifact::Exec(ExecArtifact {
        command: "true".to_string(),
        env: vec![],
        artifact_info: ArtifactInfo { updates_paths: None, if_files_changed: Some(vec!["a***".to_string()]) },
        target_info: info(fqn("t", "bad"), vec![]),
    }));
    let context = context_of(vec![bad.clone()]);
    let err = WatchTrigger::get_all(&bad, &context).unwrap_err();
    assert_eq!(err.kind, pls::error::ErrorKind::Pattern);
    assert!(WatchTrigger::get_one(&bad).is_err());
    assert!(WatchTrigger::get_one(&any_artifact_target()).is_ok());
}

fn create_set(vec: Vec<&str>) -> std::collections::HashSet<String> {
    vec.into_iter().map(String::from).collect()
}

fn roots(patterns: Vec<&str>) -> std::collections::HashSet<String> {
    let patterns: Vec<String> = patterns.into_iter().map(String::from).collect();
    let found = find_matching_paths(&patterns);
    let set: std::collections::HashSet<String> = found.iter().cloned().collect();
    assert_eq!(set.len(), found.len());
    set
}

#[test]
fn test_single_pattern() {
    assert_eq!(roots(vec!["test/*.rs"]), create_set(vec!["test/"]));
}

#[test]
fn test_overlapping_patterns() {
    assert_eq!(roots(vec!["test/*.rs", "test/sub/*"]), create_set(vec!["test/"]));
}

#[test]
fn test_duplicate_patterns() {
    assert_eq!(roots(vec!["test/*.rs", "test/*.rs"]), create_set(vec!["test/"]));
}

#[test]
fn test_disjoint_patterns() {
    assert_eq!(roots(vec!["test/*", "other/*"]), create_set(vec!["test/", "other/"]));
}

#[test]
fn test_nested_patterns() {
    assert_eq!(roots(vec!["src/**/*.rs", "src/lib/**/*.rs"]), create_set(vec!["src/"]));
}

#[test]
fn test_complex_patterns() {
    assert_eq!(
        roots(vec!["src/*/*.rs", "tests/*/*.rs", "docs/*/*.md"]),
        create_set(vec!["src/", "tests/", "docs/"])
    );
}

#[test]
fn test_star_covers_non_star() {
    assert_eq!(roots(vec!["src/*/*.rs", "src/foo/*.rs"]), create_set(vec!["src/"]));
}

#[test]
fn test_root_patterns() {
    assert_eq!(roots(vec!["*/*/*.rs"]), create_set(vec!["./"]));
}

#[test]
fn a_later_ancestor_replaces_what_lies_below_it() {
    assert_eq!(roots(vec!["src/lib/*.rs", "src/bin/*.rs", "src/*.rs"]), create_set(vec!["src/"]));
    assert_eq!(roots(vec!["a/b/c.txt"]), create_set(vec!["a/b/c.txt/"]));
    assert_eq!(roots(vec![]), create_set(vec![]));
}

#[test]
fn find_minimal_watches_and_dispatch() {
    let triggers = vec![
        trigger(vec!["src/*.rs"], fqn("a", "lib"), vec![fqn("c", "app")]),
        trigger(vec![], fqn("c", "app"), vec![]),
        trigger(vec!["src/gen/*.rs", "docs/*.md"], fqn("a", "docs"), vec![]),
    ];
    let watches: std::collections::HashSet<String> =
        WatchTrigger::find_minimal_watches(&triggers).into_iter().collect();
    assert_eq!(watches, create_set(vec!["src/", "docs/"]));
    let run = WatchTrigger::dispatch(&triggers, &vec!["src/main.rs".to_string()]);
    assert_eq!(run, vec![fqn("a", "lib"), fqn("c", "app")]);
    let run = WatchTrigger::dispatch(&triggers, &vec!["docs/a.md".to_string(), "src/x.rs".to_string()]);
    assert_eq!(run, vec![fqn("a", "lib"), fqn("c", "app"), fqn("a", "docs")]);
    assert!(WatchTrigger::dispatch(&triggers, &vec!["Cargo.toml".to_string()]).is_empty());
}
