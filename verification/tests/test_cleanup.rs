use pls::cleanup::CleanupManager;

fn entry(name: &str, command: &str) -> (String, String) {
    (name.to_string(), command.to_string())
}

#[test]
fn cleanups_come_off_last_in_first_out() {
    let mut manager = CleanupManager::new();
    manager.push_cleanup("network".to_string(), "podman network rm n".to_string());
    manager.push_cleanup("container".to_string(), "podman stop -i c".to_string());
    let drained = manager.run_cleanups();
    assert_eq!(
        drained,
        vec![entry("container", "podman stop -i c"), entry("network", "podman network rm n")]
    );
    assert!(manager.cleanups.is_empty());
    assert!(manager.run_cleanups().is_empty());
}

#[test]
fn pop_cleanup_takes_the_newest() {
    let mut manager = CleanupManager::default();
    manager.pop_cleanup();
    manager.push_cleanup("a".to_string(), "one".to_string());
    manager.push_cleanup("b".to_string(), "two".to_string());
    manager.pop_cleanup();
    assert_eq!(manager.run_cleanups(), vec![entry("a", "one")]);
}
