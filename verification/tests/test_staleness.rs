use pls::staleness::{earliest_update_time, latest_update_time, should_rerun, LastRun};
use pls::target::ArtifactInfo;

fn nanos(t: std::time::SystemTime) -> u128 {
    t.duration_since(std::time::UNIX_EPOCH).unwrap().as_nanos()
}

#[test]
fn latest_update_time_no_times() {
    let times = vec![];
    assert_eq!(latest_update_time(times), LastRun::Never);
}

#[test]
fn latest_update_time_one_never() {
    let times = vec![LastRun::Never];
    assert_eq!(latest_update_time(times), LastRun::Never);
}

#[test]
fn latest_update_time_one_time() {
    let time = nanos(std::time::SystemTime::now());
    let times = vec![LastRun::Time(time)];
    assert_eq!(latest_update_time(times), LastRun::Time(time));
}

#[test]
fn latest_update_time_one_never_one_time() {
    let time = nanos(std::time::SystemTime::now());
    assert_eq!(latest_update_time(vec![LastRun::Never, LastRun::Time(time)]), LastRun::Never);
    assert_eq!(latest_update_time(vec![LastRun::Time(time), LastRun::Never]), LastRun::Never);
}

#[test]
fn latest_update_time_latest_time() {
    let earlier = nanos(std::time::SystemTime::now());
    let later = nanos(std::time::SystemTime::now() + std::time::Duration::from_secs(1));
    assert_eq!(
        latest_update_time(vec![LastRun::Time(earlier), LastRun::Time(later)]),
        LastRun::Time(later)
    );
    assert_eq!(
        latest_update_time(vec![LastRun::Time(later), LastRun::Time(earlier)]),
        LastRun::Time(later)
    );
}

#[test]
fn earliest_update_time_is_the_least() {
    assert_eq!(earliest_update_time(vec![]), LastRun::Never);
    assert_eq!(
        earliest_update_time(vec![LastRun::Time(5), LastRun::Time(3), LastRun::Time(9)]),
        LastRun::Time(3)
    );
    assert_eq!(earliest_update_time(vec![LastRun::Time(5), LastRun::Never]), LastRun::Never);
}

fn with_inputs() -> ArtifactInfo {
    ArtifactInfo { updates_paths: None, if_files_changed: Some(vec!["hello".to_string()]) }
}

#[test]
fn should_rerun_without_declared_inputs() {
    let info = ArtifactInfo { updates_paths: None, if_files_changed: None };
    assert!(should_rerun(&info, LastRun::Time(10), LastRun::Time(10), LastRun::Time(1), &vec![]));
}

#[test]
fn should_rerun_when_never_built() {
    assert!(should_rerun(&with_inputs(), LastRun::Never, LastRun::Never, LastRun::Time(1), &vec![]));
}

#[test]
fn should_rerun_is_idempotent_when_nothing_changed() {
    let info = with_inputs();
    assert!(!should_rerun(&info, LastRun::Time(12), LastRun::Time(10), LastRun::Time(10), &vec![LastRun::Time(9)]));
    assert!(!should_rerun(&info, LastRun::Time(10), LastRun::Time(10), LastRun::Never, &vec![]));
}

#[test]
fn should_rerun_without_a_sentinel() {
    let info = ArtifactInfo {
        updates_paths: Some(vec!["world".to_string()]),
        if_files_changed: Some(vec!["hello".to_string()]),
    };
    assert!(should_rerun(&info, LastRun::Never, LastRun::Time(10), LastRun::Time(1), &vec![]));
    assert!(!should_rerun(&info, LastRun::Time(1), LastRun::Time(10), LastRun::Time(1), &vec![]));
    assert!(should_rerun(&info, LastRun::Time(11), LastRun::Never, LastRun::Time(1), &vec![]));
}

#[test]
fn should_rerun_when_input_or_requirement_changed() {
    let info = with_inputs();
    assert!(should_rerun(&info, LastRun::Time(10), LastRun::Time(10), LastRun::Time(11), &vec![]));
    assert!(should_rerun(&info, LastRun::Time(10), LastRun::Time(10), LastRun::Time(1), &vec![LastRun::Time(11)]));
    assert!(should_rerun(&info, LastRun::Time(10), LastRun::Time(10), LastRun::Time(1), &vec![LastRun::Never]));
}
