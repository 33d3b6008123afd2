use pls::commands::{
    build_command, command_from_words, parse_pid, run_command, spawn_command_with_pidfile,
    status, stop_process, Daemon, ExitStatus, Observation, StatusResult, StopAction, StopPhase,
};
use pls::error::ErrorKind;

#[test]
fn test_build_command_splits() {
    let cmd = build_command("echo hello").unwrap();
    assert_eq!(cmd.get_program(), "echo");
    assert_eq!(cmd.get_args(), &["hello"]);
}

#[test]
fn build_command_resolves_quotes() {
    let cmd = build_command("sh -c 'echo \"a b\"' \"x y\" z\\ w").unwrap();
    assert_eq!(cmd.program, "sh");
    assert_eq!(cmd.args, vec!["-c", "echo \"a b\"", "x y", "z w"]);
}

#[test]
fn build_command_refuses_empty() {
    let err = build_command("   ").unwrap_err();
    assert_eq!(err.kind, ErrorKind::EmptyCommand);
    assert_eq!(err.to_string(), "Command <   > is empty");
}

#[test]
fn command_from_words_takes_the_first_as_program() {
    let cmd = command_from_words("x", vec!["a".to_string(), "b".to_string(), "c".to_string()])
        .unwrap();
    assert_eq!(cmd.program, "a");
    assert_eq!(cmd.args, vec!["b", "c"]);
    assert!(command_from_words("nothing", vec![]).is_err());
}

#[test]
fn run_command_reads_the_exit_status() {
    assert!(run_command(ExitStatus::Exited(0)).is_ok());
    let failed = run_command(ExitStatus::Exited(3)).unwrap_err();
    assert_eq!(failed.kind, ErrorKind::ChildFailed);
    assert_eq!(failed.to_string(), "Command failed with exit code: 3");
    assert_eq!(
        run_command(ExitStatus::Exited(-127)).unwrap_err().to_string(),
        "Command failed with exit code: -127"
    );
    assert_eq!(
        run_command(ExitStatus::Signaled).unwrap_err().to_string(),
        "Command terminated by a signal"
    );
}

#[test]
fn parse_pid_reads_what_a_pid_file_holds() {
    assert_eq!(parse_pid("1234").unwrap(), 1234);
    assert_eq!(parse_pid("  42\n").unwrap(), 42);
    assert_eq!(parse_pid("-2").unwrap(), -2);
    assert_eq!(parse_pid("+7").unwrap(), 7);
    assert_eq!(parse_pid("2147483647").unwrap(), i32::MAX);
    assert_eq!(parse_pid("-2147483648").unwrap(), i32::MIN);
    assert_eq!(parse_pid("0").unwrap(), 0);
}

#[test]
fn parse_pid_refuses_what_is_no_pid() {
    for bad in ["", "  ", "abc", "12a", "1 2", "2147483648", "-2147483649", "-", "+", "99999999999999999999999"] {
        let err = parse_pid(bad).unwrap_err();
        assert_eq!(err.kind, ErrorKind::Pid, "{:?}", bad);
    }
    assert_eq!(
        parse_pid(" x1 ").unwrap_err().to_string(),
        "Pid file holds <x1>, which is no process id"
    );
}

#[test]
fn spawn_is_refused_while_the_daemon_is_alive() {
    assert!(spawn_command_with_pidfile(Daemon::NoPidFile).is_ok());
    assert!(spawn_command_with_pidfile(Daemon::Gone(12)).is_ok());
    let err = spawn_command_with_pidfile(Daemon::Alive(12)).unwrap_err();
    assert_eq!(err.kind, ErrorKind::DaemonRunning);
    assert_eq!(err.to_string(), "Daemon for is already running with pid <12>");
}

#[test]
fn status_follows_the_pid_file() {
    assert!(matches!(status(Daemon::NoPidFile), StatusResult::NotRunning));
    assert!(matches!(status(Daemon::Gone(5)), StatusResult::NotRunning));
    match status(Daemon::Alive(5)) {
        StatusResult::Running(message) => assert_eq!(message, "Running with pid <5>"),
        StatusResult::NotRunning => panic!("expected a running daemon"),
    }
}

fn seen(alive: bool, elapsed_millis: u64) -> Observation {
    Observation { alive, elapsed_millis }
}

#[test]
fn stop_process_asks_first_and_kills_after_ten_seconds() {
    assert_eq!(
        stop_process(StopPhase::Start, seen(true, 0)),
        (StopPhase::Terminating, StopAction::Terminate)
    );
    assert_eq!(
        stop_process(StopPhase::Terminating, seen(true, 100)),
        (StopPhase::Terminating, StopAction::Wait(100))
    );
    assert_eq!(
        stop_process(StopPhase::Terminating, seen(true, 10_000)),
        (StopPhase::Terminating, StopAction::Wait(100))
    );
    assert_eq!(
        stop_process(StopPhase::Terminating, seen(true, 10_001)),
        (StopPhase::Killing, StopAction::Kill)
    );
    assert_eq!(
        stop_process(StopPhase::Killing, seen(true, 10_101)),
        (StopPhase::Killing, StopAction::Wait(100))
    );
}

#[test]
fn stop_process_ends_when_the_process_is_gone() {
    for phase in [StopPhase::Start, StopPhase::Terminating, StopPhase::Killing, StopPhase::Done] {
        assert_eq!(stop_process(phase, seen(false, 5)), (StopPhase::Done, StopAction::Finish));
    }
    assert_eq!(
        stop_process(StopPhase::Done, seen(true, 5)),
        (StopPhase::Done, StopAction::Finish)
    );
}

#[test]
fn stop_process_turns_to_force_within_the_grace_period() {
    let mut phase = StopPhase::Start;
    let mut elapsed = 0;
    let mut looks = 0;
    loop {
        let (next, action) = stop_process(phase, seen(true, elapsed));
        looks += 1;
        phase = next;
        match action {
            StopAction::Wait(millis) => elapsed += millis,
            StopAction::Kill => break,
            StopAction::Terminate => {}
            StopAction::Finish => panic!("the process is still alive"),
        }
    }
    assert_eq!(elapsed, 10_100);
    assert_eq!(looks, 103);
}
