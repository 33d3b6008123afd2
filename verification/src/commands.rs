//! Command lines and the supervision of processes.
//!
//! The library decides; the caller spawns, signals and waits. A command line
//! is cut into words as a POSIX shell would cut it. A daemon is known by the
//! process id in its pid file. A process is stopped by asking it to end and,
//! if it has not ended ten seconds later, by killing it; in between it is
//! looked at every tenth of a second.
use vstd::prelude::*;
use crate::error::{Error, ErrorKind, ErrorView};
use crate::number::{digits_value, i32_to_string, parse_digits, signed_decimal};
use crate::text::{chars_of, concat3, lemma_deep_view_index, string_from_range};

verus! {

/// The words that `shlex::Shlex` cuts a command line into: quotes and
/// backslashes are resolved as a POSIX shell resolves them, and a line that
/// ends inside a quotation or after a backslash loses its last word.
pub uninterp spec fn shell_words(command: Seq<char>) -> Seq<Seq<char>>;

/// Runs the iterator `shlex::Shlex` over `command` and collects its words.
#[verifier::external_body]
fn split_words(command: &str) -> (r: Vec<String>)
    ensures
        r.deep_view() == shell_words(command@),
{
    shlex::Shlex::new(command).collect()
}

/// The model of a command line cut into words.
pub struct CommandLineView {
    pub program: Seq<char>,
    pub args: Seq<Seq<char>>,
}

/// A command line cut into words: the program and its arguments.
#[derive(Debug)]
pub struct CommandLine {
    pub program: String,
    pub args: Vec<String>,
}

impl DeepView for CommandLine {
    type V = CommandLineView;

    open spec fn deep_view(&self) -> CommandLineView {
        CommandLineView { program: self.program@, args: self.args.deep_view() }
    }
}

impl CommandLine {
    /// The program.
    pub fn get_program(&self) -> (r: &String)
        ensures
            r@ == self.deep_view().program,
    {
        &self.program
    }

    /// The arguments.
    pub fn get_args(&self) -> (r: &Vec<String>)
        ensures
            r.deep_view() == self.deep_view().args,
    {
        &self.args
    }
}

/// The error for a command line without a word.
pub open spec fn empty_command(command: Seq<char>) -> ErrorView {
    ErrorView { kind: ErrorKind::EmptyCommand, message: "Command <"@ + command + "> is empty"@ }
}

/// The command line that `words` make: the first is the program, the rest
/// are its arguments. No word makes no command line.
pub open spec fn command_line(command: Seq<char>, words: Seq<Seq<char>>) -> Result<
    CommandLineView,
    ErrorView,
> {
    if words.len() == 0 {
        Err(empty_command(command))
    } else {
        Ok(CommandLineView { program: words[0], args: words.subrange(1, words.len() as int) })
    }
}

/// The model of a result that holds a command line.
pub open spec fn command_line_result(r: Result<CommandLine, Error>) -> Result<
    CommandLineView,
    ErrorView,
> {
    match r {
        Ok(c) => Ok(c.deep_view()),
        Err(e) => Err(e@),
    }
}

/// The command line that the words of `command` make.
pub fn command_from_words(command: &str, words: Vec<String>) -> (r: Result<CommandLine, Error>)
    ensures
        command_line_result(r) == command_line(command@, words.deep_view()),
{
    if words.len() == 0 {
        return Err(Error::new(ErrorKind::EmptyCommand, concat3("Command <", command, "> is empty")));
    }
    let mut args: Vec<String> = Vec::new();
    let mut i: usize = 1;
    let ghost all = words.deep_view();
    assert(args.deep_view() =~= all.subrange(1, 1));
    while i < words.len()
        invariant
            1 <= i <= words.len(),
            all == words.deep_view(),
            args.deep_view() == all.subrange(1, i as int),
        decreases words.len() - i,
    {
        let ghost before = args;
        let word = words[i].clone();
        args.push(word);
        proof {
            lemma_deep_view_index(words);
            crate::text::lemma_deep_view_push(before, args, word);
            assert(all.subrange(1, i as int + 1) =~= all.subrange(1, i as int).push(all[i as int]));
        }
        i += 1;
    }
    proof {
        lemma_deep_view_index(words);
    }
    Ok(CommandLine { program: words[0].clone(), args })
}

/// `command` cut into words: the program and its arguments.
pub fn build_command(command: &str) -> (r: Result<CommandLine, Error>)
    ensures
        command_line_result(r) == command_line(command@, shell_words(command@)),
{
    command_from_words(command, split_words(command))
}

/// How a child process ended.
#[derive(Clone, Copy, Debug, PartialEq, Eq, Structural)]
pub enum ExitStatus {
    /// It ended with this exit code.
    Exited(i32),
    /// A signal ended it.
    Signaled,
}

/// The error for a child process that ended with a code other than zero.
pub open spec fn exit_code_failure(code: int) -> ErrorView {
    ErrorView {
        kind: ErrorKind::ChildFailed,
        message: "Command failed with exit code: "@ + signed_decimal(code),
    }
}

/// The error for a child process that a signal ended.
pub open spec fn signal_failure() -> ErrorView {
    ErrorView { kind: ErrorKind::ChildFailed, message: "Command terminated by a signal"@ }
}

/// What the end of a child process means: success for the exit code zero,
/// an error for any other end.
pub open spec fn outcome(status: ExitStatus) -> Result<(), ErrorView> {
    match status {
        ExitStatus::Exited(code) => if code == 0 {
            Ok(())
        } else {
            Err(exit_code_failure(code as int))
        },
        ExitStatus::Signaled => Err(signal_failure()),
    }
}

/// What the end of a child process means.
pub fn run_command(status: ExitStatus) -> (r: Result<(), Error>)
    ensures
        match r {
            Ok(_) => outcome(status) == Ok::<(), ErrorView>(()),
            Err(e) => outcome(status) == Err::<(), ErrorView>(e@),
        },
{
    match status {
        ExitStatus::Exited(code) => {
            if code == 0 {
                Ok(())
            } else {
                let text = i32_to_string(code);
                let mut message = String::from_str("Command failed with exit code: ");
                message.append(text.as_str());
                Err(Error::new(ErrorKind::ChildFailed, message))
            }
        },
        ExitStatus::Signaled => Err(
            Error::new(ErrorKind::ChildFailed, String::from_str("Command terminated by a signal")),
        ),
    }
}

/// Whether the character is blank: a space, a tab, a line feed, a carriage
/// return, a vertical tab or a form feed.
pub open spec fn is_blank(c: char) -> bool {
    c == ' ' || c == '\t' || c == '\n' || c == '\r' || c == '\x0b' || c == '\x0c'
}

/// Where the text without its leading blanks starts, looking from `i` on.
pub open spec fn blank_prefix(s: Seq<char>, i: int) -> int
    decreases s.len() - i,
{
    if i < 0 || i >= s.len() || !is_blank(s[i]) {
        i
    } else {
        blank_prefix(s, i + 1)
    }
}

/// Where the text without its trailing blanks ends, looking back from `j`
/// and not beyond `floor`.
pub open spec fn blank_suffix(s: Seq<char>, floor: int, j: int) -> int
    decreases j,
{
    if j <= floor || j <= 0 || j > s.len() || !is_blank(s[j - 1]) {
        j
    } else {
        blank_suffix(s, floor, j - 1)
    }
}

/// The text without the blanks around it.
pub open spec fn trimmed(s: Seq<char>) -> Seq<char> {
    let from = blank_prefix(s, 0);
    let to = blank_suffix(s, from, s.len() as int);
    if 0 <= from <= to <= s.len() {
        s.subrange(from, to)
    } else {
        Seq::empty()
    }
}

/// The process id that a text spells: digits, with a sign before them if
/// one likes, of a number that fits in 32 bits.
pub open spec fn number_of(s: Seq<char>) -> Option<int> {
    if s.len() > 0 && s[0] == '-' {
        match digits_value(s.subrange(1, s.len() as int)) {
            Some(v) => if v <= 0x8000_0000 {
                Some(-(v as int))
            } else {
                None
            },
            None => None,
        }
    } else if s.len() > 0 && s[0] == '+' {
        match digits_value(s.subrange(1, s.len() as int)) {
            Some(v) => if v <= 0x7fff_ffff {
                Some(v as int)
            } else {
                None
            },
            None => None,
        }
    } else {
        match digits_value(s) {
            Some(v) => if v <= 0x7fff_ffff {
                Some(v as int)
            } else {
                None
            },
            None => None,
        }
    }
}

/// The error for a pid file that holds no process id.
pub open spec fn bad_pid(contents: Seq<char>) -> ErrorView {
    ErrorView {
        kind: ErrorKind::Pid,
        message: "Pid file holds <"@ + trimmed(contents) + ">, which is no process id"@,
    }
}

/// The process id that a pid file holds: the number that its contents
/// spell once the blanks around it are taken off.
pub open spec fn pid_of(contents: Seq<char>) -> Result<int, ErrorView> {
    match number_of(trimmed(contents)) {
        Some(pid) => Ok(pid),
        None => Err(bad_pid(contents)),
    }
}

/// Whether the character is blank.
pub fn blank(c: char) -> (b: bool)
    ensures
        b == is_blank(c),
{
    c == ' ' || c == '\t' || c == '\n' || c == '\r' || c == '\x0b' || c == '\x0c'
}

/// The process id that a pid file holds.
pub fn parse_pid(contents: &str) -> (r: Result<i32, Error>)
    ensures
        match r {
            Ok(pid) => pid_of(contents@) == Ok::<int, ErrorView>(pid as int),
            Err(e) => pid_of(contents@) == Err::<int, ErrorView>(e@),
        },
{
    let chars = chars_of(contents);
    let mut from: usize = 0;
    while from < chars.len() && blank(chars[from])
        invariant
            from <= chars.len(),
            blank_prefix(chars@, 0) == blank_prefix(chars@, from as int),
        decreases chars.len() - from,
    {
        from += 1;
    }
    let mut to: usize = chars.len();
    while to > from && blank(chars[to - 1])
        invariant
            from <= to <= chars.len(),
            blank_suffix(chars@, from as int, chars@.len() as int) == blank_suffix(
                chars@,
                from as int,
                to as int,
            ),
        decreases to,
    {
        to -= 1;
    }
    let ghost t = chars@.subrange(from as int, to as int);
    assert(t == trimmed(contents@));
    let found: Option<i32> = if from < to && chars[from] == '-' {
        assert(t.subrange(1, t.len() as int) == chars@.subrange(from as int + 1, to as int));
        match parse_digits(&chars, from + 1, to, 0x8000_0000) {
            Some(v) => Some((-(v as i64)) as i32),
            None => None,
        }
    } else if from < to && chars[from] == '+' {
        assert(t.subrange(1, t.len() as int) == chars@.subrange(from as int + 1, to as int));
        match parse_digits(&chars, from + 1, to, 0x7fff_ffff) {
            Some(v) => Some(v as i32),
            None => None,
        }
    } else {
        match parse_digits(&chars, from, to, 0x7fff_ffff) {
            Some(v) => Some(v as i32),
            None => None,
        }
    };
    match found {
        Some(pid) => Ok(pid),
        None => {
            let text = string_from_range(&chars, from, to);
            Err(
                Error::new(
                    ErrorKind::Pid,
                    concat3("Pid file holds <", text.as_str(), ">, which is no process id"),
                ),
            )
        },
    }
}

/// What is known of a daemon from its pid file.
#[derive(Clone, Copy, Debug, PartialEq, Eq, Structural)]
pub enum Daemon {
    /// There is no pid file.
    NoPidFile,
    /// The pid file names a process that is gone.
    Gone(i32),
    /// The pid file names a process that is alive.
    Alive(i32),
}

/// The error for a daemon that is running already.
pub open spec fn already_running(pid: int) -> ErrorView {
    ErrorView {
        kind: ErrorKind::DaemonRunning,
        message: "Daemon for is already running with pid <"@ + signed_decimal(pid) + ">"@,
    }
}

/// Whether a daemon may be started: not while its process is alive.
pub open spec fn may_start(daemon: Daemon) -> Result<(), ErrorView> {
    match daemon {
        Daemon::Alive(pid) => Err(already_running(pid as int)),
        _ => Ok(()),
    }
}

/// Whether a daemon may be started, given what its pid file says.
pub fn spawn_command_with_pidfile(daemon: Daemon) -> (r: Result<(), Error>)
    ensures
        match r {
            Ok(_) => may_start(daemon) == Ok::<(), ErrorView>(()),
            Err(e) => may_start(daemon) == Err::<(), ErrorView>(e@),
        },
{
    match daemon {
        Daemon::Alive(pid) => {
            let text = i32_to_string(pid);
            Err(
                Error::new(
                    ErrorKind::DaemonRunning,
                    concat3("Daemon for is already running with pid <", text.as_str(), ">"),
                ),
            )
        },
        _ => Ok(()),
    }
}

/// The model of the state of a daemon.
pub enum StatusResultView {
    Running(Seq<char>),
    NotRunning,
}

/// The state of a daemon.
#[derive(Debug)]
pub enum StatusResult {
    /// It is running; the text says as what.
    Running(String),
    /// It is not running.
    NotRunning,
}

impl DeepView for StatusResult {
    type V = StatusResultView;

    open spec fn deep_view(&self) -> StatusResultView {
        match self {
            StatusResult::Running(m) => StatusResultView::Running(m@),
            StatusResult::NotRunning => StatusResultView::NotRunning,
        }
    }
}

/// The state of a daemon, given what its pid file says: running exactly
/// when the pid file names a process that is alive.
pub open spec fn status_of(daemon: Daemon) -> StatusResultView {
    match daemon {
        Daemon::Alive(pid) => StatusResultView::Running(
            "Running with pid <"@ + signed_decimal(pid as int) + ">"@,
        ),
        _ => StatusResultView::NotRunning,
    }
}

/// The state of a daemon, given what its pid file says.
pub fn status(daemon: Daemon) -> (r: StatusResult)
    ensures
        r.deep_view() == status_of(daemon),
{
    match daemon {
        Daemon::Alive(pid) => {
            let text = i32_to_string(pid);
            StatusResult::Running(concat3("Running with pid <", text.as_str(), ">"))
        },
        _ => StatusResult::NotRunning,
    }
}

/// How long a process is given to end after it was asked to, in milliseconds.
pub const GRACE_MILLIS: u64 = 10000;

/// How long to wait between two looks at a process, in milliseconds.
pub const POLL_MILLIS: u64 = 100;

/// Where the stopping of a process stands.
#[derive(Clone, Copy, Debug, PartialEq, Eq, Structural)]
pub enum StopPhase {
    /// Nothing was done yet.
    Start,
    /// The process was asked to end.
    Terminating,
    /// The process was killed.
    Killing,
    /// The process is gone.
    Done,
}

/// What to do next to stop a process.
#[derive(Clone, Copy, Debug, PartialEq, Eq, Structural)]
pub enum StopAction {
    /// Ask the process to end (SIGTERM), then look at it.
    Terminate,
    /// Kill the process (SIGKILL), then look at it.
    Kill,
    /// Reap the process if it is a child, wait this many milliseconds, then look at it.
    Wait(u64),
    /// The process is gone: remove the pid file.
    Finish,
}

/// What a look at the process showed.
#[derive(Clone, Copy, Debug, PartialEq, Eq, Structural)]
pub struct Observation {
    /// Whether the process is alive.
    pub alive: bool,
    /// The milliseconds since the stopping began.
    pub elapsed_millis: u64,
}

/// The next step in stopping a process: the phase to move to and what to do.
///
/// A process that is gone ends the stopping. A process that is alive is
/// asked to end first; once more than the grace period has passed since the
/// stopping began it is killed; in between, and after the kill, it is looked
/// at again a poll interval later.
pub open spec fn stop_step(phase: StopPhase, seen: Observation) -> (StopPhase, StopAction) {
    if !seen.alive || phase == StopPhase::Done {
        (StopPhase::Done, StopAction::Finish)
    } else {
        match phase {
            StopPhase::Start => (StopPhase::Terminating, StopAction::Terminate),
            StopPhase::Terminating => if seen.elapsed_millis > GRACE_MILLIS {
                (StopPhase::Killing, StopAction::Kill)
            } else {
                (StopPhase::Terminating, StopAction::Wait(POLL_MILLIS))
            },
            _ => (StopPhase::Killing, StopAction::Wait(POLL_MILLIS)),
        }
    }
}

/// The next step in stopping a process.
pub fn stop_process(phase: StopPhase, seen: Observation) -> (r: (StopPhase, StopAction))
    ensures
        r == stop_step(phase, seen),
{
    if !seen.alive {
        return (StopPhase::Done, StopAction::Finish);
    }
    match phase {
        StopPhase::Done => (StopPhase::Done, StopAction::Finish),
        StopPhase::Start => (StopPhase::Terminating, StopAction::Terminate),
        StopPhase::Terminating => {
            if seen.elapsed_millis > GRACE_MILLIS {
                (StopPhase::Killing, StopAction::Kill)
            } else {
                (StopPhase::Terminating, StopAction::Wait(POLL_MILLIS))
            }
        },
        StopPhase::Killing => (StopPhase::Killing, StopAction::Wait(POLL_MILLIS)),
    }
}

/// The phase after `n` looks at a process that stays alive, each look a
/// poll interval after the one before, the first at the start.
pub open spec fn phase_after(n: nat) -> StopPhase
    decreases n,
{
    if n == 0 {
        StopPhase::Start
    } else {
        stop_step(
            phase_after((n - 1) as nat),
            Observation { alive: true, elapsed_millis: ((n - 1) * POLL_MILLIS) as u64 },
        ).0
    }
}

/// Stopping ends only when the process is gone, and ends as soon as it is.
pub proof fn lemma_stop_ends_when_gone(phase: StopPhase, seen: Observation)
    requires
        phase != StopPhase::Done,
    ensures
        stop_step(phase, seen).1 == StopAction::Finish <==> !seen.alive,
        stop_step(phase, seen).0 == StopPhase::Done <==> !seen.alive,
{
}

/// A process that is still alive once the grace period has passed is
/// killed at the next look, and is killed once only.
pub proof fn lemma_stop_escalates(seen: Observation)
    requires
        seen.alive,
        seen.elapsed_millis > GRACE_MILLIS,
    ensures
        stop_step(StopPhase::Terminating, seen) == (StopPhase::Killing, StopAction::Kill),
        stop_step(StopPhase::Killing, seen).1 == StopAction::Wait(POLL_MILLIS),
{
}

/// A process that never ends by itself has been killed after a hundred and
/// two looks a poll interval apart: the stopping takes the grace period and
/// one poll interval more before it turns to force.
pub proof fn lemma_stop_kills_in_time(n: nat)
    requires
        n >= 102,
        n * POLL_MILLIS <= u64::MAX,
    ensures
        phase_after(n) == StopPhase::Killing,
    decreases n,
{
    if n == 102 {
        lemma_terminating_until(101);
    } else {
        lemma_stop_kills_in_time((n - 1) as nat);
    }
}

/// Before the grace period has passed a process that stays alive is
/// waited for.
pub proof fn lemma_terminating_until(n: nat)
    requires
        1 <= n <= 101,
    ensures
        phase_after(n) == StopPhase::Terminating,
    decreases n,
{
    if n > 1 {
        lemma_terminating_until((n - 1) as nat);
    } else {
        assert(phase_after(0) == StopPhase::Start);
    }
}

} // verus!
