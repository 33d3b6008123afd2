//! What a subcommand asks of the caller.
use vstd::prelude::*;
use crate::context::lookup::{candidates, CommandLookupResult};
use crate::context::names::name_texts;
use crate::context::store::Context;
use crate::error::{Error, ErrorKind, ErrorView};
use crate::graph::TargetsView;
use crate::name::{parse_name, FullyQualifiedName, NameView};
use crate::order::sorted;
use crate::runner::{target_not_found, Step, StepView};
use crate::table::lookup;
use crate::target::{Target, TargetView};
use crate::text::{concat3, has_char, join, join_strings};
use crate::watch::{WatchTrigger, WatchTriggerView};

verus! {

/// The model of what a subcommand asks of the caller.
pub enum WorkView {
    Steps(Seq<StepView>),
    Print(Seq<Seq<char>>),
    Status(NameView),
    Watch { start: Seq<StepView>, triggers: Seq<WatchTriggerView>, watches: Seq<Seq<char>> },
}

/// What a subcommand asks of the caller.
#[derive(Debug)]
pub enum Work {
    /// Carry out these steps, in order.
    Steps(Vec<Step>),
    /// Print these lines.
    Print(Vec<String>),
    /// Report the state of the daemon of this target.
    Status(FullyQualifiedName),
    /// Carry out the steps of `start`, watch the directories `watches`,
    /// and on every change ask what the `triggers` make of it.
    Watch { start: Vec<Step>, triggers: Vec<WatchTrigger>, watches: Vec<String> },
}

impl DeepView for Work {
    type V = WorkView;

    open spec fn deep_view(&self) -> WorkView {
        match self {
            Work::Steps(s) => WorkView::Steps(s.deep_view()),
            Work::Print(l) => WorkView::Print(l.deep_view()),
            Work::Status(n) => WorkView::Status(n@),
            Work::Watch { start, triggers, watches } => WorkView::Watch {
                start: start.deep_view(),
                triggers: triggers.deep_view(),
                watches: watches.deep_view(),
            },
        }
    }
}

/// The model of a result that holds work.
pub open spec fn work_result(r: Result<Work, Error>) -> Result<WorkView, ErrorView> {
    match r {
        Ok(w) => Ok(w.deep_view()),
        Err(e) => Err(e@),
    }
}

/// What a subcommand does: it works out, from the context, what the caller
/// is to carry out.
pub trait Execute {
    /// Whether `r` is what this subcommand asks for in `context`.
    spec fn executes(&self, context: &Context, r: Result<WorkView, ErrorView>) -> bool;

    /// What this subcommand asks for in `context`.
    fn execute(&self, context: &Context) -> (r: Result<Work, Error>)
        ensures
            self.executes(context, work_result(r)),
    ;
}

/// The target that `name` stands for: the target of that name for a
/// fully-qualified name, the one target with that short name for a short
/// name. Nothing where there is none, and where a short name is ambiguous.
pub open spec fn resolves_to(targets: TargetsView, name: Seq<char>) -> Option<TargetView> {
    if has_char(name, '.') {
        lookup(targets, parse_name(name))
    } else if candidates(targets, name).len() == 1 {
        lookup(targets, candidates(targets, name)[0])
    } else {
        None
    }
}

/// Whether `name` is a short name that several targets have.
pub open spec fn is_ambiguous(targets: TargetsView, name: Seq<char>) -> bool {
    !has_char(name, '.') && candidates(targets, name).len() >= 2
}

/// The error for a short name that several targets have, with the
/// candidates as they are listed.
pub open spec fn ambiguous_target(name: Seq<char>, listed: Seq<Seq<char>>) -> ErrorView {
    ErrorView {
        kind: ErrorKind::AmbiguousTarget,
        message: "Target <"@ + name + "> is ambiguous, possible values are <"@ + join(listed, ", "@)
            + ">, please specify the command to run using one of those names"@,
    }
}

/// Whether `e` says why `name` stands for no target: because there is no
/// such target, or because several targets have that short name, in which
/// case it lists their fully-qualified names in order.
pub open spec fn locate_failure(
    targets: TargetsView,
    name: Seq<char>,
    config_path: Seq<char>,
    e: ErrorView,
) -> bool {
    if is_ambiguous(targets, name) {
        exists|listed: Seq<Seq<char>>|
            {
                &&& sorted(listed)
                &&& listed.to_multiset() == name_texts(candidates(targets, name)).to_multiset()
                &&& e == #[trigger] ambiguous_target(name, listed)
            }
    } else {
        e == target_not_found(name, config_path)
    }
}

/// The target that `name` stands for.
pub fn locate<'a>(context: &'a Context, name: &str) -> (r: Result<&'a Target, Error>)
    ensures
        match r {
            Ok(t) => resolves_to(context.targets.deep_view(), name@) == Some(t.deep_view()),
            Err(e) => resolves_to(context.targets.deep_view(), name@) is None && locate_failure(
                context.targets.deep_view(),
                name@,
                context.config_path@,
                e@,
            ),
        },
{
    match context.get_target(name) {
        CommandLookupResult::Found(t) => Ok(t),
        CommandLookupResult::NotFound => {
            let mut message = concat3("Target <", name, "> not found in config file <");
            message.append(context.config_path.as_str());
            message.append(">");
            Err(Error::new(ErrorKind::TargetNotFound, message))
        },
        CommandLookupResult::Duplicates(listed) => {
            let all = join_strings(&listed, ", ");
            let mut message = concat3("Target <", name, "> is ambiguous, possible values are <");
            message.append(all.as_str());
            message.append(">, please specify the command to run using one of those names");
            let e = Error::new(ErrorKind::AmbiguousTarget, message);
            assert(e@ == ambiguous_target(name@, listed.deep_view()));
            Err(e)
        },
    }
}

/// The error for a target that cannot do what was asked of it.
pub open spec fn capability_error(name: Seq<char>, what: Seq<char>) -> ErrorView {
    ErrorView { kind: ErrorKind::Capability, message: "Target <"@ + name + "> is not "@ + what }
}

/// The error for a target that cannot do what was asked of it.
pub fn not_capable(name: &str, what: &str) -> (e: Error)
    ensures
        e@ == capability_error(name@, what@),
{
    let tail = crate::text::concat("> is not ", what);
    let message = concat3("Target <", name, tail.as_str());
    assert(message@ =~= "Target <"@ + name@ + "> is not "@ + what@);
    Error::new(ErrorKind::Capability, message)
}

} // verus!
