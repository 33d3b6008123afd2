//! The orchestrator: what to do, in which order, for a target.
//!
//! To run, start or build a target, the targets it requires are satisfied
//! first, in the order it lists them and each with what it requires in
//! turn: an artifact is built, a daemon is started, any other command is
//! run. Then comes the action on the target itself. The daemons that were
//! started for the target are stopped after it, the last started first.
//! The library lays this out as a list of steps; the caller carries the
//! steps out one by one and, should one fail, stops what is still running.
use vstd::prelude::*;
use crate::context::store::Context;
use crate::error::{Error, ErrorKind, ErrorView};
use crate::graph::{requirements, requires_cycle, requires_cycle_error, TargetsView};
use crate::name::{name_text, FullyQualifiedName, NameView};
use crate::table::{has_key, lookup};
use crate::target::{
    artifact_arguments, Artifact, ArtifactView, Command, CommandView, Target, TargetInfo,
    TargetInfoView, TargetView,
};
use crate::text::{clone_strings, concat3, lemma_deep_view_index, lemma_deep_view_push};

verus! {

/// The model of a step.
pub enum StepView {
    Build(NameView, bool),
    Run(NameView, Seq<Seq<char>>),
    Start(NameView, Seq<Seq<char>>),
    Stop(NameView),
}

/// One step for the caller.
#[derive(Debug)]
pub enum Step {
    /// Build the artifact and touch its sentinel. Where the flag is set,
    /// only if the artifact is stale.
    Build(FullyQualifiedName, bool),
    /// Run the command in the foreground with these arguments, and touch
    /// its sentinel once it has succeeded.
    Run(FullyQualifiedName, Vec<String>),
    /// Start the command in the background with these arguments.
    Start(FullyQualifiedName, Vec<String>),
    /// Stop the daemon. A failure is reported and does not stop the rest.
    Stop(FullyQualifiedName),
}

impl DeepView for Step {
    type V = StepView;

    open spec fn deep_view(&self) -> StepView {
        match self {
            Step::Build(n, check) => StepView::Build(n@, *check),
            Step::Run(n, args) => StepView::Run(n@, args.deep_view()),
            Step::Start(n, args) => StepView::Start(n@, args.deep_view()),
            Step::Stop(n) => StepView::Stop(n@),
        }
    }
}

impl Clone for Step {
    fn clone(&self) -> (r: Self)
        ensures
            r.deep_view() == self.deep_view(),
    {
        match self {
            Step::Build(n, check) => Step::Build(n.clone(), *check),
            Step::Run(n, args) => Step::Run(n.clone(), clone_strings(args)),
            Step::Start(n, args) => Step::Start(n.clone(), clone_strings(args)),
            Step::Stop(n) => Step::Stop(n.clone()),
        }
    }
}

/// The error for a target that lists itself among its requirements.
pub open spec fn requires_itself(name: NameView) -> ErrorView {
    ErrorView {
        kind: ErrorKind::RequiresItself,
        message: "Target <"@ + name_text(name) + "> requires itself"@,
    }
}

/// The error for a requirement that is no target of the configuration.
pub open spec fn target_not_found(name: Seq<char>, config_path: Seq<char>) -> ErrorView {
    ErrorView {
        kind: ErrorKind::TargetNotFound,
        message: "Target <"@ + name + "> not found in config file <"@ + config_path + ">"@,
    }
}

/// The targets that the first `k` requirements of `info` name. A target
/// that requires itself and a requirement that is no target are errors;
/// the first in the order of the list decides.
pub open spec fn found_required(
    targets: TargetsView,
    info: TargetInfoView,
    config_path: Seq<char>,
    k: int,
) -> Result<Seq<TargetView>, ErrorView>
    decreases k,
{
    if k <= 0 || k > info.requires.len() {
        Ok(Seq::empty())
    } else {
        match found_required(targets, info, config_path, k - 1) {
            Err(e) => Err(e),
            Ok(front) => if info.requires[k - 1] == info.name {
                Err(requires_itself(info.name))
            } else {
                match lookup(targets, info.requires[k - 1]) {
                    None => Err(target_not_found(name_text(info.requires[k - 1]), config_path)),
                    Some(t) => Ok(front.push(t)),
                }
            },
        }
    }
}

/// What satisfies the requirement `name` that stands for the target `t`:
/// an artifact is built if it is stale, a daemon is started, any other
/// command is run; none is given arguments.
pub open spec fn satisfying_step(name: NameView, t: TargetView) -> StepView {
    match t {
        TargetView::Artifact(_) => StepView::Build(name, true),
        TargetView::Command(c) => if c.command_info().daemon {
            StepView::Start(name, Seq::empty())
        } else {
            StepView::Run(name, Seq::empty())
        },
    }
}

/// The stops of the daemons among the first `k` requirements, the last
/// requirement first.
pub open spec fn teardown_steps(names: Seq<NameView>, found: Seq<TargetView>, k: int) -> Seq<StepView>
    decreases k,
{
    if k <= 0 || k > names.len() || k > found.len() {
        Seq::empty()
    } else if found[k - 1].is_daemon() {
        seq![StepView::Stop(names[k - 1])] + teardown_steps(names, found, k - 1)
    } else {
        teardown_steps(names, found, k - 1)
    }
}

/// The steps of one target: what satisfies its requirements, then
/// `terminal`, then the stops of the daemons among its requirements.
/// Requirements may be nested `fuel` targets deep.
pub open spec fn scope_steps(
    targets: TargetsView,
    info: TargetInfoView,
    terminal: StepView,
    config_path: Seq<char>,
    fuel: nat,
) -> Result<Seq<StepView>, ErrorView>
    decreases fuel, info.requires.len() + 1,
{
    match found_required(targets, info, config_path, info.requires.len() as int) {
        Err(e) => Err(e),
        Ok(found) => match required_steps(
            targets,
            info.requires,
            config_path,
            fuel,
            info.requires.len() as int,
        ) {
            Err(e) => Err(e),
            Ok(before) => Ok(
                before.push(terminal) + teardown_steps(
                    info.requires,
                    found,
                    info.requires.len() as int,
                ),
            ),
        },
    }
}

/// The steps that satisfy the first `k` of the requirements `names`, each
/// with the steps of what it requires in turn. A chain of requirements
/// deeper than `fuel` is a cycle when `fuel` is the number of targets.
pub open spec fn required_steps(
    targets: TargetsView,
    names: Seq<NameView>,
    config_path: Seq<char>,
    fuel: nat,
    k: int,
) -> Result<Seq<StepView>, ErrorView>
    decreases fuel, k,
{
    if k <= 0 || k > names.len() {
        Ok(Seq::empty())
    } else {
        match required_steps(targets, names, config_path, fuel, k - 1) {
            Err(e) => Err(e),
            Ok(front) => match lookup(targets, names[k - 1]) {
                None => Ok(front),
                Some(t) => if fuel == 0 {
                    Err(requires_cycle(names[k - 1]))
                } else {
                    match scope_steps(
                        targets,
                        t.target_info(),
                        satisfying_step(names[k - 1], t),
                        config_path,
                        (fuel - 1) as nat,
                    ) {
                        Err(e) => Err(e),
                        Ok(inner) => Ok(front + inner),
                    }
                },
            },
        }
    }
}

/// The model of a result that holds a list of targets.
pub open spec fn found_result(r: Result<Vec<Target>, Error>) -> Result<Seq<TargetView>, ErrorView> {
    match r {
        Ok(v) => Ok(v.deep_view()),
        Err(e) => Err(e@),
    }
}

/// The model of a result that holds a list of steps.
pub open spec fn steps_result(r: Result<Vec<Step>, Error>) -> Result<Seq<StepView>, ErrorView> {
    match r {
        Ok(v) => Ok(v.deep_view()),
        Err(e) => Err(e@),
    }
}

/// An error among the first `k` requirements is the error of them all.
pub proof fn lemma_found_required_error(
    targets: TargetsView,
    info: TargetInfoView,
    config_path: Seq<char>,
    k: int,
    more: int,
)
    requires
        0 <= k <= more <= info.requires.len(),
        found_required(targets, info, config_path, k) is Err,
    ensures
        found_required(targets, info, config_path, more) == found_required(
            targets,
            info,
            config_path,
            k,
        ),
    decreases more - k,
{
    if k < more {
        lemma_found_required_error(targets, info, config_path, k, more - 1);
    }
}

/// An error among the steps for the first `k` requirements is the error of them all.
pub proof fn lemma_required_steps_error(
    targets: TargetsView,
    names: Seq<NameView>,
    config_path: Seq<char>,
    fuel: nat,
    k: int,
    more: int,
)
    requires
        0 <= k <= more <= names.len(),
        required_steps(targets, names, config_path, fuel, k) is Err,
    ensures
        required_steps(targets, names, config_path, fuel, more) == required_steps(
            targets,
            names,
            config_path,
            fuel,
            k,
        ),
    decreases more - k,
{
    if k < more {
        lemma_required_steps_error(targets, names, config_path, fuel, k, more - 1);
    }
}

/// The targets that `target` requires, in the order it lists them.
pub fn find_required(target: &TargetInfo, context: &Context) -> (r: Result<Vec<Target>, Error>)
    ensures
        found_result(r) == found_required(
            context.targets.deep_view(),
            target.deep_view(),
            context.config_path@,
            target.deep_view().requires.len() as int,
        ),
        r is Ok ==> r->Ok_0@.len() == target.requires@.len(),
{
    let mut found: Vec<Target> = Vec::new();
    let mut k: usize = 0;
    let ghost model = context.targets.deep_view();
    let ghost info = target.deep_view();
    assert(found.deep_view() =~= Seq::<TargetView>::empty());
    proof {
        lemma_deep_view_index(target.requires);
    }
    while k < target.requires.len()
        invariant
            k <= target.requires.len(),
            model == context.targets.deep_view(),
            info == target.deep_view(),
            info.requires.len() == target.requires@.len(),
            found@.len() == k,
            found_required(model, info, context.config_path@, k as int) == Ok::<
                Seq<TargetView>,
                ErrorView,
            >(found.deep_view()),
        decreases target.requires.len() - k,
    {
        proof {
            lemma_deep_view_index(target.requires);
        }
        let wanted = &target.requires[k];
        if wanted.key_eq_name(&target.name) {
            proof {
                lemma_found_required_error(
                    model,
                    info,
                    context.config_path@,
                    k as int + 1,
                    info.requires.len() as int,
                );
            }
            let text = target.name.to_string();
            return Err(
                Error::new(
                    ErrorKind::RequiresItself,
                    concat3("Target <", text.as_str(), "> requires itself"),
                ),
            );
        }
        match context.targets.get(wanted) {
            None => {
                proof {
                    lemma_found_required_error(
                        model,
                        info,
                        context.config_path@,
                        k as int + 1,
                        info.requires.len() as int,
                    );
                }
                let text = wanted.to_string();
                let mut message = concat3("Target <", text.as_str(), "> not found in config file <");
                message.append(context.config_path.as_str());
                message.append(">");
                return Err(Error::new(ErrorKind::TargetNotFound, message));
            },
            Some(t) => {
                let ghost before = found;
                let owned = t.clone();
                found.push(owned);
                proof {
                    lemma_deep_view_push(before, found, owned);
                }
            },
        }
        k += 1;
    }
    Ok(found)
}

/// What satisfies the requirement `name` that stands for `target`.
pub fn satisfy(name: &FullyQualifiedName, target: &Target) -> (r: Step)
    ensures
        r.deep_view() == satisfying_step(name@, target.deep_view()),
{
    let none: Vec<String> = Vec::new();
    assert(none.deep_view() =~= Seq::<Seq<char>>::empty());
    match target {
        Target::Artifact(_) => Step::Build(name.clone(), true),
        Target::Command(c) => {
            if c.command_info().daemon {
                Step::Start(name.clone(), none)
            } else {
                Step::Run(name.clone(), none)
            }
        },
    }
}

/// `steps` with a copy of each step of `more` behind it.
pub fn append_steps(steps: &mut Vec<Step>, more: &Vec<Step>)
    ensures
        final(steps).deep_view() == old(steps).deep_view() + more.deep_view(),
{
    let mut i: usize = 0;
    let ghost start = steps.deep_view();
    assert(start + more.deep_view().take(0) =~= start);
    while i < more.len()
        invariant
            i <= more.len(),
            steps.deep_view() == start + more.deep_view().take(i as int),
        decreases more.len() - i,
    {
        let ghost before = *steps;
        let step = more[i].clone();
        steps.push(step);
        proof {
            lemma_deep_view_index(*more);
            lemma_deep_view_push(before, *steps, step);
            assert(start + more.deep_view().take(i as int + 1) =~= (start + more.deep_view().take(
                i as int,
            )).push(more.deep_view()[i as int]));
        }
        i += 1;
    }
    assert(more.deep_view().take(more.len() as int) =~= more.deep_view());
}

/// The stops of the daemons among the requirements, the last requirement first.
pub fn teardown_of(names: &Vec<FullyQualifiedName>, found: &Vec<Target>) -> (r: Vec<Step>)
    requires
        names@.len() == found@.len(),
    ensures
        r.deep_view() == teardown_steps(names.deep_view(), found.deep_view(), names@.len() as int),
{
    // collected with the first requirement first, then turned around
    let mut forward: Vec<Step> = Vec::new();
    let mut k: usize = 0;
    let ghost ns = names.deep_view();
    let ghost fs = found.deep_view();
    proof {
        lemma_deep_view_index(*names);
        lemma_deep_view_index(*found);
        assert(forward.deep_view() =~= teardown_steps(ns, fs, 0).reverse());
    }
    while k < names.len()
        invariant
            k <= names.len(),
            names@.len() == found@.len(),
            ns == names.deep_view(),
            fs == found.deep_view(),
            ns.len() == names@.len(),
            fs.len() == found@.len(),
            forward.deep_view() == teardown_steps(ns, fs, k as int).reverse(),
        decreases names.len() - k,
    {
        proof {
            lemma_deep_view_index(*names);
            lemma_deep_view_index(*found);
        }
        if found[k].is_daemon() {
            let ghost before = forward;
            let step = Step::Stop(names[k].clone());
            forward.push(step);
            proof {
                lemma_deep_view_push(before, forward, step);
                let rest = teardown_steps(ns, fs, k as int);
                assert((seq![StepView::Stop(ns[k as int])] + rest).reverse() =~= rest.reverse().push(
                    StepView::Stop(ns[k as int]),
                ));
            }
        }
        k += 1;
    }
    let mut out: Vec<Step> = Vec::new();
    let mut i: usize = forward.len();
    let ghost all = forward.deep_view();
    proof {
        lemma_deep_view_index(forward);
        assert(out.deep_view() =~= all.subrange(all.len() as int, all.len() as int).reverse());
    }
    while i > 0
        invariant
            i <= forward.len(),
            all == forward.deep_view(),
            all.len() == forward@.len(),
            out.deep_view() == all.subrange(i as int, all.len() as int).reverse(),
        decreases i,
    {
        i -= 1;
        let ghost before = out;
        let step = forward[i].clone();
        out.push(step);
        proof {
            lemma_deep_view_index(forward);
            lemma_deep_view_push(before, out, step);
            assert(all.subrange(i as int, all.len() as int).reverse() =~= all.subrange(
                i as int + 1,
                all.len() as int,
            ).reverse().push(all[i as int]));
        }
    }
    proof {
        assert(all.subrange(0, all.len() as int) =~= all);
        assert(all.reverse().reverse() =~= all);
        let t = teardown_steps(ns, fs, names@.len() as int);
        assert(t.reverse().reverse() =~= t);
    }
    out
}

/// The steps of one target: what satisfies its requirements, then
/// `terminal`, then the stops of the daemons among its requirements.
pub fn plan_scope(context: &Context, info: &TargetInfo, terminal: Step, fuel: usize) -> (r: Result<
    Vec<Step>,
    Error,
>)
    ensures
        steps_result(r) == scope_steps(
            context.targets.deep_view(),
            info.deep_view(),
            terminal.deep_view(),
            context.config_path@,
            fuel as nat,
        ),
    decreases fuel, info.requires@.len() + 1,
{
    let found = match find_required(info, context) {
        Err(e) => {
            return Err(e);
        },
        Ok(f) => f,
    };
    let mut steps = match run_required_bounded(context, &info.requires, fuel) {
        Err(e) => {
            return Err(e);
        },
        Ok(s) => s,
    };
    let ghost before = steps;
    steps.push(terminal);
    proof {
        lemma_deep_view_push(before, steps, terminal);
        lemma_deep_view_index(info.requires);
    }
    let stops = teardown_of(&info.requires, &found);
    append_steps(&mut steps, &stops);
    Ok(steps)
}

/// The steps that satisfy the requirements `names`, nested at most `fuel` targets deep.
pub fn run_required_bounded(context: &Context, names: &Vec<FullyQualifiedName>, fuel: usize) -> (r:
    Result<Vec<Step>, Error>)
    ensures
        steps_result(r) == required_steps(
            context.targets.deep_view(),
            names.deep_view(),
            context.config_path@,
            fuel as nat,
            names@.len() as int,
        ),
    decreases fuel, names@.len(),
{
    let mut steps: Vec<Step> = Vec::new();
    let mut k: usize = 0;
    let ghost model = context.targets.deep_view();
    let ghost ns = names.deep_view();
    assert(steps.deep_view() =~= Seq::<StepView>::empty());
    proof {
        lemma_deep_view_index(*names);
    }
    while k < names.len()
        invariant
            k <= names.len(),
            model == context.targets.deep_view(),
            ns == names.deep_view(),
            ns.len() == names@.len(),
            required_steps(model, ns, context.config_path@, fuel as nat, k as int) == Ok::<
                Seq<StepView>,
                ErrorView,
            >(steps.deep_view()),
        decreases names.len() - k,
    {
        proof {
            lemma_deep_view_index(*names);
        }
        match context.targets.get(&names[k]) {
            None => {},
            Some(t) => {
                if fuel == 0 {
                    proof {
                        lemma_required_steps_error(
                            model,
                            ns,
                            context.config_path@,
                            fuel as nat,
                            k as int + 1,
                            ns.len() as int,
                        );
                    }
                    return Err(requires_cycle_error(&names[k]));
                }
                match plan_scope(context, t.target_info(), satisfy(&names[k], t), fuel - 1) {
                    Err(e) => {
                        proof {
                            lemma_required_steps_error(
                                model,
                                ns,
                                context.config_path@,
                                fuel as nat,
                                k as int + 1,
                                ns.len() as int,
                            );
                        }
                        return Err(e);
                    },
                    Ok(inner) => {
                        append_steps(&mut steps, &inner);
                    },
                }
            },
        }
        k += 1;
    }
    Ok(steps)
}

/// The steps that satisfy what `target_info` requires.
pub fn run_required(target_info: &TargetInfo, context: &Context) -> (r: Result<Vec<Step>, Error>)
    ensures
        steps_result(r) == match found_required(
            context.targets.deep_view(),
            target_info.deep_view(),
            context.config_path@,
            target_info.deep_view().requires.len() as int,
        ) {
            Err(e) => Err(e),
            Ok(_) => required_steps(
                context.targets.deep_view(),
                target_info.deep_view().requires,
                context.config_path@,
                context.targets.deep_view().len(),
                target_info.deep_view().requires.len() as int,
            ),
        },
{
    match find_required(target_info, context) {
        Err(e) => Err(e),
        Ok(_) => {
            proof {
                lemma_deep_view_index(target_info.requires);
            }
            run_required_bounded(context, &target_info.requires, context.targets.len())
        },
    }
}

/// The steps of running `target` with the arguments `args`: a command is
/// run with them; an artifact takes none and is built whether it is stale
/// or not.
pub open spec fn run_steps(
    targets: TargetsView,
    target: TargetView,
    config_path: Seq<char>,
    args: Seq<Seq<char>>,
) -> Result<Seq<StepView>, ErrorView> {
    match target {
        TargetView::Command(c) => scope_steps(
            targets,
            c.target_info(),
            StepView::Run(c.target_info().name, args),
            config_path,
            targets.len(),
        ),
        TargetView::Artifact(a) => if args.len() > 0 {
            Err(artifact_arguments())
        } else {
            scope_steps(
                targets,
                a.target_info(),
                StepView::Build(a.target_info().name, false),
                config_path,
                targets.len(),
            )
        },
    }
}

/// The steps of starting the command `command` with the arguments `args`.
pub open spec fn start_steps(
    targets: TargetsView,
    command: CommandView,
    config_path: Seq<char>,
    args: Seq<Seq<char>>,
) -> Result<Seq<StepView>, ErrorView> {
    scope_steps(
        targets,
        command.target_info(),
        StepView::Start(command.target_info().name, args),
        config_path,
        targets.len(),
    )
}

/// The steps of building the artifact `artifact` if it is stale.
pub open spec fn build_steps(targets: TargetsView, artifact: ArtifactView, config_path: Seq<char>) -> Result<
    Seq<StepView>,
    ErrorView,
> {
    scope_steps(
        targets,
        artifact.target_info(),
        StepView::Build(artifact.target_info().name, true),
        config_path,
        targets.len(),
    )
}

/// The steps of running `target` with the arguments `args`.
pub fn run_target(target: &Target, context: &Context, args: Vec<String>) -> (r: Result<
    Vec<Step>,
    Error,
>)
    ensures
        steps_result(r) == run_steps(
            context.targets.deep_view(),
            target.deep_view(),
            context.config_path@,
            args.deep_view(),
        ),
{
    match target {
        Target::Command(c) => {
            let info = c.target_info();
            plan_scope(context, info, Step::Run(info.name.clone(), args), context.targets.len())
        },
        Target::Artifact(a) => {
            if args.len() > 0 {
                return Err(
                    Error::new(
                        ErrorKind::ArtifactArguments,
                        String::from_str("Artifacts do not accept arguments"),
                    ),
                );
            }
            let info = a.target_info();
            plan_scope(context, info, Step::Build(info.name.clone(), false), context.targets.len())
        },
    }
}

/// The steps up to the start of the command `command` with the arguments
/// `args`: what satisfies its requirements, then its own start, without the
/// stops that follow.
pub open spec fn start_steps_inner(
    targets: TargetsView,
    command: CommandView,
    config_path: Seq<char>,
    args: Seq<Seq<char>>,
) -> Result<Seq<StepView>, ErrorView> {
    let info = command.target_info();
    match found_required(targets, info, config_path, info.requires.len() as int) {
        Err(e) => Err(e),
        Ok(_) => match required_steps(
            targets,
            info.requires,
            config_path,
            targets.len(),
            info.requires.len() as int,
        ) {
            Err(e) => Err(e),
            Ok(before) => Ok(before.push(StepView::Start(info.name, args))),
        },
    }
}

/// The steps up to the start of `command` with the arguments `args`.
pub fn start_target_inner(command: &Command, context: &Context, args: Vec<String>) -> (r: Result<
    Vec<Step>,
    Error,
>)
    ensures
        steps_result(r) == start_steps_inner(
            context.targets.deep_view(),
            command.deep_view(),
            context.config_path@,
            args.deep_view(),
        ),
{
    let info = command.target_info();
    let mut steps = match run_required(info, context) {
        Err(e) => {
            return Err(e);
        },
        Ok(s) => s,
    };
    let ghost before = steps;
    let own = Step::Start(info.name.clone(), args);
    steps.push(own);
    proof {
        lemma_deep_view_push(before, steps, own);
    }
    Ok(steps)
}

/// The steps of starting `command` with the arguments `args`.
pub fn start_target(command: &Command, context: &Context, args: Vec<String>) -> (r: Result<
    Vec<Step>,
    Error,
>)
    ensures
        steps_result(r) == start_steps(
            context.targets.deep_view(),
            command.deep_view(),
            context.config_path@,
            args.deep_view(),
        ),
{
    let info = command.target_info();
    plan_scope(context, info, Step::Start(info.name.clone(), args), context.targets.len())
}

/// The steps of building `artifact` if it is stale.
pub fn build_target(artifact: &Artifact, context: &Context) -> (r: Result<Vec<Step>, Error>)
    ensures
        steps_result(r) == build_steps(
            context.targets.deep_view(),
            artifact.deep_view(),
            context.config_path@,
        ),
{
    let info = artifact.target_info();
    plan_scope(context, info, Step::Build(info.name.clone(), true), context.targets.len())
}

/// The steps of stopping the daemon of `command`: the one stop.
pub fn stop_target(command: &Command) -> (r: Vec<Step>)
    ensures
        r.deep_view() == seq![StepView::Stop(command.deep_view().target_info().name)],
{
    let mut steps: Vec<Step> = Vec::new();
    let step = Step::Stop(command.target_info().name.clone());
    steps.push(step);
    assert(steps.deep_view() =~= seq![step.deep_view()]);
    steps
}

/// The steps for a target that changed while it is watched: a daemon is
/// stopped and started again, any other command is run, an artifact is
/// built; none with what it requires.
pub open spec fn again_steps(target: TargetView, args: Seq<Seq<char>>) -> Seq<StepView> {
    let name = target.target_info().name;
    match target {
        TargetView::Artifact(_) => seq![StepView::Build(name, false)],
        TargetView::Command(c) => if c.command_info().daemon {
            seq![StepView::Stop(name), StepView::Start(name, args)]
        } else {
            seq![StepView::Run(name, args)]
        },
    }
}

/// The steps for a target that changed while it is watched.
pub fn start_or_run(target: &Target, args: Vec<String>) -> (r: Vec<Step>)
    ensures
        r.deep_view() == again_steps(target.deep_view(), args.deep_view()),
{
    let name = target.target_info().name.clone();
    let mut steps: Vec<Step> = Vec::new();
    match target {
        Target::Artifact(_) => {
            let step = Step::Build(name, false);
            steps.push(step);
            assert(steps.deep_view() =~= seq![step.deep_view()]);
        },
        Target::Command(c) => {
            if c.command_info().daemon {
                let first = Step::Stop(name.clone());
                let second = Step::Start(name, args);
                steps.push(first);
                steps.push(second);
                assert(steps.deep_view() =~= seq![first.deep_view(), second.deep_view()]);
            } else {
                let step = Step::Run(name, args);
                steps.push(step);
                assert(steps.deep_view() =~= seq![step.deep_view()]);
            }
        },
    }
    steps
}

/// `stack` without its last entry that is `name`.
pub open spec fn without_last(stack: Seq<NameView>, name: NameView) -> Seq<NameView>
    decreases stack.len(),
{
    if stack.len() == 0 {
        stack
    } else if stack.last() == name {
        stack.drop_last()
    } else {
        without_last(stack.drop_last(), name).push(stack.last())
    }
}

/// The daemons that are running once the first `k` of `steps` are done, in
/// the order in which they were started: a start adds its daemon, a stop
/// takes its daemon away.
pub open spec fn running_after(steps: Seq<StepView>, k: int) -> Seq<NameView>
    decreases k,
{
    if k <= 0 || k > steps.len() {
        Seq::empty()
    } else {
        let before = running_after(steps, k - 1);
        match steps[k - 1] {
            StepView::Start(name, _) => before.push(name),
            StepView::Stop(name) => without_last(before, name),
            _ => before,
        }
    }
}

/// The names of `stack` without the last one that is `name`.
pub fn remove_last(stack: &Vec<FullyQualifiedName>, name: &FullyQualifiedName) -> (r: Vec<
    FullyQualifiedName,
>)
    ensures
        r.deep_view() == without_last(stack.deep_view(), name@),
{
    // where the last entry of that name stands
    let mut at: usize = stack.len();
    let ghost all = stack.deep_view();
    proof {
        lemma_deep_view_index(*stack);
    }
    while at > 0 && !stack[at - 1].key_eq_name(name)
        invariant
            at <= stack.len(),
            all == stack.deep_view(),
            all.len() == stack@.len(),
            forall|j: int| 0 <= j < all.len() ==> #[trigger] all[j] == stack@[j]@,
            forall|j: int| at <= j < all.len() ==> all[j] != name@,
        decreases at,
    {
        at -= 1;
    }
    let mut out: Vec<FullyQualifiedName> = Vec::new();
    let mut i: usize = 0;
    assert(out.deep_view() =~= Seq::<NameView>::empty());
    while i < stack.len()
        invariant
            i <= stack.len(),
            at <= stack.len(),
            all == stack.deep_view(),
            all.len() == stack@.len(),
            forall|j: int| 0 <= j < all.len() ==> #[trigger] all[j] == stack@[j]@,
            out.deep_view() == if at == 0 || i < at {
                all.take(i as int)
            } else {
                all.take(at as int - 1) + all.subrange(at as int, i as int)
            },
        decreases stack.len() - i,
    {
        if at == 0 || i + 1 != at {
            let ghost before = out;
            let kept = stack[i].clone();
            out.push(kept);
            proof {
                lemma_deep_view_push(before, out, kept);
                if at == 0 || i + 1 < at {
                    assert(all.take(i as int + 1) =~= all.take(i as int).push(all[i as int]));
                } else {
                    assert(all.take(at as int - 1) + all.subrange(at as int, i as int + 1) =~= (
                        all.take(at as int - 1) + all.subrange(at as int, i as int)).push(
                        all[i as int],
                    ));
                }
            }
        } else {
            proof {
                assert(all.take(i as int) =~= all.take(at as int - 1) + all.subrange(
                    at as int,
                    i as int + 1,
                ));
            }
        }
        i += 1;
    }
    proof {
        lemma_without_last(all, name@, at as int);
        if at == 0 {
            assert(all.take(all.len() as int) =~= all);
        }
    }
    out
}

/// Taking away the last entry of a name cuts it out where it stands.
pub proof fn lemma_without_last(stack: Seq<NameView>, name: NameView, at: int)
    requires
        0 <= at <= stack.len(),
        at > 0 ==> stack[at - 1] == name,
        forall|j: int| at <= j < stack.len() ==> stack[j] != name,
    ensures
        without_last(stack, name) == if at == 0 {
            stack
        } else {
            stack.take(at - 1) + stack.subrange(at, stack.len() as int)
        },
    decreases stack.len(),
{
    if stack.len() > 0 {
        if stack.last() == name {
            assert(at == stack.len());
            assert(stack.drop_last() =~= stack.take(at - 1) + stack.subrange(
                at,
                stack.len() as int,
            ));
        } else {
            let front = stack.drop_last();
            lemma_without_last(front, name, at);
            if at == 0 {
                assert(front.push(stack.last()) =~= stack);
            } else {
                assert((front.take(at - 1) + front.subrange(at, front.len() as int)).push(
                    stack.last(),
                ) =~= stack.take(at - 1) + stack.subrange(at, stack.len() as int));
            }
        }
    }
}

/// The daemons that are running once the first `done` of `steps` are done
/// (all of them, if there are fewer), in the order in which they were
/// started. Should the next step fail, these are to be stopped, the last
/// started first.
pub fn teardown(steps: &Vec<Step>, done: usize) -> (r: Vec<FullyQualifiedName>)
    ensures
        r.deep_view() == running_after(
            steps.deep_view(),
            if done <= steps@.len() {
                done as int
            } else {
                steps@.len() as int
            },
        ),
{
    let upto: usize = if done <= steps.len() {
        done
    } else {
        steps.len()
    };
    let mut running: Vec<FullyQualifiedName> = Vec::new();
    let mut k: usize = 0;
    assert(running.deep_view() =~= Seq::<NameView>::empty());
    proof {
        lemma_deep_view_index(*steps);
    }
    while k < upto
        invariant
            k <= upto <= steps@.len(),
            steps.deep_view().len() == steps@.len(),
            running.deep_view() == running_after(steps.deep_view(), k as int),
        decreases upto - k,
    {
        proof {
            lemma_deep_view_index(*steps);
        }
        match &steps[k] {
            Step::Start(name, _) => {
                let ghost before = running;
                let owned = name.clone();
                running.push(owned);
                proof {
                    lemma_deep_view_push(before, running, owned);
                }
            },
            Step::Stop(name) => {
                running = remove_last(&running, name);
            },
            _ => {},
        }
        k += 1;
    }
    running
}

/// Whether the `i`-th name of `path` is required by the target before it.
pub open spec fn is_link(targets: TargetsView, path: Seq<NameView>, i: int) -> bool {
    requirements(targets, path[i - 1]).contains(path[i])
}

/// Whether `path` is a chain of requirements that starts among `first`:
/// each name is a target, the first is one of `first`, and each further
/// one is required by the target before it.
pub open spec fn is_chain(targets: TargetsView, first: Seq<NameView>, path: Seq<NameView>) -> bool {
    &&& path.len() >= 1
    &&& first.contains(path[0])
    &&& forall|i: int| 0 <= i < path.len() ==> has_key(targets, #[trigger] path[i])
    &&& forall|i: int| 1 <= i < path.len() ==> #[trigger] is_link(targets, path, i)
}

/// Whether `outer` holds every step of `inner`.
pub open spec fn holds_all(outer: Seq<StepView>, inner: Seq<StepView>) -> bool {
    forall|i: int| 0 <= i < inner.len() ==> outer.contains(#[trigger] inner[i])
}

/// The steps for a list of requirements hold the steps of each of them.
pub proof fn lemma_required_steps_hold(
    targets: TargetsView,
    names: Seq<NameView>,
    config_path: Seq<char>,
    fuel: nat,
    k: int,
    j: int,
)
    requires
        0 <= j < k <= names.len(),
        required_steps(targets, names, config_path, fuel, k) is Ok,
        has_key(targets, names[j]),
    ensures
        fuel > 0,
        scope_steps(
            targets,
            lookup(targets, names[j])->Some_0.target_info(),
            satisfying_step(names[j], lookup(targets, names[j])->Some_0),
            config_path,
            (fuel - 1) as nat,
        ) is Ok,
        holds_all(
            required_steps(targets, names, config_path, fuel, k)->Ok_0,
            scope_steps(
                targets,
                lookup(targets, names[j])->Some_0.target_info(),
                satisfying_step(names[j], lookup(targets, names[j])->Some_0),
                config_path,
                (fuel - 1) as nat,
            )->Ok_0,
        ),
    decreases k,
{
    let all = required_steps(targets, names, config_path, fuel, k)->Ok_0;
    let front = required_steps(targets, names, config_path, fuel, k - 1)->Ok_0;
    let t = lookup(targets, names[j])->Some_0;
    let inner = scope_steps(
        targets,
        t.target_info(),
        satisfying_step(names[j], t),
        config_path,
        (fuel - 1) as nat,
    )->Ok_0;
    if j == k - 1 {
        assert(all == front + inner);
        assert forall|i: int| 0 <= i < inner.len() implies all.contains(#[trigger] inner[i]) by {
            assert(all[front.len() + i] == inner[i]);
        }
    } else {
        lemma_required_steps_hold(targets, names, config_path, fuel, k - 1, j);
        assert forall|i: int| 0 <= i < inner.len() implies all.contains(#[trigger] inner[i]) by {
            assert(front.contains(inner[i]));
            let at = choose|at: int| 0 <= at < front.len() && front[at] == inner[i];
            match lookup(targets, names[k - 1]) {
                None => {
                    assert(all[at] == inner[i]);
                },
                Some(last) => {
                    let tail = scope_steps(
                        targets,
                        last.target_info(),
                        satisfying_step(names[k - 1], last),
                        config_path,
                        (fuel - 1) as nat,
                    )->Ok_0;
                    assert(all == front + tail);
                    assert(all[at] == inner[i]);
                },
            }
        }
    }
}

/// The steps of a target hold its own step and the steps for its requirements.
pub proof fn lemma_scope_steps_hold(
    targets: TargetsView,
    info: TargetInfoView,
    terminal: StepView,
    config_path: Seq<char>,
    fuel: nat,
)
    requires
        scope_steps(targets, info, terminal, config_path, fuel) is Ok,
    ensures
        required_steps(targets, info.requires, config_path, fuel, info.requires.len() as int) is Ok,
        scope_steps(targets, info, terminal, config_path, fuel)->Ok_0.contains(terminal),
        holds_all(
            scope_steps(targets, info, terminal, config_path, fuel)->Ok_0,
            required_steps(
                targets,
                info.requires,
                config_path,
                fuel,
                info.requires.len() as int,
            )->Ok_0,
        ),
{
    let all = scope_steps(targets, info, terminal, config_path, fuel)->Ok_0;
    let before = required_steps(
        targets,
        info.requires,
        config_path,
        fuel,
        info.requires.len() as int,
    )->Ok_0;
    assert(all[before.len() as int] == terminal);
    assert forall|i: int| 0 <= i < before.len() implies all.contains(#[trigger] before[i]) by {
        assert(all[i] == before[i]);
    }
}

/// Whatever a target requires, directly or through others, has its step
/// among the steps for the requirements of the target.
pub proof fn lemma_chain_is_satisfied(
    targets: TargetsView,
    names: Seq<NameView>,
    config_path: Seq<char>,
    fuel: nat,
    path: Seq<NameView>,
)
    requires
        required_steps(targets, names, config_path, fuel, names.len() as int) is Ok,
        is_chain(targets, names, path),
    ensures
        required_steps(targets, names, config_path, fuel, names.len() as int)->Ok_0.contains(
            satisfying_step(path.last(), lookup(targets, path.last())->Some_0),
        ),
    decreases path.len(),
{
    let all = required_steps(targets, names, config_path, fuel, names.len() as int)->Ok_0;
    let j = choose|j: int| 0 <= j < names.len() && names[j] == path[0];
    assert(has_key(targets, path[0]));
    lemma_required_steps_hold(targets, names, config_path, fuel, names.len() as int, j);
    let t = lookup(targets, names[j])->Some_0;
    let terminal = satisfying_step(names[j], t);
    let inner = scope_steps(targets, t.target_info(), terminal, config_path, (fuel - 1) as nat)->Ok_0;
    lemma_scope_steps_hold(targets, t.target_info(), terminal, config_path, (fuel - 1) as nat);
    if path.len() == 1 {
        let at = choose|at: int| 0 <= at < inner.len() && inner[at] == terminal;
        assert(all.contains(inner[at]));
    } else {
        let rest = path.drop_first();
        let next = t.target_info().requires;
        assert(is_chain(targets, next, rest)) by {
            assert(is_link(targets, path, 1));
            assert(rest[0] == path[1]);
            assert forall|i: int| 0 <= i < rest.len() implies has_key(
                targets,
                #[trigger] rest[i],
            ) by {
                assert(rest[i] == path[i + 1]);
            }
            assert forall|i: int| 1 <= i < rest.len() implies #[trigger] is_link(
                targets,
                rest,
                i,
            ) by {
                assert(is_link(targets, path, i + 1));
                assert(rest[i] == path[i + 1]);
                assert(rest[i - 1] == path[i]);
            }
        }
        lemma_chain_is_satisfied(targets, next, config_path, (fuel - 1) as nat, rest);
        let before = required_steps(
            targets,
            next,
            config_path,
            (fuel - 1) as nat,
            next.len() as int,
        )->Ok_0;
        let wanted = satisfying_step(path.last(), lookup(targets, path.last())->Some_0);
        assert(rest.last() == path.last());
        let at = choose|at: int| 0 <= at < before.len() && before[at] == wanted;
        assert(inner.contains(before[at]));
        let at2 = choose|at2: int| 0 <= at2 < inner.len() && inner[at2] == wanted;
        assert(all.contains(inner[at2]));
    }
}

/// Requirements come first: in the steps of running a command, the step
/// of the command itself is preceded by the step of every target that the
/// command requires, directly or through others. Before the command runs,
/// each artifact it depends on was built, each plain command was run and
/// each daemon was started.
pub proof fn lemma_requirements_come_first(
    targets: TargetsView,
    command: CommandView,
    config_path: Seq<char>,
    args: Seq<Seq<char>>,
    path: Seq<NameView>,
)
    requires
        run_steps(targets, TargetView::Command(command), config_path, args) is Ok,
        is_chain(targets, command.target_info().requires, path),
    ensures
        ({
            let steps = run_steps(targets, TargetView::Command(command), config_path, args)->Ok_0;
            let own = StepView::Run(command.target_info().name, args);
            let wanted = satisfying_step(path.last(), lookup(targets, path.last())->Some_0);
            exists|at: int, before: int|
                0 <= before < at < steps.len() && steps[at] == own && steps[before] == wanted
        }),
{
    let info = command.target_info();
    let own = StepView::Run(info.name, args);
    let steps = run_steps(targets, TargetView::Command(command), config_path, args)->Ok_0;
    lemma_scope_steps_hold(targets, info, own, config_path, targets.len());
    let first = required_steps(
        targets,
        info.requires,
        config_path,
        targets.len(),
        info.requires.len() as int,
    )->Ok_0;
    lemma_chain_is_satisfied(targets, info.requires, config_path, targets.len(), path);
    let wanted = satisfying_step(path.last(), lookup(targets, path.last())->Some_0);
    let before = choose|before: int| 0 <= before < first.len() && first[before] == wanted;
    assert(steps[before] == wanted);
    assert(steps[first.len() as int] == own);
}

/// The daemons that are running after `steps`, given those that were
/// running before, in the order in which they were started.
pub open spec fn running_from(init: Seq<NameView>, steps: Seq<StepView>) -> Seq<NameView>
    decreases steps.len(),
{
    if steps.len() == 0 {
        init
    } else {
        let before = running_from(init, steps.drop_last());
        match steps.last() {
            StepView::Start(name, _) => before.push(name),
            StepView::Stop(name) => without_last(before, name),
            _ => before,
        }
    }
}

/// What runs after the first `k` steps is what runs after those steps, from nothing.
pub proof fn lemma_running_after(steps: Seq<StepView>, k: int)
    requires
        0 <= k <= steps.len(),
    ensures
        running_after(steps, k) == running_from(Seq::empty(), steps.take(k)),
    decreases k,
{
    if k > 0 {
        lemma_running_after(steps, k - 1);
        assert(steps.take(k).drop_last() =~= steps.take(k - 1));
        assert(steps.take(k).last() == steps[k - 1]);
    }
}

/// What runs after two lists of steps in a row is what runs after the
/// second, given what runs after the first.
pub proof fn lemma_running_from_concat(init: Seq<NameView>, a: Seq<StepView>, b: Seq<StepView>)
    ensures
        running_from(init, a + b) == running_from(running_from(init, a), b),
    decreases b.len(),
{
    if b.len() == 0 {
        assert(a + b =~= a);
    } else {
        lemma_running_from_concat(init, a, b.drop_last());
        assert((a + b).drop_last() =~= a + b.drop_last());
        assert((a + b).last() == b.last());
    }
}

/// Taking a daemon away that has at most one daemon started after it
/// leaves the others as they stand.
pub proof fn lemma_without_last_near_end(stack: Seq<NameView>, name: NameView, tail: Seq<NameView>)
    requires
        tail.len() <= 1,
    ensures
        without_last(stack.push(name) + tail, name) == stack + tail,
{
    let all = stack.push(name) + tail;
    let once = stack.push(name);
    assert(once.last() == name);
    assert(once.drop_last() =~= stack);
    assert(without_last(once, name) == stack);
    if tail.len() == 0 {
        assert(all =~= once);
        assert(stack + tail =~= stack);
    } else {
        assert(all.last() == tail[0]);
        assert(all.drop_last() =~= once);
        if tail[0] == name {
            assert(without_last(all, name) == all.drop_last());
            assert(stack + tail =~= once);
        } else {
            assert(without_last(all, name) == without_last(once, name).push(tail[0]));
            assert(stack.push(tail[0]) =~= stack + tail);
        }
    }
}

/// The daemons among the first `k` requirements, in order.
pub open spec fn daemons_among(names: Seq<NameView>, found: Seq<TargetView>, k: int) -> Seq<NameView>
    decreases k,
{
    if k <= 0 || k > names.len() || k > found.len() {
        Seq::empty()
    } else if found[k - 1].is_daemon() {
        daemons_among(names, found, k - 1).push(names[k - 1])
    } else {
        daemons_among(names, found, k - 1)
    }
}

/// The stops after a target undo the starts before it: the daemons that
/// were started for the target are gone, the last started first, and what
/// else runs is untouched.
pub proof fn lemma_teardown_undoes(
    init: Seq<NameView>,
    names: Seq<NameView>,
    found: Seq<TargetView>,
    k: int,
    tail: Seq<NameView>,
)
    requires
        0 <= k <= names.len(),
        k <= found.len(),
        tail.len() <= 1,
    ensures
        running_from(
            init + daemons_among(names, found, k) + tail,
            teardown_steps(names, found, k),
        ) == init + tail,
    decreases k,
{
    if k == 0 {
        assert(init + daemons_among(names, found, 0) + tail =~= init + tail);
    } else {
        lemma_teardown_undoes(init, names, found, k - 1, tail);
        let rest = teardown_steps(names, found, k - 1);
        let fewer = init + daemons_among(names, found, k - 1);
        if found[k - 1].is_daemon() {
            let stop = seq![StepView::Stop(names[k - 1])];
            let before = init + daemons_among(names, found, k) + tail;
            assert(before =~= fewer.push(names[k - 1]) + tail);
            lemma_running_from_concat(before, stop, rest);
            assert(stop.drop_last() =~= Seq::<StepView>::empty());
            assert(running_from(before, Seq::<StepView>::empty()) == before);
            assert(stop.last() == StepView::Stop(names[k - 1]));
            assert(running_from(before, stop) == without_last(before, names[k - 1]));
            lemma_without_last_near_end(fewer, names[k - 1], tail);
        }
    }
}

/// The targets that were found for the requirements are the targets of those names.
pub proof fn lemma_found_required(
    targets: TargetsView,
    info: TargetInfoView,
    config_path: Seq<char>,
    k: int,
)
    requires
        0 <= k <= info.requires.len(),
        found_required(targets, info, config_path, k) is Ok,
    ensures
        found_required(targets, info, config_path, k)->Ok_0.len() == k,
        forall|j: int|
            0 <= j < k ==> lookup(targets, info.requires[j]) == Some(
                #[trigger] found_required(targets, info, config_path, k)->Ok_0[j],
            ),
    decreases k,
{
    if k > 0 {
        lemma_found_required(targets, info, config_path, k - 1);
        let front = found_required(targets, info, config_path, k - 1)->Ok_0;
        let all = found_required(targets, info, config_path, k)->Ok_0;
        assert forall|j: int| 0 <= j < k implies lookup(targets, info.requires[j]) == Some(
            #[trigger] all[j],
        ) by {
            if j < k - 1 {
                assert(all[j] == front[j]);
            }
        }
    }
}

/// What runs once a step of a target itself is done: a start adds its daemon.
pub open spec fn after_own_step(init: Seq<NameView>, terminal: StepView) -> Seq<NameView> {
    match terminal {
        StepView::Start(name, _) => init.push(name),
        _ => init,
    }
}

/// The daemons among the first `k` of the requirements `names`, in order.
pub open spec fn required_daemons(targets: TargetsView, names: Seq<NameView>, k: int) -> Seq<NameView>
    decreases k,
{
    if k <= 0 || k > names.len() {
        Seq::empty()
    } else {
        match lookup(targets, names[k - 1]) {
            Some(t) => if t.is_daemon() {
                required_daemons(targets, names, k - 1).push(names[k - 1])
            } else {
                required_daemons(targets, names, k - 1)
            },
            None => required_daemons(targets, names, k - 1),
        }
    }
}

/// The daemons among requirements that were all found are the daemons among what was found.
pub proof fn lemma_required_daemons(
    targets: TargetsView,
    names: Seq<NameView>,
    found: Seq<TargetView>,
    k: int,
)
    requires
        0 <= k <= names.len(),
        k <= found.len(),
        forall|j: int| 0 <= j < k ==> lookup(targets, names[j]) == Some(#[trigger] found[j]),
    ensures
        required_daemons(targets, names, k) == daemons_among(names, found, k),
    decreases k,
{
    if k > 0 {
        lemma_required_daemons(targets, names, found, k - 1);
        assert(lookup(targets, names[k - 1]) == Some(found[k - 1]));
    }
}

/// The steps of a target leave running what ran before, and the target's
/// own daemon if its step is a start: whatever was started for it on the
/// way has been stopped again.
pub proof fn lemma_scope_is_balanced(
    targets: TargetsView,
    info: TargetInfoView,
    terminal: StepView,
    config_path: Seq<char>,
    fuel: nat,
    init: Seq<NameView>,
)
    requires
        scope_steps(targets, info, terminal, config_path, fuel) is Ok,
        !(terminal is Stop),
    ensures
        running_from(init, scope_steps(targets, info, terminal, config_path, fuel)->Ok_0)
            == after_own_step(init, terminal),
    decreases fuel, info.requires.len() + 1,
{
    let n = info.requires.len() as int;
    let found = found_required(targets, info, config_path, n)->Ok_0;
    let before = required_steps(targets, info.requires, config_path, fuel, n)->Ok_0;
    let stops = teardown_steps(info.requires, found, n);
    lemma_required_is_balanced(targets, info.requires, config_path, fuel, n, init);
    lemma_found_required(targets, info, config_path, n);
    lemma_required_daemons(targets, info.requires, found, n);
    let started = daemons_among(info.requires, found, n);
    let tail = after_own_step(Seq::<NameView>::empty(), terminal);
    lemma_running_from_concat(init, before.push(terminal), stops);
    assert(before.push(terminal).drop_last() =~= before);
    assert(running_from(init, before.push(terminal)) =~= init + started + tail);
    lemma_teardown_undoes(init, info.requires, found, n, tail);
    assert(init + tail =~= after_own_step(init, terminal));
}

/// The steps for a list of requirements leave running what ran before and
/// the daemons among the requirements, in order.
pub proof fn lemma_required_is_balanced(
    targets: TargetsView,
    names: Seq<NameView>,
    config_path: Seq<char>,
    fuel: nat,
    k: int,
    init: Seq<NameView>,
)
    requires
        0 <= k <= names.len(),
        required_steps(targets, names, config_path, fuel, k) is Ok,
    ensures
        running_from(init, required_steps(targets, names, config_path, fuel, k)->Ok_0) == init
            + required_daemons(targets, names, k),
    decreases fuel, k,
{
    if k == 0 {
        assert(init + required_daemons(targets, names, 0) =~= init);
    } else {
        lemma_required_is_balanced(targets, names, config_path, fuel, k - 1, init);
        let front = required_steps(targets, names, config_path, fuel, k - 1)->Ok_0;
        let held = init + required_daemons(targets, names, k - 1);
        match lookup(targets, names[k - 1]) {
            None => {},
            Some(t) => {
                let own = satisfying_step(names[k - 1], t);
                let inner = scope_steps(
                    targets,
                    t.target_info(),
                    own,
                    config_path,
                    (fuel - 1) as nat,
                )->Ok_0;
                lemma_scope_is_balanced(
                    targets,
                    t.target_info(),
                    own,
                    config_path,
                    (fuel - 1) as nat,
                    held,
                );
                lemma_running_from_concat(init, front, inner);
                if t.is_daemon() {
                    assert(held.push(names[k - 1]) =~= init + required_daemons(targets, names, k));
                }
            },
        }
    }
}

/// The daemons that a command requires directly are running when the
/// command itself begins, in the order in which it lists them, and nothing
/// that was started for the command is left running once its steps are done.
pub proof fn lemma_daemons_run_while_needed(
    targets: TargetsView,
    command: CommandView,
    config_path: Seq<char>,
    args: Seq<Seq<char>>,
)
    requires
        run_steps(targets, TargetView::Command(command), config_path, args) is Ok,
    ensures
        ({
            let steps = run_steps(targets, TargetView::Command(command), config_path, args)->Ok_0;
            let info = command.target_info();
            let before = required_steps(
                targets,
                info.requires,
                config_path,
                targets.len(),
                info.requires.len() as int,
            )->Ok_0;
            &&& before.len() < steps.len()
            &&& steps[before.len() as int] == StepView::Run(info.name, args)
            &&& running_after(steps, before.len() as int) == required_daemons(
                targets,
                info.requires,
                info.requires.len() as int,
            )
            &&& running_after(steps, steps.len() as int) == Seq::<NameView>::empty()
        }),
{
    let info = command.target_info();
    let own = StepView::Run(info.name, args);
    let steps = run_steps(targets, TargetView::Command(command), config_path, args)->Ok_0;
    let n = info.requires.len() as int;
    let before = required_steps(targets, info.requires, config_path, targets.len(), n)->Ok_0;
    let none = Seq::<NameView>::empty();
    lemma_scope_steps_hold(targets, info, own, config_path, targets.len());
    assert(steps[before.len() as int] == own);
    lemma_running_after(steps, before.len() as int);
    assert(steps.take(before.len() as int) =~= before);
    lemma_required_is_balanced(targets, info.requires, config_path, targets.len(), n, none);
    assert(none + required_daemons(targets, info.requires, n) =~= required_daemons(
        targets,
        info.requires,
        n,
    ));
    lemma_running_after(steps, steps.len() as int);
    assert(steps.take(steps.len() as int) =~= steps);
    lemma_scope_is_balanced(targets, info, own, config_path, targets.len(), none);
}

} // verus!
