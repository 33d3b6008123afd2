//! The subcommand `watch`.
use vstd::prelude::*;
use crate::cmd::execute::{locate, locate_failure, resolves_to, Execute, Work, WorkView};
use crate::context::store::Context;
use crate::error::{Error, ErrorKind, ErrorView};
use crate::graph::TargetsView;
use crate::name::{name_text, NameView};
use crate::runner::{
    again_steps, append_steps, start_or_run, start_steps, start_target, target_not_found, Step,
    StepView,
};
use crate::table::lookup;
use crate::target::{Target, TargetView};
use crate::text::{clone_strings, concat3, lemma_deep_view_index};
use crate::watch::{
    all_patterns, dispatched, is_trigger_set, minimal_roots, trigger_failure, WatchTrigger,
};

verus! {

/// Start the named target, then run it again whenever what it is made from changes.
#[derive(Debug)]
pub struct WatchCommand {
    /// The name of the target to watch.
    pub name: String,
    /// The arguments to pass to it.
    pub args: Vec<String>,
}

/// The steps that start the watch: a command is started, with what it
/// requires; an artifact needs no start.
pub open spec fn first_steps(
    targets: TargetsView,
    target: TargetView,
    config_path: Seq<char>,
    args: Seq<Seq<char>>,
) -> Result<Seq<StepView>, ErrorView> {
    match target {
        TargetView::Command(c) => start_steps(targets, c, config_path, args),
        TargetView::Artifact(_) => Ok(Seq::empty()),
    }
}

/// The steps for the first `k` of the targets `names` that are to run
/// again: those of each, in order. A name that is no target is an error.
pub open spec fn changed_steps(
    targets: TargetsView,
    names: Seq<NameView>,
    config_path: Seq<char>,
    k: int,
) -> Result<Seq<StepView>, ErrorView>
    decreases k,
{
    if k <= 0 || k > names.len() {
        Ok(Seq::empty())
    } else {
        match changed_steps(targets, names, config_path, k - 1) {
            Err(e) => Err(e),
            Ok(front) => match lookup(targets, names[k - 1]) {
                None => Err(target_not_found(name_text(names[k - 1]), config_path)),
                Some(t) => Ok(front + again_steps(t, Seq::empty())),
            },
        }
    }
}

/// An error among the first `k` targets is the error of them all.
pub proof fn lemma_changed_steps_error(
    targets: TargetsView,
    names: Seq<NameView>,
    config_path: Seq<char>,
    k: int,
    more: int,
)
    requires
        0 <= k <= more <= names.len(),
        changed_steps(targets, names, config_path, k) is Err,
    ensures
        changed_steps(targets, names, config_path, more) == changed_steps(
            targets,
            names,
            config_path,
            k,
        ),
    decreases more - k,
{
    if k < more {
        lemma_changed_steps_error(targets, names, config_path, k, more - 1);
    }
}

impl WatchCommand {
    /// The steps to carry out when the paths `changed` changed: for each
    /// trigger that one of them sets off, its target is run again, then the
    /// targets that follow it.
    pub fn on_change(triggers: &Vec<WatchTrigger>, context: &Context, changed: &Vec<String>) -> (r:
        Result<Vec<Step>, Error>)
        ensures
            crate::runner::steps_result(r) == changed_steps(
                context.targets.deep_view(),
                dispatched(triggers.deep_view(), changed.deep_view(), triggers@.len() as int),
                context.config_path@,
                dispatched(
                    triggers.deep_view(),
                    changed.deep_view(),
                    triggers@.len() as int,
                ).len() as int,
            ),
    {
        let names = WatchTrigger::dispatch(triggers, changed);
        let mut steps: Vec<Step> = Vec::new();
        let mut k: usize = 0;
        let ghost model = context.targets.deep_view();
        let ghost ns = names.deep_view();
        assert(steps.deep_view() =~= Seq::<StepView>::empty());
        proof {
            lemma_deep_view_index(names);
        }
        while k < names.len()
            invariant
                k <= names.len(),
                model == context.targets.deep_view(),
                ns == names.deep_view(),
                ns == dispatched(
                    triggers.deep_view(),
                    changed.deep_view(),
                    triggers@.len() as int,
                ),
                ns.len() == names@.len(),
                changed_steps(model, ns, context.config_path@, k as int) == Ok::<
                    Seq<StepView>,
                    ErrorView,
                >(steps.deep_view()),
            decreases names.len() - k,
        {
            proof {
                lemma_deep_view_index(names);
            }
            match context.targets.get(&names[k]) {
                None => {
                    proof {
                        lemma_changed_steps_error(
                            model,
                            ns,
                            context.config_path@,
                            k as int + 1,
                            ns.len() as int,
                        );
                    }
                    let text = names[k].to_string();
                    let mut message = concat3(
                        "Target <",
                        text.as_str(),
                        "> not found in config file <",
                    );
                    message.append(context.config_path.as_str());
                    message.append(">");
                    return Err(Error::new(ErrorKind::TargetNotFound, message));
                },
                Some(t) => {
                    let none: Vec<String> = Vec::new();
                    assert(none.deep_view() =~= Seq::<Seq<char>>::empty());
                    let again = start_or_run(t, none);
                    append_steps(&mut steps, &again);
                },
            }
            k += 1;
        }
        Ok(steps)
    }
}

impl Execute for WatchCommand {
    open spec fn executes(&self, context: &Context, r: Result<WorkView, ErrorView>) -> bool {
        let targets = context.targets.deep_view();
        match resolves_to(targets, self.name@) {
            None => r is Err && locate_failure(targets, self.name@, context.config_path@, r->Err_0),
            Some(t) => match r {
                Err(e) => trigger_failure(targets, t, e) || first_steps(
                    targets,
                    t,
                    context.config_path@,
                    self.args.deep_view(),
                ) == Err::<Seq<StepView>, ErrorView>(e),
                Ok(WorkView::Watch { start, triggers, watches }) => {
                    &&& is_trigger_set(targets, t, triggers)
                    &&& first_steps(targets, t, context.config_path@, self.args.deep_view())
                        == Ok::<Seq<StepView>, ErrorView>(start)
                    &&& watches == minimal_roots(all_patterns(triggers, triggers.len() as int))
                },
                Ok(_) => false,
            },
        }
    }

    fn execute(&self, context: &Context) -> (r: Result<Work, Error>) {
        let target = match locate(context, self.name.as_str()) {
            Err(e) => {
                return Err(e);
            },
            Ok(t) => t,
        };
        let triggers = match WatchTrigger::get_all(target, context) {
            Err(e) => {
                return Err(e);
            },
            Ok(t) => t,
        };
        let start: Vec<Step> = match target.as_startable() {
            None => {
                let none: Vec<Step> = Vec::new();
                assert(none.deep_view() =~= Seq::<StepView>::empty());
                none
            },
            Some(command) => match start_target(command, context, clone_strings(&self.args)) {
                Err(e) => {
                    return Err(e);
                },
                Ok(s) => s,
            },
        };
        proof {
            lemma_deep_view_index(triggers);
        }
        let watches = WatchTrigger::find_minimal_watches(&triggers);
        Ok(Work::Watch { start, triggers, watches })
    }
}

} // verus!
