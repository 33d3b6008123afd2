//! The subcommand `run`.
use vstd::prelude::*;
use crate::cmd::execute::{locate, locate_failure, resolves_to, Execute, Work, WorkView};
use crate::context::store::Context;
use crate::error::{Error, ErrorView};
use crate::runner::{run_steps, run_target};
use crate::text::clone_strings;

verus! {

/// Run the named target in the foreground.
#[derive(Debug)]
pub struct RunCommand {
    /// The name of the target to run.
    pub name: String,
    /// The arguments to pass to it.
    pub args: Vec<String>,
}

impl Execute for RunCommand {
    open spec fn executes(&self, context: &Context, r: Result<WorkView, ErrorView>) -> bool {
        match resolves_to(context.targets.deep_view(), self.name@) {
            Some(t) => match run_steps(
                context.targets.deep_view(),
                t,
                context.config_path@,
                self.args.deep_view(),
            ) {
                Ok(steps) => r == Ok::<WorkView, ErrorView>(WorkView::Steps(steps)),
                Err(e) => r == Err::<WorkView, ErrorView>(e),
            },
            None => r is Err && locate_failure(
                context.targets.deep_view(),
                self.name@,
                context.config_path@,
                r->Err_0,
            ),
        }
    }

    fn execute(&self, context: &Context) -> (r: Result<Work, Error>) {
        match locate(context, self.name.as_str()) {
            Err(e) => Err(e),
            Ok(target) => match run_target(target, context, clone_strings(&self.args)) {
                Err(e) => Err(e),
                Ok(steps) => Ok(Work::Steps(steps)),
            },
        }
    }
}

} // verus!
