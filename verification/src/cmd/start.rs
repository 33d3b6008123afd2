//! The subcommand `start`.
use vstd::prelude::*;
use crate::cmd::execute::{
    capability_error, locate, locate_failure, not_capable, resolves_to, Execute, Work,
    WorkView,
};
use crate::context::store::Context;
use crate::error::{Error, ErrorView};
use crate::runner::{start_steps, start_target};
use crate::target::TargetView;
use crate::text::clone_strings;

verus! {

/// Start the named target as a daemon.
#[derive(Debug)]
pub struct StartCommand {
    /// The name of the target to start.
    pub name: String,
    /// The arguments to pass to it.
    pub args: Vec<String>,
}

impl Execute for StartCommand {
    open spec fn executes(&self, context: &Context, r: Result<WorkView, ErrorView>) -> bool {
        match resolves_to(context.targets.deep_view(), self.name@) {
            Some(TargetView::Command(c)) => match start_steps(
                context.targets.deep_view(),
                c,
                context.config_path@,
                self.args.deep_view(),
            ) {
                Ok(steps) => r == Ok::<WorkView, ErrorView>(WorkView::Steps(steps)),
                Err(e) => r == Err::<WorkView, ErrorView>(e),
            },
            Some(TargetView::Artifact(_)) => r == Err::<WorkView, ErrorView>(
                capability_error(self.name@, "startable"@),
            ),
            None => r is Err && locate_failure(
                context.targets.deep_view(),
                self.name@,
                context.config_path@,
                r->Err_0,
            ),
        }
    }

    fn execute(&self, context: &Context) -> (r: Result<Work, Error>) {
        match locate(context, self.name.as_str()) {
            Err(e) => Err(e),
            Ok(target) => match target.as_startable() {
                None => Err(not_capable(self.name.as_str(), "startable")),
                Some(command) => match start_target(command, context, clone_strings(&self.args)) {
                    Err(e) => Err(e),
                    Ok(steps) => Ok(Work::Steps(steps)),
                },
            },
        }
    }
}

} // verus!
