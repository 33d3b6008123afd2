//! The subcommand `stop`.
use vstd::prelude::*;
use crate::cmd::execute::{
    capability_error, locate, locate_failure, not_capable, resolves_to, Execute, Work,
    WorkView,
};
use crate::context::store::Context;
use crate::error::{Error, ErrorView};
use crate::runner::{stop_target, StepView};
use crate::target::TargetView;

verus! {

/// Stop the daemon of the named target.
#[derive(Debug)]
pub struct StopCommand {
    /// The name of the target to stop.
    pub target: String,
}

impl Execute for StopCommand {
    open spec fn executes(&self, context: &Context, r: Result<WorkView, ErrorView>) -> bool {
        match resolves_to(context.targets.deep_view(), self.target@) {
            Some(TargetView::Command(c)) => r == Ok::<WorkView, ErrorView>(
                WorkView::Steps(seq![StepView::Stop(c.target_info().name)]),
            ),
            Some(TargetView::Artifact(_)) => r == Err::<WorkView, ErrorView>(
                capability_error(self.target@, "stopable"@),
            ),
            None => r is Err && locate_failure(
                context.targets.deep_view(),
                self.target@,
                context.config_path@,
                r->Err_0,
            ),
        }
    }

    fn execute(&self, context: &Context) -> (r: Result<Work, Error>) {
        match locate(context, self.target.as_str()) {
            Err(e) => Err(e),
            Ok(target) => match target.as_startable() {
                None => Err(not_capable(self.target.as_str(), "stopable")),
                Some(command) => Ok(Work::Steps(stop_target(command))),
            },
        }
    }
}

} // verus!
