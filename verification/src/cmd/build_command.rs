//! The subcommand `build`.
use vstd::prelude::*;
use crate::cmd::execute::{
    capability_error, locate, locate_failure, not_capable, resolves_to, Execute, Work,
    WorkView,
};
use crate::context::store::Context;
use crate::error::{Error, ErrorView};
use crate::runner::{build_steps, build_target};
use crate::target::TargetView;

verus! {

/// Build the named artifact, unless it is up to date.
#[derive(Debug)]
pub struct BuildCommand {
    /// The name of the artifact to build.
    pub artifact: String,
}

impl Execute for BuildCommand {
    open spec fn executes(&self, context: &Context, r: Result<WorkView, ErrorView>) -> bool {
        match resolves_to(context.targets.deep_view(), self.artifact@) {
            Some(TargetView::Artifact(a)) => match build_steps(
                context.targets.deep_view(),
                a,
                context.config_path@,
            ) {
                Ok(steps) => r == Ok::<WorkView, ErrorView>(WorkView::Steps(steps)),
                Err(e) => r == Err::<WorkView, ErrorView>(e),
            },
            Some(TargetView::Command(_)) => r == Err::<WorkView, ErrorView>(
                capability_error(self.artifact@, "buildable, use the run command instead"@),
            ),
            None => r is Err && locate_failure(
                context.targets.deep_view(),
                self.artifact@,
                context.config_path@,
                r->Err_0,
            ),
        }
    }

    fn execute(&self, context: &Context) -> (r: Result<Work, Error>) {
        match locate(context, self.artifact.as_str()) {
            Err(e) => Err(e),
            Ok(target) => match target.as_buildable() {
                None => Err(
                    not_capable(self.artifact.as_str(), "buildable, use the run command instead"),
                ),
                Some(artifact) => match build_target(artifact, context) {
                    Err(e) => Err(e),
                    Ok(steps) => Ok(Work::Steps(steps)),
                },
            },
        }
    }
}

} // verus!
