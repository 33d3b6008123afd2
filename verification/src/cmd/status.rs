//! The subcommand `status`.
use vstd::prelude::*;
use crate::cmd::execute::{
    capability_error, locate, locate_failure, not_capable, resolves_to, Execute, Work,
    WorkView,
};
use crate::commands::{StatusResult, StatusResultView};
use crate::context::store::Context;
use crate::error::{Error, ErrorView};
use crate::name::{name_text, FullyQualifiedName, NameView};
use crate::target::TargetView;
use crate::text::concat3;

verus! {

/// Report whether the daemon of the named target is running.
#[derive(Debug)]
pub struct StatusCommand {
    /// The name of the target to report on.
    pub name: String,
}

/// The line that reports the state `status` of the daemon of `name`.
pub open spec fn status_text(name: NameView, status: StatusResultView) -> Seq<char> {
    match status {
        StatusResultView::Running(message) => "["@ + name_text(name) + "] "@ + message,
        StatusResultView::NotRunning => "["@ + name_text(name) + "] Not running"@,
    }
}

/// The line that reports the state `status` of the daemon of `name`.
pub fn status_line(name: &FullyQualifiedName, status: &StatusResult) -> (s: String)
    ensures
        s@ == status_text(name@, status.deep_view()),
{
    let text = name.to_string();
    match status {
        StatusResult::Running(message) => {
            let mut s = concat3("[", text.as_str(), "] ");
            s.append(message.as_str());
            s
        },
        StatusResult::NotRunning => concat3("[", text.as_str(), "] Not running"),
    }
}

impl Execute for StatusCommand {
    open spec fn executes(&self, context: &Context, r: Result<WorkView, ErrorView>) -> bool {
        match resolves_to(context.targets.deep_view(), self.name@) {
            Some(TargetView::Command(c)) => r == Ok::<WorkView, ErrorView>(
                WorkView::Status(c.target_info().name),
            ),
            Some(TargetView::Artifact(_)) => r == Err::<WorkView, ErrorView>(
                capability_error(self.name@, "startable"@),
            ),
            None => r is Err && locate_failure(
                context.targets.deep_view(),
                self.name@,
                context.config_path@,
                r->Err_0,
            ),
        }
    }

    fn execute(&self, context: &Context) -> (r: Result<Work, Error>) {
        match locate(context, self.name.as_str()) {
            Err(e) => Err(e),
            Ok(target) => match target.as_startable() {
                None => Err(not_capable(self.name.as_str(), "startable")),
                Some(command) => Ok(Work::Status(command.target_info().name.clone())),
            },
        }
    }
}

} // verus!
