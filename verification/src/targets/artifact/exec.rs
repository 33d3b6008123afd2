//! Files made by a command.
use vstd::prelude::*;
use crate::config::ExecArtifact as ConfigExecArtifact;
use crate::config::ExecArtifactView as ConfigExecArtifactView;
use crate::context::store::Context;
use crate::context::substitution::substituted;
use crate::default::{default_to, preferred};
use crate::error::{Error, ErrorView};
use crate::job::{job_result, make_plain_job, plain_job, world_of, Job, JobView, World};
use crate::outputs::OutputsManager;
use crate::shell::{resolve_all, substituted_list};
use crate::target::{ArtifactInfo, ArtifactInfoView, TargetInfo, TargetInfoView};
use crate::targets::command::exec::{inherited_list, or_empty};
use crate::text::{clone_option_string, clone_strings};
use crate::validate::{
    field_violation, first_violation, list_violation, non_empty_field, non_empty_strings,
    ValidationError, ValidationErrorView, violation_of,
};

verus! {

/// The model of files made by a command.
pub struct ExecArtifactView {
    pub command: Seq<char>,
    pub env: Seq<Seq<char>>,
    pub artifact_info: ArtifactInfoView,
    pub target_info: TargetInfoView,
}

/// Files made by a command: the command and the environment it runs in.
#[derive(Debug)]
pub struct ExecArtifact {
    pub command: String,
    pub env: Vec<String>,
    pub artifact_info: ArtifactInfo,
    pub target_info: TargetInfo,
}

impl DeepView for ExecArtifact {
    type V = ExecArtifactView;

    open spec fn deep_view(&self) -> ExecArtifactView {
        ExecArtifactView {
            command: self.command@,
            env: self.env.deep_view(),
            artifact_info: self.artifact_info.deep_view(),
            target_info: self.target_info.deep_view(),
        }
    }
}

impl Clone for ExecArtifact {
    fn clone(&self) -> (r: Self)
        ensures
            r.deep_view() == self.deep_view(),
    {
        ExecArtifact {
            command: self.command.clone(),
            env: clone_strings(&self.env),
            artifact_info: self.artifact_info.clone(),
            target_info: self.target_info.clone(),
        }
    }
}

/// The artifact that `defn` defines on top of `base`: its own command where
/// it has one, the base's where it has not, and the base's environment
/// followed by its own.
pub open spec fn exec_artifact_of(
    target_info: TargetInfoView,
    artifact_info: ArtifactInfoView,
    defn: ConfigExecArtifactView,
    base: Option<ExecArtifactView>,
) -> ExecArtifactView {
    ExecArtifactView {
        command: preferred(
            defn.command,
            match base {
                Some(b) => Some(b.command),
                None => None,
            },
            Seq::empty(),
        ),
        env: match base {
            Some(b) => b.env,
            None => Seq::empty(),
        } + or_empty(defn.env),
        artifact_info,
        target_info,
    }
}

/// The rule that files made by a command break, if any: the command must
/// have content, and so must each entry of the environment.
pub open spec fn exec_artifact_violation(a: ExecArtifactView) -> Option<ValidationErrorView> {
    first_violation(field_violation(a.command, "Command must not be empty"@), list_violation(a.env))
}

impl ExecArtifact {
    /// The artifact that `defn` defines on top of `base`.
    pub fn from_config(
        target_info: TargetInfo,
        artifact_info: ArtifactInfo,
        defn: &ConfigExecArtifact,
        base: Option<&Self>,
    ) -> (r: Self)
        ensures
            r.deep_view() == exec_artifact_of(
                target_info.deep_view(),
                artifact_info.deep_view(),
                defn.deep_view(),
                base.deep_view(),
            ),
    {
        let (base_command, base_env) = match base {
            Some(b) => (Some(b.command.clone()), Some(&b.env)),
            None => (None, None),
        };
        ExecArtifact {
            command: default_to(clone_option_string(&defn.command), base_command),
            env: inherited_list(base_env, &defn.env),
            artifact_info,
            target_info,
        }
    }

    /// Checks the rules on the record.
    pub fn validate(&self) -> (r: Result<(), ValidationError>)
        ensures
            violation_of(r) == exec_artifact_violation(self.deep_view()),
    {
        match non_empty_field(&self.command, "Command must not be empty") {
            Err(e) => Err(e),
            Ok(_) => non_empty_strings(&self.env),
        }
    }
}

/// The job of building the artifact: its command, and its environment
/// with every entry expanded.
pub open spec fn exec_artifact_job(a: ExecArtifactView, world: World) -> Result<JobView, ErrorView> {
    match substituted(
        a.command,
        world.variables,
        world.globals,
        world.outputs,
        a.target_info.name,
        None,
        None,
    ) {
        Err(e) => Err(e),
        Ok(command) => match substituted_list(
            a.env,
            world.variables,
            world.globals,
            world.outputs,
            a.target_info.name,
        ) {
            Err(e) => Err(e),
            Ok(env) => Ok(plain_job(command, env)),
        },
    }
}

impl ExecArtifact {
    /// The job of building the artifact.
    pub fn job(&self, context: &Context, outputs: &OutputsManager) -> (r: Result<Job, Error>)
        ensures
            job_result(r) == exec_artifact_job(self.deep_view(), world_of(context, outputs)),
    {
        let command = match context.resolve_substitutions(
            self.command.as_str(),
            &self.target_info.name,
            outputs,
        ) {
            Err(e) => {
                return Err(e);
            },
            Ok(c) => c,
        };
        match resolve_all(&self.target_info.name, context, outputs, &self.env) {
            Err(e) => Err(e),
            Ok(env) => Ok(make_plain_job(command, env)),
        }
    }
}

} // verus!
