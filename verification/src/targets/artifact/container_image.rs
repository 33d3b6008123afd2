//! Container images.
use vstd::prelude::*;
use crate::config::ContainerBuild as ConfigContainerBuild;
use crate::config::ContainerBuildView as ConfigContainerBuildView;
use crate::context::store::Context;
use crate::context::substitution::substituted;
use crate::default::{default_to, preferred};
use crate::error::{Error, ErrorView};
use crate::job::{job_result, world_of, Job, JobView, World};
use crate::outputs::OutputsManager;
use crate::shell::{escape_string, escaped};
use crate::target::{ArtifactInfo, ArtifactInfoView, TargetInfo, TargetInfoView};
use crate::text::clone_option_string;
use crate::validate::{
    field_violation, first_violation, non_empty_field, ValidationError, ValidationErrorView,
    violation_of,
};

verus! {

/// The model of a container image.
pub struct ContainerArtifactView {
    pub context: Seq<char>,
    pub tag: Seq<char>,
    pub artifact_info: ArtifactInfoView,
    pub target_info: TargetInfoView,
}

/// A container image: the directory it is built from and the tag it gets.
#[derive(Debug)]
pub struct ContainerArtifact {
    pub context: String,
    pub tag: String,
    pub artifact_info: ArtifactInfo,
    pub target_info: TargetInfo,
}

impl DeepView for ContainerArtifact {
    type V = ContainerArtifactView;

    open spec fn deep_view(&self) -> ContainerArtifactView {
        ContainerArtifactView {
            context: self.context@,
            tag: self.tag@,
            artifact_info: self.artifact_info.deep_view(),
            target_info: self.target_info.deep_view(),
        }
    }
}

impl Clone for ContainerArtifact {
    fn clone(&self) -> (r: Self)
        ensures
            r.deep_view() == self.deep_view(),
    {
        ContainerArtifact {
            context: self.context.clone(),
            tag: self.tag.clone(),
            artifact_info: self.artifact_info.clone(),
            target_info: self.target_info.clone(),
        }
    }
}

/// The image that `defn` defines on top of `base`: its own context and tag
/// where it has them, the base's where it has not.
pub open spec fn container_artifact_of(
    target_info: TargetInfoView,
    artifact_info: ArtifactInfoView,
    defn: ConfigContainerBuildView,
    base: Option<ContainerArtifactView>,
) -> ContainerArtifactView {
    ContainerArtifactView {
        context: preferred(
            defn.context,
            match base {
                Some(b) => Some(b.context),
                None => None,
            },
            Seq::empty(),
        ),
        tag: preferred(
            defn.tag,
            match base {
                Some(b) => Some(b.tag),
                None => None,
            },
            Seq::empty(),
        ),
        artifact_info,
        target_info,
    }
}

/// The rule that a container image breaks, if any: its context and its tag
/// must have content.
pub open spec fn container_artifact_violation(a: ContainerArtifactView) -> Option<
    ValidationErrorView,
> {
    first_violation(
        field_violation(a.context, "context must not be empty"@),
        field_violation(a.tag, "tag must not be empty"@),
    )
}

impl ContainerArtifact {
    /// The image that `defn` defines on top of `base`.
    pub fn from_config(
        target_info: TargetInfo,
        artifact_info: ArtifactInfo,
        defn: &ConfigContainerBuild,
        base: Option<&Self>,
    ) -> (r: Self)
        ensures
            r.deep_view() == container_artifact_of(
                target_info.deep_view(),
                artifact_info.deep_view(),
                defn.deep_view(),
                base.deep_view(),
            ),
    {
        let (base_context, base_tag) = match base {
            Some(b) => (Some(b.context.clone()), Some(b.tag.clone())),
            None => (None, None),
        };
        ContainerArtifact {
            context: default_to(clone_option_string(&defn.context), base_context),
            tag: default_to(clone_option_string(&defn.tag), base_tag),
            artifact_info,
            target_info,
        }
    }

    /// Checks the rules on the record.
    pub fn validate(&self) -> (r: Result<(), ValidationError>)
        ensures
            violation_of(r) == container_artifact_violation(self.deep_view()),
    {
        match non_empty_field(&self.context, "context must not be empty") {
            Err(e) => Err(e),
            Ok(_) => non_empty_field(&self.tag, "tag must not be empty"),
        }
    }
}

/// The key under which the identity of a built image is kept.
pub open spec fn image_output_key() -> Seq<char> {
    "sha"@
}

/// The job of building the image: the build of the container runtime with
/// the expanded tag and context, each quoted for the shell; the last line
/// it prints is the identity of the image.
pub open spec fn container_artifact_job(a: ContainerArtifactView, world: World) -> Result<
    JobView,
    ErrorView,
> {
    match substituted(
        a.tag,
        world.variables,
        world.globals,
        world.outputs,
        a.target_info.name,
        None,
        None,
    ) {
        Err(e) => Err(e),
        Ok(tag) => match substituted(
            a.context,
            world.variables,
            world.globals,
            world.outputs,
            a.target_info.name,
            None,
            None,
        ) {
            Err(e) => Err(e),
            Ok(context) => match escaped(tag) {
                Err(e) => Err(e),
                Ok(quoted_tag) => match escaped(context) {
                    Err(e) => Err(e),
                    Ok(quoted_context) => Ok(
                        JobView {
                            pre_commands: Seq::empty(),
                            command: "podman build -t "@ + quoted_tag + " "@ + quoted_context,
                            env: Seq::empty(),
                            cleanups: Seq::empty(),
                            outputs: Seq::empty(),
                            capture: Some(image_output_key()),
                        },
                    ),
                },
            },
        },
    }
}

impl ContainerArtifact {
    /// The job of building the image.
    pub fn job(&self, context: &Context, outputs: &OutputsManager) -> (r: Result<Job, Error>)
        ensures
            job_result(r) == container_artifact_job(self.deep_view(), world_of(context, outputs)),
    {
        let tag = match context.resolve_substitutions(
            self.tag.as_str(),
            &self.target_info.name,
            outputs,
        ) {
            Err(e) => {
                return Err(e);
            },
            Ok(t) => t,
        };
        let directory = match context.resolve_substitutions(
            self.context.as_str(),
            &self.target_info.name,
            outputs,
        ) {
            Err(e) => {
                return Err(e);
            },
            Ok(c) => c,
        };
        let quoted_tag = match escape_string(tag.as_str()) {
            Err(e) => {
                return Err(e);
            },
            Ok(q) => q,
        };
        let quoted_context = match escape_string(directory.as_str()) {
            Err(e) => {
                return Err(e);
            },
            Ok(q) => q,
        };
        let mut command = String::from_str("podman build -t ");
        command.append(quoted_tag.as_str());
        command.append(" ");
        command.append(quoted_context.as_str());
        let j = Job {
            pre_commands: Vec::new(),
            command,
            env: Vec::new(),
            cleanups: Vec::new(),
            outputs: Vec::new(),
            capture: Some(String::from_str("sha")),
        };
        assert(j.pre_commands.deep_view() =~= Seq::<Seq<char>>::empty());
        assert(j.env.deep_view() =~= Seq::<Seq<char>>::empty());
        assert(j.cleanups.deep_view() =~= Seq::<(Seq<char>, Seq<char>)>::empty());
        assert(j.outputs.deep_view() =~= Seq::<(Seq<char>, Seq<char>)>::empty());
        Ok(j)
    }
}

} // verus!
