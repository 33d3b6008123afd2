//! The configuration tree, as it is written down.
//!
//! Every field is optional: what a definition leaves out it may inherit from
//! the definition it extends. A table keeps the order of the file.
use vstd::prelude::*;
use crate::context::names::{
    canonical_option, canonical_option_list, canonical_option_map, resolve_target_names_in,
    resolve_target_names_in_map, resolve_target_names_in_vec, NameMap, NameMapView,
};
use crate::error::{Error, ErrorView};
use crate::table::{clone_option_string_map, StringMap, Table};
use crate::text::{clone_option_string, clone_option_strings};

verus! {

/// The name of the configuration file.
pub const CONFIG_FILE_NAME: &'static str = "taskrunner.toml";

/// The newer name of the configuration file.
pub const NEW_CONFIG_FILE_NAME: &'static str = "pls.toml";

/// The model of a text table.
pub type StringMapView = Seq<(Seq<char>, Seq<char>)>;

/// The model of what every definition may say of its target.
pub struct TargetInfoView {
    pub requires: Option<Seq<Seq<char>>>,
    pub extends: Option<Seq<char>>,
    pub variables: Option<StringMapView>,
    pub description: Option<Seq<char>>,
}

/// What every definition may say of its target.
#[derive(Debug)]
pub struct TargetInfo {
    pub requires: Option<Vec<String>>,
    pub extends: Option<String>,
    pub variables: Option<StringMap>,
    pub description: Option<String>,
}

impl DeepView for TargetInfo {
    type V = TargetInfoView;

    open spec fn deep_view(&self) -> TargetInfoView {
        TargetInfoView {
            requires: self.requires.deep_view(),
            extends: self.extends.deep_view(),
            variables: self.variables.deep_view(),
            description: self.description.deep_view(),
        }
    }
}

/// What a command definition may say of its lifetime.
#[derive(Clone, Copy, Debug)]
pub struct CommandInfo {
    pub daemon: Option<bool>,
}

impl DeepView for CommandInfo {
    type V = CommandInfo;

    open spec fn deep_view(&self) -> CommandInfo {
        *self
    }
}

/// The model of what an artifact definition may say of its inputs and outputs.
pub struct ArtifactInfoView {
    pub updates_paths: Option<Seq<Seq<char>>>,
    pub if_files_changed: Option<Seq<Seq<char>>>,
}

/// What an artifact definition may say of its inputs and outputs.
#[derive(Debug)]
pub struct ArtifactInfo {
    pub updates_paths: Option<Vec<String>>,
    pub if_files_changed: Option<Vec<String>>,
}

impl DeepView for ArtifactInfo {
    type V = ArtifactInfoView;

    open spec fn deep_view(&self) -> ArtifactInfoView {
        ArtifactInfoView {
            updates_paths: self.updates_paths.deep_view(),
            if_files_changed: self.if_files_changed.deep_view(),
        }
    }
}

/// The model of the definition of a command run on the host.
pub struct ExecCommandView {
    pub command: Option<Seq<char>>,
    pub default_args: Option<Seq<char>>,
    pub env: Option<Seq<Seq<char>>>,
    pub target_info: TargetInfoView,
    pub command_info: CommandInfo,
}

/// The definition of a command run on the host.
#[derive(Debug)]
pub struct ExecCommand {
    pub command: Option<String>,
    pub default_args: Option<String>,
    pub env: Option<Vec<String>>,
    pub target_info: TargetInfo,
    pub command_info: CommandInfo,
}

impl DeepView for ExecCommand {
    type V = ExecCommandView;

    open spec fn deep_view(&self) -> ExecCommandView {
        ExecCommandView {
            command: self.command.deep_view(),
            default_args: self.default_args.deep_view(),
            env: self.env.deep_view(),
            target_info: self.target_info.deep_view(),
            command_info: self.command_info,
        }
    }
}

/// The model of the definition of a command run in a container.
pub struct ContainerCommandView {
    pub image: Option<Seq<char>>,
    pub env: Option<Seq<Seq<char>>>,
    pub command: Option<Seq<char>>,
    pub mount: Option<StringMapView>,
    pub workdir: Option<Seq<char>>,
    pub network: Option<Seq<char>>,
    pub create_network: Option<bool>,
    pub default_args: Option<Seq<char>>,
    pub target_info: TargetInfoView,
    pub command_info: CommandInfo,
}

/// The definition of a command run in a container.
#[derive(Debug)]
pub struct ContainerCommand {
    pub image: Option<String>,
    pub env: Option<Vec<String>>,
    pub command: Option<String>,
    pub mount: Option<StringMap>,
    pub workdir: Option<String>,
    pub network: Option<String>,
    pub create_network: Option<bool>,
    pub default_args: Option<String>,
    pub target_info: TargetInfo,
    pub command_info: CommandInfo,
}

impl DeepView for ContainerCommand {
    type V = ContainerCommandView;

    open spec fn deep_view(&self) -> ContainerCommandView {
        ContainerCommandView {
            image: self.image.deep_view(),
            env: self.env.deep_view(),
            command: self.command.deep_view(),
            mount: self.mount.deep_view(),
            workdir: self.workdir.deep_view(),
            network: self.network.deep_view(),
            create_network: self.create_network,
            default_args: self.default_args.deep_view(),
            target_info: self.target_info.deep_view(),
            command_info: self.command_info,
        }
    }
}

/// The model of the definition of a container image.
pub struct ContainerBuildView {
    pub context: Option<Seq<char>>,
    pub tag: Option<Seq<char>>,
    pub artifact_info: ArtifactInfoView,
    pub target_info: TargetInfoView,
}

/// The definition of a container image.
#[derive(Debug)]
pub struct ContainerBuild {
    pub context: Option<String>,
    pub tag: Option<String>,
    pub artifact_info: ArtifactInfo,
    pub target_info: TargetInfo,
}

impl DeepView for ContainerBuild {
    type V = ContainerBuildView;

    open spec fn deep_view(&self) -> ContainerBuildView {
        ContainerBuildView {
            context: self.context.deep_view(),
            tag: self.tag.deep_view(),
            artifact_info: self.artifact_info.deep_view(),
            target_info: self.target_info.deep_view(),
        }
    }
}

/// The model of the definition of files made by a command.
pub struct ExecArtifactView {
    pub command: Option<Seq<char>>,
    pub env: Option<Seq<Seq<char>>>,
    pub target_info: TargetInfoView,
    pub artifact_info: ArtifactInfoView,
}

/// The definition of files made by a command.
#[derive(Debug)]
pub struct ExecArtifact {
    pub command: Option<String>,
    pub env: Option<Vec<String>>,
    pub target_info: TargetInfo,
    pub artifact_info: ArtifactInfo,
}

impl DeepView for ExecArtifact {
    type V = ExecArtifactView;

    open spec fn deep_view(&self) -> ExecArtifactView {
        ExecArtifactView {
            command: self.command.deep_view(),
            env: self.env.deep_view(),
            target_info: self.target_info.deep_view(),
            artifact_info: self.artifact_info.deep_view(),
        }
    }
}

/// The commands of a configuration, by shape and name.
#[derive(Debug)]
pub struct Command {
    pub executable: Option<Table<String, ExecCommand>>,
    pub container: Option<Table<String, ContainerCommand>>,
}

/// The artifacts of a configuration, by shape and name.
#[derive(Debug)]
pub struct Artifact {
    pub container_image: Option<Table<String, ContainerBuild>>,
    pub executable: Option<Table<String, ExecArtifact>>,
}

/// A configuration.
#[derive(Debug)]
pub struct Config {
    pub globals: Option<StringMap>,
    pub command: Option<Command>,
    pub artifact: Option<Artifact>,
}

impl Default for Config {
    fn default() -> (r: Self)
        ensures
            r.globals is None,
            r.command is None,
            r.artifact is None,
    {
        Config { globals: None, command: None, artifact: None }
    }
}

impl ExecCommand {
    /// The tag of commands run on the host.
    pub fn tag() -> (t: &'static str)
        ensures
            t@ == exec_command_tag(),
    {
        "command.exec"
    }

    /// The tag of this definition.
    pub fn type_tag(&self) -> (t: &'static str)
        ensures
            t@ == exec_command_tag(),
    {
        Self::tag()
    }

    /// Whether this defines an artifact: it does not.
    pub fn is_artifact(&self) -> (b: bool)
        ensures
            !b,
    {
        false
    }
}

impl ContainerCommand {
    /// The tag of commands run in a container.
    pub fn tag() -> (t: &'static str)
        ensures
            t@ == container_command_tag(),
    {
        "command.container"
    }

    /// The tag of this definition.
    pub fn type_tag(&self) -> (t: &'static str)
        ensures
            t@ == container_command_tag(),
    {
        Self::tag()
    }

    /// Whether this defines an artifact: it does not.
    pub fn is_artifact(&self) -> (b: bool)
        ensures
            !b,
    {
        false
    }
}

impl ContainerBuild {
    /// The tag of container images.
    pub fn tag() -> (t: &'static str)
        ensures
            t@ == container_image_tag(),
    {
        "artifact.container_image"
    }

    /// The tag of this definition.
    pub fn type_tag(&self) -> (t: &'static str)
        ensures
            t@ == container_image_tag(),
    {
        Self::tag()
    }

    /// Whether this defines an artifact: it does.
    pub fn is_artifact(&self) -> (b: bool)
        ensures
            b,
    {
        true
    }
}

impl ExecArtifact {
    /// The tag of files made by a command.
    pub fn tag() -> (t: &'static str)
        ensures
            t@ == exec_artifact_tag(),
    {
        "artifact.exec"
    }

    /// The tag of this definition.
    pub fn type_tag(&self) -> (t: &'static str)
        ensures
            t@ == exec_artifact_tag(),
    {
        Self::tag()
    }

    /// Whether this defines an artifact: it does.
    pub fn is_artifact(&self) -> (b: bool)
        ensures
            b,
    {
        true
    }
}

/// `t` with the references in its variables written out in full.
pub open spec fn resolved_target_info(t: TargetInfoView, names: NameMapView) -> Result<
    TargetInfoView,
    ErrorView,
> {
    match canonical_option_map(t.variables, names) {
        Err(e) => Err(e),
        Ok(variables) => Ok(
            TargetInfoView {
                requires: t.requires,
                extends: t.extends,
                variables,
                description: t.description,
            },
        ),
    }
}

/// `a` with the references in its paths written out in full.
pub open spec fn resolved_artifact_info(a: ArtifactInfoView, names: NameMapView) -> Result<
    ArtifactInfoView,
    ErrorView,
> {
    match canonical_option_list(a.updates_paths, names) {
        Err(e) => Err(e),
        Ok(updates_paths) => match canonical_option_list(a.if_files_changed, names) {
            Err(e) => Err(e),
            Ok(if_files_changed) => Ok(ArtifactInfoView { updates_paths, if_files_changed }),
        },
    }
}

/// `c` with the references in its command, default arguments and
/// environment written out in full.
pub open spec fn resolved_exec_command(c: ExecCommandView, names: NameMapView) -> Result<
    ExecCommandView,
    ErrorView,
> {
    match canonical_option(c.command, names) {
        Err(e) => Err(e),
        Ok(command) => match canonical_option(c.default_args, names) {
            Err(e) => Err(e),
            Ok(default_args) => match canonical_option_list(c.env, names) {
                Err(e) => Err(e),
                Ok(env) => Ok(
                    ExecCommandView {
                        command,
                        default_args,
                        env,
                        target_info: c.target_info,
                        command_info: c.command_info,
                    },
                ),
            },
        },
    }
}

/// `c` with the references in each of its texts written out in full.
pub open spec fn resolved_container_command(c: ContainerCommandView, names: NameMapView) -> Result<
    ContainerCommandView,
    ErrorView,
> {
    match canonical_option(c.image, names) {
        Err(e) => Err(e),
        Ok(image) => match canonical_option_list(c.env, names) {
            Err(e) => Err(e),
            Ok(env) => match canonical_option(c.command, names) {
                Err(e) => Err(e),
                Ok(command) => match canonical_option_map(c.mount, names) {
                    Err(e) => Err(e),
                    Ok(mount) => match canonical_option(c.workdir, names) {
                        Err(e) => Err(e),
                        Ok(workdir) => match canonical_option(c.network, names) {
                            Err(e) => Err(e),
                            Ok(network) => match canonical_option(c.default_args, names) {
                                Err(e) => Err(e),
                                Ok(default_args) => Ok(
                                    ContainerCommandView {
                                        image,
                                        env,
                                        command,
                                        mount,
                                        workdir,
                                        network,
                                        create_network: c.create_network,
                                        default_args,
                                        target_info: c.target_info,
                                        command_info: c.command_info,
                                    },
                                ),
                            },
                        },
                    },
                },
            },
        },
    }
}

/// `c` with the references in its context and tag written out in full.
pub open spec fn resolved_container_build(c: ContainerBuildView, names: NameMapView) -> Result<
    ContainerBuildView,
    ErrorView,
> {
    match canonical_option(c.context, names) {
        Err(e) => Err(e),
        Ok(context) => match canonical_option(c.tag, names) {
            Err(e) => Err(e),
            Ok(tag) => Ok(
                ContainerBuildView {
                    context,
                    tag,
                    artifact_info: c.artifact_info,
                    target_info: c.target_info,
                },
            ),
        },
    }
}

/// `a` with the references in its command and environment written out in full.
pub open spec fn resolved_exec_artifact(a: ExecArtifactView, names: NameMapView) -> Result<
    ExecArtifactView,
    ErrorView,
> {
    match canonical_option(a.command, names) {
        Err(e) => Err(e),
        Ok(command) => match canonical_option_list(a.env, names) {
            Err(e) => Err(e),
            Ok(env) => Ok(
                ExecArtifactView {
                    command,
                    env,
                    target_info: a.target_info,
                    artifact_info: a.artifact_info,
                },
            ),
        },
    }
}

/// `resolve_target_names_in` on a text that may be absent.
pub fn resolve_option(s: &Option<String>, name_map: &NameMap) -> (r: Result<Option<String>, Error>)
    ensures
        match r {
            Ok(o) => canonical_option(s.deep_view(), name_map.deep_view()) == Ok::<
                Option<Seq<char>>,
                ErrorView,
            >(o.deep_view()),
            Err(e) => canonical_option(s.deep_view(), name_map.deep_view()) == Err::<
                Option<Seq<char>>,
                ErrorView,
            >(e@),
        },
{
    match s {
        None => Ok(None),
        Some(t) => match resolve_target_names_in(t.as_str(), name_map) {
            Err(e) => Err(e),
            Ok(c) => Ok(Some(c)),
        },
    }
}

/// `resolve_target_names_in_vec` on a list that may be absent.
pub fn resolve_option_vec(items: &Option<Vec<String>>, name_map: &NameMap) -> (r: Result<
    Option<Vec<String>>,
    Error,
>)
    ensures
        match r {
            Ok(o) => canonical_option_list(items.deep_view(), name_map.deep_view()) == Ok::<
                Option<Seq<Seq<char>>>,
                ErrorView,
            >(o.deep_view()),
            Err(e) => canonical_option_list(items.deep_view(), name_map.deep_view()) == Err::<
                Option<Seq<Seq<char>>>,
                ErrorView,
            >(e@),
        },
{
    match items {
        None => Ok(None),
        Some(l) => match resolve_target_names_in_vec(l, name_map) {
            Err(e) => Err(e),
            Ok(c) => Ok(Some(c)),
        },
    }
}

/// `resolve_target_names_in_map` on a table that may be absent.
pub fn resolve_option_map(m: &Option<StringMap>, name_map: &NameMap) -> (r: Result<
    Option<StringMap>,
    Error,
>)
    ensures
        match r {
            Ok(o) => canonical_option_map(m.deep_view(), name_map.deep_view()) == Ok::<
                Option<StringMapView>,
                ErrorView,
            >(o.deep_view()),
            Err(e) => canonical_option_map(m.deep_view(), name_map.deep_view()) == Err::<
                Option<StringMapView>,
                ErrorView,
            >(e@),
        },
{
    match m {
        None => Ok(None),
        Some(t) => match resolve_target_names_in_map(t, name_map) {
            Err(e) => Err(e),
            Ok(c) => Ok(Some(c)),
        },
    }
}

impl TargetInfo {
    /// A copy with the references in its variables written out in full.
    pub fn with_resolved_targets(&self, name_map: &NameMap) -> (r: Result<Self, Error>)
        ensures
            match r {
                Ok(n) => resolved_target_info(self.deep_view(), name_map.deep_view()) == Ok::<
                    TargetInfoView,
                    ErrorView,
                >(n.deep_view()),
                Err(e) => resolved_target_info(self.deep_view(), name_map.deep_view()) == Err::<
                    TargetInfoView,
                    ErrorView,
                >(e@),
            },
    {
        let variables = match resolve_option_map(&self.variables, name_map) {
            Err(e) => {
                return Err(e);
            },
            Ok(v) => v,
        };
        Ok(
            TargetInfo {
                requires: clone_option_strings(&self.requires),
                extends: clone_option_string(&self.extends),
                variables,
                description: clone_option_string(&self.description),
            },
        )
    }

    /// A copy.
    pub fn duplicate(&self) -> (r: Self)
        ensures
            r.deep_view() == self.deep_view(),
    {
        TargetInfo {
            requires: clone_option_strings(&self.requires),
            extends: clone_option_string(&self.extends),
            variables: clone_option_string_map(&self.variables),
            description: clone_option_string(&self.description),
        }
    }
}

impl CommandInfo {
    /// A copy: a command's lifetime refers to no target.
    pub fn with_resolved_targets(&self, _name_map: &NameMap) -> (r: Result<Self, Error>)
        ensures
            r == Ok::<Self, Error>(*self),
    {
        Ok(*self)
    }
}

impl ArtifactInfo {
    /// A copy with the references in its paths written out in full.
    pub fn with_resolved_targets(&self, name_map: &NameMap) -> (r: Result<Self, Error>)
        ensures
            match r {
                Ok(n) => resolved_artifact_info(self.deep_view(), name_map.deep_view()) == Ok::<
                    ArtifactInfoView,
                    ErrorView,
                >(n.deep_view()),
                Err(e) => resolved_artifact_info(self.deep_view(), name_map.deep_view()) == Err::<
                    ArtifactInfoView,
                    ErrorView,
                >(e@),
            },
    {
        let updates_paths = match resolve_option_vec(&self.updates_paths, name_map) {
            Err(e) => {
                return Err(e);
            },
            Ok(v) => v,
        };
        let if_files_changed = match resolve_option_vec(&self.if_files_changed, name_map) {
            Err(e) => {
                return Err(e);
            },
            Ok(v) => v,
        };
        Ok(ArtifactInfo { updates_paths, if_files_changed })
    }

    /// A copy.
    pub fn duplicate(&self) -> (r: Self)
        ensures
            r.deep_view() == self.deep_view(),
    {
        ArtifactInfo {
            updates_paths: clone_option_strings(&self.updates_paths),
            if_files_changed: clone_option_strings(&self.if_files_changed),
        }
    }
}

impl ExecCommand {
    /// A copy with the references in its texts written out in full.
    pub fn with_resolved_targets(&self, name_map: &NameMap) -> (r: Result<Self, Error>)
        ensures
            match r {
                Ok(n) => resolved_exec_command(self.deep_view(), name_map.deep_view()) == Ok::<
                    ExecCommandView,
                    ErrorView,
                >(n.deep_view()),
                Err(e) => resolved_exec_command(self.deep_view(), name_map.deep_view()) == Err::<
                    ExecCommandView,
                    ErrorView,
                >(e@),
            },
    {
        let command = match resolve_option(&self.command, name_map) {
            Err(e) => {
                return Err(e);
            },
            Ok(v) => v,
        };
        let default_args = match resolve_option(&self.default_args, name_map) {
            Err(e) => {
                return Err(e);
            },
            Ok(v) => v,
        };
        let env = match resolve_option_vec(&self.env, name_map) {
            Err(e) => {
                return Err(e);
            },
            Ok(v) => v,
        };
        Ok(
            ExecCommand {
                command,
                default_args,
                env,
                target_info: self.target_info.duplicate(),
                command_info: self.command_info,
            },
        )
    }
}

impl ContainerCommand {
    /// A copy with the references in its texts written out in full.
    pub fn with_resolved_targets(&self, name_map: &NameMap) -> (r: Result<Self, Error>)
        ensures
            match r {
                Ok(n) => resolved_container_command(self.deep_view(), name_map.deep_view())
                    == Ok::<ContainerCommandView, ErrorView>(n.deep_view()),
                Err(e) => resolved_container_command(self.deep_view(), name_map.deep_view())
                    == Err::<ContainerCommandView, ErrorView>(e@),
            },
    {
        let image = match resolve_option(&self.image, name_map) {
            Err(e) => {
                return Err(e);
            },
            Ok(v) => v,
        };
        let env = match resolve_option_vec(&self.env, name_map) {
            Err(e) => {
                return Err(e);
            },
            Ok(v) => v,
        };
        let command = match resolve_option(&self.command, name_map) {
            Err(e) => {
                return Err(e);
            },
            Ok(v) => v,
        };
        let mount = match resolve_option_map(&self.mount, name_map) {
            Err(e) => {
                return Err(e);
            },
            Ok(v) => v,
        };
        let workdir = match resolve_option(&self.workdir, name_map) {
            Err(e) => {
                return Err(e);
            },
            Ok(v) => v,
        };
        let network = match resolve_option(&self.network, name_map) {
            Err(e) => {
                return Err(e);
            },
            Ok(v) => v,
        };
        let default_args = match resolve_option(&self.default_args, name_map) {
            Err(e) => {
                return Err(e);
            },
            Ok(v) => v,
        };
        Ok(
            ContainerCommand {
                image,
                env,
                command,
                mount,
                workdir,
                network,
                create_network: self.create_network,
                default_args,
                target_info: self.target_info.duplicate(),
                command_info: self.command_info,
            },
        )
    }
}

impl ContainerBuild {
    /// A copy with the references in its texts written out in full.
    pub fn with_resolved_targets(&self, name_map: &NameMap) -> (r: Result<Self, Error>)
        ensures
            match r {
                Ok(n) => resolved_container_build(self.deep_view(), name_map.deep_view()) == Ok::<
                    ContainerBuildView,
                    ErrorView,
                >(n.deep_view()),
                Err(e) => resolved_container_build(self.deep_view(), name_map.deep_view())
                    == Err::<ContainerBuildView, ErrorView>(e@),
            },
    {
        let context = match resolve_option(&self.context, name_map) {
            Err(e) => {
                return Err(e);
            },
            Ok(v) => v,
        };
        let tag = match resolve_option(&self.tag, name_map) {
            Err(e) => {
                return Err(e);
            },
            Ok(v) => v,
        };
        Ok(
            ContainerBuild {
                context,
                tag,
                artifact_info: self.artifact_info.duplicate(),
                target_info: self.target_info.duplicate(),
            },
        )
    }
}

impl ExecArtifact {
    /// A copy with the references in its texts written out in full.
    pub fn with_resolved_targets(&self, name_map: &NameMap) -> (r: Result<Self, Error>)
        ensures
            match r {
                Ok(n) => resolved_exec_artifact(self.deep_view(), name_map.deep_view()) == Ok::<
                    ExecArtifactView,
                    ErrorView,
                >(n.deep_view()),
                Err(e) => resolved_exec_artifact(self.deep_view(), name_map.deep_view()) == Err::<
                    ExecArtifactView,
                    ErrorView,
                >(e@),
            },
    {
        let command = match resolve_option(&self.command, name_map) {
            Err(e) => {
                return Err(e);
            },
            Ok(v) => v,
        };
        let env = match resolve_option_vec(&self.env, name_map) {
            Err(e) => {
                return Err(e);
            },
            Ok(v) => v,
        };
        Ok(
            ExecArtifact {
                command,
                env,
                target_info: self.target_info.duplicate(),
                artifact_info: self.artifact_info.duplicate(),
            },
        )
    }
}

/// The tag of commands run on the host.
pub open spec fn exec_command_tag() -> Seq<char> {
    "command.exec"@
}

/// The tag of commands run in a container.
pub open spec fn container_command_tag() -> Seq<char> {
    "command.container"@
}

/// The tag of container images.
pub open spec fn container_image_tag() -> Seq<char> {
    "artifact.container_image"@
}

/// The tag of files made by a command.
pub open spec fn exec_artifact_tag() -> Seq<char> {
    "artifact.exec"@
}

} // verus!
