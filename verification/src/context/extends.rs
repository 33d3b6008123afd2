//! The record of a definition: the definition laid on top of the record of
//! the definition it extends, and so on down the chain.
use vstd::prelude::*;
use crate::config::ArtifactInfo as ConfigArtifactInfo;
use crate::config::ArtifactInfoView as ConfigArtifactInfoView;
use crate::config::CommandInfo as ConfigCommandInfo;
use crate::config::ContainerBuild as ConfigContainerBuild;
use crate::config::ContainerBuildView as ConfigContainerBuildView;
use crate::config::ContainerCommand as ConfigContainerCommand;
use crate::config::ContainerCommandView as ConfigContainerCommandView;
use crate::config::ExecArtifact as ConfigExecArtifact;
use crate::config::ExecArtifactView as ConfigExecArtifactView;
use crate::config::ExecCommand as ConfigExecCommand;
use crate::config::ExecCommandView as ConfigExecCommandView;
use crate::config::TargetInfo as ConfigTargetInfo;
use crate::config::TargetInfoView as ConfigTargetInfoView;
use crate::config::{
    container_command_tag, container_image_tag, exec_artifact_tag, exec_command_tag,
    resolved_artifact_info, resolved_container_build, resolved_container_command,
    resolved_exec_artifact, resolved_exec_command, resolved_target_info,
};
use crate::context::names::{NameMap, NameMapView};
use crate::context::resolver::{
    artifact_info_from_config, artifact_info_of, command_info_from_config, command_info_of,
    get_lookup_name, lookup_name, target_info_from_config, target_info_of,
};
use crate::error::{Error, ErrorKind, ErrorView};
use crate::name::{name_text, FullyQualifiedName, NameView};
use crate::table::{lookup, Table};
use crate::target::{
    expected_artifact, expected_command, expected_container_command, expected_container_image,
    expected_exec_artifact, expected_exec_command, Artifact, ArtifactInfo, ArtifactInfoView,
    ArtifactView, Command, CommandInfo, CommandView, Target, TargetInfo, TargetInfoView,
    TargetView,
};
use crate::targets::artifact::container_image::{
    container_artifact_of, container_artifact_violation, ContainerArtifact,
};
use crate::targets::artifact::exec::{exec_artifact_of, exec_artifact_violation, ExecArtifact};
use crate::targets::command::container::{
    container_command_of, container_command_violation, ContainerCommand,
};
use crate::targets::command::exec::{exec_command_of, exec_command_violation, ExecCommand};
use crate::text::{clone_option_string, concat3};
use crate::validate::{ValidationError, ValidationErrorView};

verus! {

/// The model of a definition of any shape.
pub enum ConfigWrapperView {
    Exec(ConfigExecCommandView),
    Container(ConfigContainerCommandView),
    ContainerBuild(ConfigContainerBuildView),
    ExecArtifact(ConfigExecArtifactView),
}

/// A definition of any shape.
#[derive(Debug)]
pub enum ConfigWrapper<'a> {
    Exec(&'a ConfigExecCommand),
    Container(&'a ConfigContainerCommand),
    ContainerBuild(&'a ConfigContainerBuild),
    ExecArtifact(&'a ConfigExecArtifact),
}

impl<'a> DeepView for ConfigWrapper<'a> {
    type V = ConfigWrapperView;

    open spec fn deep_view(&self) -> ConfigWrapperView {
        match self {
            ConfigWrapper::Exec(c) => ConfigWrapperView::Exec(c.deep_view()),
            ConfigWrapper::Container(c) => ConfigWrapperView::Container(c.deep_view()),
            ConfigWrapper::ContainerBuild(c) => ConfigWrapperView::ContainerBuild(c.deep_view()),
            ConfigWrapper::ExecArtifact(c) => ConfigWrapperView::ExecArtifact(c.deep_view()),
        }
    }
}

impl ConfigWrapperView {
    /// What the definition says of its target.
    pub open spec fn target_info(self) -> ConfigTargetInfoView {
        match self {
            ConfigWrapperView::Exec(c) => c.target_info,
            ConfigWrapperView::Container(c) => c.target_info,
            ConfigWrapperView::ContainerBuild(c) => c.target_info,
            ConfigWrapperView::ExecArtifact(c) => c.target_info,
        }
    }

    /// What the definition says of its lifetime, if it defines a command.
    pub open spec fn command_info(self) -> Option<ConfigCommandInfo> {
        match self {
            ConfigWrapperView::Exec(c) => Some(c.command_info),
            ConfigWrapperView::Container(c) => Some(c.command_info),
            ConfigWrapperView::ContainerBuild(_) => None,
            ConfigWrapperView::ExecArtifact(_) => None,
        }
    }

    /// What the definition says of its inputs and outputs, if it defines an artifact.
    pub open spec fn artifact_info(self) -> Option<ConfigArtifactInfoView> {
        match self {
            ConfigWrapperView::Exec(_) => None,
            ConfigWrapperView::Container(_) => None,
            ConfigWrapperView::ContainerBuild(c) => Some(c.artifact_info),
            ConfigWrapperView::ExecArtifact(c) => Some(c.artifact_info),
        }
    }

    /// The definition that this one extends, as written.
    pub open spec fn extends(self) -> Option<Seq<char>> {
        self.target_info().extends
    }

    /// The tag of the definition's shape.
    pub open spec fn type_tag(self) -> Seq<char> {
        match self {
            ConfigWrapperView::Exec(_) => exec_command_tag(),
            ConfigWrapperView::Container(_) => container_command_tag(),
            ConfigWrapperView::ContainerBuild(_) => container_image_tag(),
            ConfigWrapperView::ExecArtifact(_) => exec_artifact_tag(),
        }
    }

    /// Whether the definition defines an artifact.
    pub open spec fn is_artifact(self) -> bool {
        self is ContainerBuild || self is ExecArtifact
    }
}

impl<'a> ConfigWrapper<'a> {
    /// What the definition says of its target.
    pub fn target_info(&self) -> (r: &'a ConfigTargetInfo)
        ensures
            r.deep_view() == self.deep_view().target_info(),
    {
        match self {
            ConfigWrapper::Exec(c) => &c.target_info,
            ConfigWrapper::Container(c) => &c.target_info,
            ConfigWrapper::ContainerBuild(c) => &c.target_info,
            ConfigWrapper::ExecArtifact(c) => &c.target_info,
        }
    }

    /// What the definition says of its lifetime, if it defines a command.
    pub fn command_info(&self) -> (r: Option<&'a ConfigCommandInfo>)
        ensures
            r.deep_view() == self.deep_view().command_info(),
    {
        match self {
            ConfigWrapper::Exec(c) => Some(&c.command_info),
            ConfigWrapper::Container(c) => Some(&c.command_info),
            ConfigWrapper::ContainerBuild(_) => None,
            ConfigWrapper::ExecArtifact(_) => None,
        }
    }

    /// What the definition says of its inputs and outputs, if it defines an artifact.
    pub fn artifact_info(&self) -> (r: Option<&'a ConfigArtifactInfo>)
        ensures
            r.deep_view() == self.deep_view().artifact_info(),
    {
        match self {
            ConfigWrapper::Exec(_) => None,
            ConfigWrapper::Container(_) => None,
            ConfigWrapper::ContainerBuild(c) => Some(&c.artifact_info),
            ConfigWrapper::ExecArtifact(c) => Some(&c.artifact_info),
        }
    }

    /// The definition that this one extends, as written.
    pub fn extends(&self) -> (r: Option<String>)
        ensures
            r.deep_view() == self.deep_view().extends(),
    {
        clone_option_string(&self.target_info().extends)
    }

    /// The tag of the definition's shape.
    pub fn type_tag(&self) -> (t: &'static str)
        ensures
            t@ == self.deep_view().type_tag(),
    {
        match self {
            ConfigWrapper::Exec(c) => c.type_tag(),
            ConfigWrapper::Container(c) => c.type_tag(),
            ConfigWrapper::ContainerBuild(c) => c.type_tag(),
            ConfigWrapper::ExecArtifact(c) => c.type_tag(),
        }
    }

    /// Whether the definition defines an artifact.
    pub fn is_artifact(&self) -> (b: bool)
        ensures
            b == self.deep_view().is_artifact(),
    {
        match self {
            ConfigWrapper::Exec(c) => c.is_artifact(),
            ConfigWrapper::Container(c) => c.is_artifact(),
            ConfigWrapper::ContainerBuild(c) => c.is_artifact(),
            ConfigWrapper::ExecArtifact(c) => c.is_artifact(),
        }
    }

    /// The same definition, borrowed once more.
    pub fn share(&self) -> (r: ConfigWrapper<'a>)
        ensures
            r == *self,
    {
        match self {
            ConfigWrapper::Exec(c) => ConfigWrapper::Exec(*c),
            ConfigWrapper::Container(c) => ConfigWrapper::Container(*c),
            ConfigWrapper::ContainerBuild(c) => ConfigWrapper::ContainerBuild(*c),
            ConfigWrapper::ExecArtifact(c) => ConfigWrapper::ExecArtifact(*c),
        }
    }
}

/// The error for a record that breaks a rule.
pub open spec fn validation_failure(name: NameView, v: ValidationErrorView) -> ErrorView {
    ErrorView {
        kind: ErrorKind::Validation,
        message: "Error validating <"@ + name_text(name) + ">: "@ + v.message,
    }
}

/// The error for a record that breaks a rule.
pub fn validation_error(name: &FullyQualifiedName, v: &ValidationError) -> (e: Error)
    ensures
        e@ == validation_failure(name@, v@),
{
    let text = name.to_string();
    let mut message = concat3("Error validating <", text.as_str(), ">: ");
    message.append(v.message.as_str());
    Error::new(ErrorKind::Validation, message)
}

/// The record, if it breaks no rule.
pub open spec fn checked(name: NameView, record: TargetView, v: Option<ValidationErrorView>) -> Result<
    TargetView,
    ErrorView,
> {
    match v {
        Some(e) => Err(validation_failure(name, e)),
        None => Ok(record),
    }
}

/// What the record to build on carries as a target.
pub open spec fn base_target_info(base: Option<TargetView>) -> Option<TargetInfoView> {
    match base {
        Some(b) => Some(b.target_info()),
        None => None,
    }
}

/// The record to build on, as a command. A command builds on a command only.
pub open spec fn base_command(base: Option<TargetView>) -> Result<Option<CommandView>, ErrorView> {
    match base {
        None => Ok(None),
        Some(TargetView::Command(c)) => Ok(Some(c)),
        Some(TargetView::Artifact(_)) => Err(expected_command()),
    }
}

/// The record to build on, as an artifact. An artifact builds on an artifact only.
pub open spec fn base_artifact(base: Option<TargetView>) -> Result<Option<ArtifactView>, ErrorView> {
    match base {
        None => Ok(None),
        Some(TargetView::Artifact(a)) => Ok(Some(a)),
        Some(TargetView::Command(_)) => Err(expected_artifact()),
    }
}

/// What the target `name` carries: its definition, references written out
/// in full, laid on top of what the record it builds on carries.
pub open spec fn full_target_info(
    name: NameView,
    cfg: ConfigTargetInfoView,
    names: NameMapView,
    base: Option<TargetView>,
) -> Result<TargetInfoView, ErrorView> {
    match resolved_target_info(cfg, names) {
        Err(e) => Err(e),
        Ok(r) => target_info_of(name, r, names, base_target_info(base)),
    }
}

/// What the artifact `name` carries: its definition, references written
/// out in full, laid on top of what the artifact it builds on carries.
pub open spec fn full_artifact_info(
    name: NameView,
    cfg: ConfigArtifactInfoView,
    names: NameMapView,
    base: Option<ArtifactView>,
) -> Result<ArtifactInfoView, ErrorView> {
    match resolved_artifact_info(cfg, names) {
        Err(e) => Err(e),
        Ok(r) => artifact_info_of(
            name,
            r,
            names,
            match base {
                Some(b) => Some(b.artifact_info()),
                None => None,
            },
        ),
    }
}

/// The record of a command run on the host, laid on top of `base`.
pub open spec fn exec_command_record(
    name: NameView,
    c: ConfigExecCommandView,
    names: NameMapView,
    base: Option<TargetView>,
) -> Result<TargetView, ErrorView> {
    match full_target_info(name, c.target_info, names, base) {
        Err(e) => Err(e),
        Ok(target_info) => match base_command(base) {
            Err(e) => Err(e),
            Ok(bc) => match bc {
                Some(CommandView::Container(_)) => Err(expected_exec_command()),
                _ => match resolved_exec_command(c, names) {
                    Err(e) => Err(e),
                    Ok(rc) => {
                        let record = exec_command_of(
                            target_info,
                            command_info_of(
                                c.command_info,
                                match bc {
                                    Some(b) => Some(b.command_info()),
                                    None => None,
                                },
                            ),
                            rc,
                            match bc {
                                Some(CommandView::Exec(b)) => Some(b),
                                _ => None,
                            },
                        );
                        checked(
                            name,
                            TargetView::Command(CommandView::Exec(record)),
                            exec_command_violation(record),
                        )
                    },
                },
            },
        },
    }
}

/// The record of a command run in a container, laid on top of `base`.
pub open spec fn container_command_record(
    name: NameView,
    c: ConfigContainerCommandView,
    names: NameMapView,
    base: Option<TargetView>,
) -> Result<TargetView, ErrorView> {
    match full_target_info(name, c.target_info, names, base) {
        Err(e) => Err(e),
        Ok(target_info) => match base_command(base) {
            Err(e) => Err(e),
            Ok(bc) => match bc {
                Some(CommandView::Exec(_)) => Err(expected_container_command()),
                _ => match resolved_container_command(c, names) {
                    Err(e) => Err(e),
                    Ok(rc) => {
                        let record = container_command_of(
                            target_info,
                            command_info_of(
                                c.command_info,
                                match bc {
                                    Some(b) => Some(b.command_info()),
                                    None => None,
                                },
                            ),
                            rc,
                            match bc {
                                Some(CommandView::Container(b)) => Some(b),
                                _ => None,
                            },
                        );
                        checked(
                            name,
                            TargetView::Command(CommandView::Container(record)),
                            container_command_violation(record),
                        )
                    },
                },
            },
        },
    }
}

/// The record of a container image, laid on top of `base`.
pub open spec fn container_image_record(
    name: NameView,
    c: ConfigContainerBuildView,
    names: NameMapView,
    base: Option<TargetView>,
) -> Result<TargetView, ErrorView> {
    match full_target_info(name, c.target_info, names, base) {
        Err(e) => Err(e),
        Ok(target_info) => match base_artifact(base) {
            Err(e) => Err(e),
            Ok(ba) => match full_artifact_info(name, c.artifact_info, names, ba) {
                Err(e) => Err(e),
                Ok(artifact_info) => match ba {
                    Some(ArtifactView::Exec(_)) => Err(expected_container_image()),
                    _ => match resolved_container_build(c, names) {
                        Err(e) => Err(e),
                        Ok(rc) => {
                            let record = container_artifact_of(
                                target_info,
                                artifact_info,
                                rc,
                                match ba {
                                    Some(ArtifactView::ContainerImage(b)) => Some(b),
                                    _ => None,
                                },
                            );
                            checked(
                                name,
                                TargetView::Artifact(ArtifactView::ContainerImage(record)),
                                container_artifact_violation(record),
                            )
                        },
                    },
                },
            },
        },
    }
}

/// The record of files made by a command, laid on top of `base`.
pub open spec fn exec_artifact_record(
    name: NameView,
    c: ConfigExecArtifactView,
    names: NameMapView,
    base: Option<TargetView>,
) -> Result<TargetView, ErrorView> {
    match full_target_info(name, c.target_info, names, base) {
        Err(e) => Err(e),
        Ok(target_info) => match base_artifact(base) {
            Err(e) => Err(e),
            Ok(ba) => match full_artifact_info(name, c.artifact_info, names, ba) {
                Err(e) => Err(e),
                Ok(artifact_info) => match ba {
                    Some(ArtifactView::ContainerImage(_)) => Err(expected_exec_artifact()),
                    _ => match resolved_exec_artifact(c, names) {
                        Err(e) => Err(e),
                        Ok(rc) => {
                            let record = exec_artifact_of(
                                target_info,
                                artifact_info,
                                rc,
                                match ba {
                                    Some(ArtifactView::Exec(b)) => Some(b),
                                    _ => None,
                                },
                            );
                            checked(
                                name,
                                TargetView::Artifact(ArtifactView::Exec(record)),
                                exec_artifact_violation(record),
                            )
                        },
                    },
                },
            },
        },
    }
}

/// The record of the definition `cfg`, laid on top of `base`.
pub open spec fn record_of(
    name: NameView,
    cfg: ConfigWrapperView,
    names: NameMapView,
    base: Option<TargetView>,
) -> Result<TargetView, ErrorView> {
    match cfg {
        ConfigWrapperView::Exec(c) => exec_command_record(name, c, names, base),
        ConfigWrapperView::Container(c) => container_command_record(name, c, names, base),
        ConfigWrapperView::ContainerBuild(c) => container_image_record(name, c, names, base),
        ConfigWrapperView::ExecArtifact(c) => exec_artifact_record(name, c, names, base),
    }
}

/// The model of a result that holds a target.
pub open spec fn target_result(r: Result<Target, Error>) -> Result<TargetView, ErrorView> {
    match r {
        Ok(t) => Ok(t.deep_view()),
        Err(e) => Err(e@),
    }
}

/// What the target `name` carries: its definition laid on top of what `base` carries.
pub fn make_target_info(
    name: &FullyQualifiedName,
    cfg: &ConfigTargetInfo,
    name_map: &NameMap,
    base: Option<&Target>,
) -> (r: Result<TargetInfo, Error>)
    ensures
        match r {
            Ok(t) => full_target_info(name@, cfg.deep_view(), name_map.deep_view(), base.deep_view())
                == Ok::<TargetInfoView, ErrorView>(t.deep_view()),
            Err(e) => full_target_info(
                name@,
                cfg.deep_view(),
                name_map.deep_view(),
                base.deep_view(),
            ) == Err::<TargetInfoView, ErrorView>(e@),
        },
{
    let resolved = match cfg.with_resolved_targets(name_map) {
        Err(e) => {
            return Err(e);
        },
        Ok(r) => r,
    };
    let base_info: Option<&TargetInfo> = match base {
        Some(b) => Some(b.target_info()),
        None => None,
    };
    target_info_from_config(name.clone(), &resolved, name_map, base_info)
}

/// What the artifact `name` carries: its definition laid on top of what `base` carries.
pub fn make_artifact_info(
    name: &FullyQualifiedName,
    cfg: &ConfigArtifactInfo,
    name_map: &NameMap,
    base: Option<&Artifact>,
) -> (r: Result<ArtifactInfo, Error>)
    ensures
        match r {
            Ok(a) => full_artifact_info(
                name@,
                cfg.deep_view(),
                name_map.deep_view(),
                base.deep_view(),
            ) == Ok::<ArtifactInfoView, ErrorView>(a.deep_view()),
            Err(e) => full_artifact_info(
                name@,
                cfg.deep_view(),
                name_map.deep_view(),
                base.deep_view(),
            ) == Err::<ArtifactInfoView, ErrorView>(e@),
        },
{
    let resolved = match cfg.with_resolved_targets(name_map) {
        Err(e) => {
            return Err(e);
        },
        Ok(r) => r,
    };
    let base_info: Option<&ArtifactInfo> = match base {
        Some(b) => Some(b.artifact_info()),
        None => None,
    };
    artifact_info_from_config(name.clone(), &resolved, name_map, base_info)
}

/// The record to build on, as a command.
pub fn command_base<'a>(base: Option<&'a Target>) -> (r: Result<Option<&'a Command>, Error>)
    ensures
        match r {
            Ok(c) => base_command(base.deep_view()) == Ok::<Option<CommandView>, ErrorView>(
                c.deep_view(),
            ),
            Err(e) => base_command(base.deep_view()) == Err::<Option<CommandView>, ErrorView>(e@),
        },
{
    match base {
        None => Ok(None),
        Some(b) => match b.command() {
            Ok(c) => Ok(Some(c)),
            Err(e) => Err(e),
        },
    }
}

/// The record to build on, as an artifact.
pub fn artifact_base<'a>(base: Option<&'a Target>) -> (r: Result<Option<&'a Artifact>, Error>)
    ensures
        match r {
            Ok(a) => base_artifact(base.deep_view()) == Ok::<Option<ArtifactView>, ErrorView>(
                a.deep_view(),
            ),
            Err(e) => base_artifact(base.deep_view()) == Err::<Option<ArtifactView>, ErrorView>(
                e@,
            ),
        },
{
    match base {
        None => Ok(None),
        Some(b) => match b.artifact() {
            Ok(a) => Ok(Some(a)),
            Err(e) => Err(e),
        },
    }
}

/// The record of a command run on the host, laid on top of `base`.
pub fn make_exec_command(
    name: &FullyQualifiedName,
    c: &ConfigExecCommand,
    name_map: &NameMap,
    base: Option<&Target>,
) -> (r: Result<Target, Error>)
    ensures
        target_result(r) == exec_command_record(
            name@,
            c.deep_view(),
            name_map.deep_view(),
            base.deep_view(),
        ),
{
    let target_info = match make_target_info(name, &c.target_info, name_map, base) {
        Err(e) => {
            return Err(e);
        },
        Ok(t) => t,
    };
    let bc = match command_base(base) {
        Err(e) => {
            return Err(e);
        },
        Ok(b) => b,
    };
    let (base_info, base_exec): (Option<&CommandInfo>, Option<&ExecCommand>) = match bc {
        None => (None, None),
        Some(b) => match b.as_exec() {
            Err(e) => {
                return Err(e);
            },
            Ok(x) => (Some(b.command_info()), Some(x)),
        },
    };
    let resolved = match c.with_resolved_targets(name_map) {
        Err(e) => {
            return Err(e);
        },
        Ok(r) => r,
    };
    let command_info = command_info_from_config(name.clone(), &c.command_info, base_info);
    let record = ExecCommand::from_config(target_info, command_info, &resolved, base_exec);
    match record.validate() {
        Err(v) => Err(validation_error(name, &v)),
        Ok(_) => Ok(Target::Command(Command::Exec(record))),
    }
}

/// The record of a command run in a container, laid on top of `base`.
pub fn make_container_command(
    name: &FullyQualifiedName,
    c: &ConfigContainerCommand,
    name_map: &NameMap,
    base: Option<&Target>,
) -> (r: Result<Target, Error>)
    ensures
        target_result(r) == container_command_record(
            name@,
            c.deep_view(),
            name_map.deep_view(),
            base.deep_view(),
        ),
{
    let target_info = match make_target_info(name, &c.target_info, name_map, base) {
        Err(e) => {
            return Err(e);
        },
        Ok(t) => t,
    };
    let bc = match command_base(base) {
        Err(e) => {
            return Err(e);
        },
        Ok(b) => b,
    };
    let (base_info, base_container): (Option<&CommandInfo>, Option<&ContainerCommand>) = match bc {
        None => (None, None),
        Some(b) => match b.container() {
            Err(e) => {
                return Err(e);
            },
            Ok(x) => (Some(b.command_info()), Some(x)),
        },
    };
    let resolved = match c.with_resolved_targets(name_map) {
        Err(e) => {
            return Err(e);
        },
        Ok(r) => r,
    };
    let command_info = command_info_from_config(name.clone(), &c.command_info, base_info);
    let record = ContainerCommand::from_config(target_info, command_info, &resolved, base_container);
    match record.validate() {
        Err(v) => Err(validation_error(name, &v)),
        Ok(_) => Ok(Target::Command(Command::Container(record))),
    }
}

/// The record of a container image, laid on top of `base`.
pub fn make_container_image(
    name: &FullyQualifiedName,
    c: &ConfigContainerBuild,
    name_map: &NameMap,
    base: Option<&Target>,
) -> (r: Result<Target, Error>)
    ensures
        target_result(r) == container_image_record(
            name@,
            c.deep_view(),
            name_map.deep_view(),
            base.deep_view(),
        ),
{
    let target_info = match make_target_info(name, &c.target_info, name_map, base) {
        Err(e) => {
            return Err(e);
        },
        Ok(t) => t,
    };
    let ba = match artifact_base(base) {
        Err(e) => {
            return Err(e);
        },
        Ok(b) => b,
    };
    let artifact_info = match make_artifact_info(name, &c.artifact_info, name_map, ba) {
        Err(e) => {
            return Err(e);
        },
        Ok(a) => a,
    };
    let base_image: Option<&ContainerArtifact> = match ba {
        None => None,
        Some(b) => match b.container_image() {
            Err(e) => {
                return Err(e);
            },
            Ok(x) => Some(x),
        },
    };
    let resolved = match c.with_resolved_targets(name_map) {
        Err(e) => {
            return Err(e);
        },
        Ok(r) => r,
    };
    let record = ContainerArtifact::from_config(target_info, artifact_info, &resolved, base_image);
    match record.validate() {
        Err(v) => Err(validation_error(name, &v)),
        Ok(_) => Ok(Target::Artifact(Artifact::ContainerImage(record))),
    }
}

/// The record of files made by a command, laid on top of `base`.
pub fn make_exec_artifact(
    name: &FullyQualifiedName,
    c: &ConfigExecArtifact,
    name_map: &NameMap,
    base: Option<&Target>,
) -> (r: Result<Target, Error>)
    ensures
        target_result(r) == exec_artifact_record(
            name@,
            c.deep_view(),
            name_map.deep_view(),
            base.deep_view(),
        ),
{
    let target_info = match make_target_info(name, &c.target_info, name_map, base) {
        Err(e) => {
            return Err(e);
        },
        Ok(t) => t,
    };
    let ba = match artifact_base(base) {
        Err(e) => {
            return Err(e);
        },
        Ok(b) => b,
    };
    let artifact_info = match make_artifact_info(name, &c.artifact_info, name_map, ba) {
        Err(e) => {
            return Err(e);
        },
        Ok(a) => a,
    };
    let base_exec: Option<&ExecArtifact> = match ba {
        None => None,
        Some(b) => match b.as_exec() {
            Err(e) => {
                return Err(e);
            },
            Ok(x) => Some(x),
        },
    };
    let resolved = match c.with_resolved_targets(name_map) {
        Err(e) => {
            return Err(e);
        },
        Ok(r) => r,
    };
    let record = ExecArtifact::from_config(target_info, artifact_info, &resolved, base_exec);
    match record.validate() {
        Err(v) => Err(validation_error(name, &v)),
        Ok(_) => Ok(Target::Artifact(Artifact::Exec(record))),
    }
}

/// The error for a definition that extends one that does not exist.
pub open spec fn extends_non_existent(name: NameView, extends: NameView) -> ErrorView {
    ErrorView {
        kind: ErrorKind::ExtendsNonExistent,
        message: "<"@ + name_text(name) + "> extends non-existent <"@ + name_text(extends) + ">"@,
    }
}

/// The error for a definition whose chain of `extends` does not end.
pub open spec fn extends_cycle(name: NameView) -> ErrorView {
    ErrorView {
        kind: ErrorKind::ExtendsCycle,
        message: "<"@ + name_text(name) + "> extends itself, directly or through others"@,
    }
}

/// The record of the definition `cfg` of the target `name`, among the
/// definitions `commands`: `cfg` laid on top of the record of the definition
/// it extends, which is found the same way, down to a definition that extends
/// nothing. The chain may be `fuel` definitions long beyond `cfg`; a longer
/// one is a cycle when `fuel` is the number of definitions.
pub open spec fn materialized(
    name: NameView,
    cfg: ConfigWrapperView,
    commands: Seq<(NameView, ConfigWrapperView)>,
    names: NameMapView,
    fuel: nat,
) -> Result<TargetView, ErrorView>
    decreases fuel,
{
    match cfg.extends() {
        None => record_of(name, cfg, names, None),
        Some(written) => {
            let extended = lookup_name(written, cfg.type_tag());
            match lookup(commands, extended) {
                None => Err(extends_non_existent(name, extended)),
                Some(base_cfg) => if fuel == 0 {
                    Err(extends_cycle(name))
                } else {
                    match materialized(extended, base_cfg, commands, names, (fuel - 1) as nat) {
                        Err(e) => Err(e),
                        Ok(base) => record_of(name, cfg, names, Some(base)),
                    }
                },
            }
        },
    }
}

/// The record of the definition `cfg` laid on top of `base`.
pub fn make_record(
    name: &FullyQualifiedName,
    command: &ConfigWrapper,
    name_map: &NameMap,
    base: Option<&Target>,
) -> (r: Result<Target, Error>)
    ensures
        target_result(r) == record_of(
            name@,
            command.deep_view(),
            name_map.deep_view(),
            base.deep_view(),
        ),
{
    match command {
        ConfigWrapper::Exec(c) => make_exec_command(name, c, name_map, base),
        ConfigWrapper::Container(c) => make_container_command(name, c, name_map, base),
        ConfigWrapper::ContainerBuild(c) => make_container_image(name, c, name_map, base),
        ConfigWrapper::ExecArtifact(c) => make_exec_artifact(name, c, name_map, base),
    }
}

/// The record of `command`, following `extends` at most `fuel` definitions deep.
pub fn resolve_extends_bounded(
    name: FullyQualifiedName,
    command: &ConfigWrapper,
    commands: &Table<FullyQualifiedName, ConfigWrapper>,
    name_map: &NameMap,
    fuel: usize,
) -> (r: Result<Target, Error>)
    ensures
        target_result(r) == materialized(
            name@,
            command.deep_view(),
            commands.deep_view(),
            name_map.deep_view(),
            fuel as nat,
        ),
    decreases fuel,
{
    match command.extends() {
        None => make_record(&name, command, name_map, None),
        Some(written) => {
            let extended = get_lookup_name(written, String::from_str(command.type_tag()));
            match commands.get(&extended) {
                None => {
                    let own = name.to_string();
                    let other = extended.to_string();
                    let mut message = concat3("<", own.as_str(), "> extends non-existent <");
                    message.append(other.as_str());
                    message.append(">");
                    Err(Error::new(ErrorKind::ExtendsNonExistent, message))
                },
                Some(base_cfg) => {
                    if fuel == 0 {
                        let own = name.to_string();
                        Err(
                            Error::new(
                                ErrorKind::ExtendsCycle,
                                concat3(
                                    "<",
                                    own.as_str(),
                                    "> extends itself, directly or through others",
                                ),
                            ),
                        )
                    } else {
                        match resolve_extends_bounded(
                            extended,
                            base_cfg,
                            commands,
                            name_map,
                            fuel - 1,
                        ) {
                            Err(e) => Err(e),
                            Ok(base) => make_record(&name, command, name_map, Some(&base)),
                        }
                    }
                },
            }
        },
    }
}

/// The record of `command`: `command` laid on top of the record of the
/// definition it extends, and so on down the chain. A chain longer than the
/// number of definitions is a cycle.
pub fn resolve_extends(
    name: FullyQualifiedName,
    command: &ConfigWrapper,
    commands: &Table<FullyQualifiedName, ConfigWrapper>,
    name_map: &NameMap,
) -> (r: Result<Target, Error>)
    ensures
        target_result(r) == materialized(
            name@,
            command.deep_view(),
            commands.deep_view(),
            name_map.deep_view(),
            commands.deep_view().len(),
        ),
{
    resolve_extends_bounded(name, command, commands, name_map, commands.len())
}

} // verus!
