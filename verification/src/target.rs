//! Targets after resolution: fully materialized records.
use vstd::prelude::*;
use crate::config::StringMapView;
use crate::context::store::Context;
use crate::error::{Error, ErrorKind, ErrorView};
use crate::job::{job_result, world_of, Job, JobView, World};
use crate::name::name_text;
use crate::outputs::OutputsManager;
use crate::targets::artifact::container_image::container_artifact_job;
use crate::targets::artifact::exec::exec_artifact_job;
use crate::targets::command::container::{is_container_run, is_container_start, mount_arguments};
use crate::targets::command::exec::exec_command_job;
use crate::text::{concat, concat3};
use crate::name::{clone_names, FullyQualifiedName, NameView};
use crate::table::{clone_string_map, StringMap};
use crate::targets::artifact::container_image::{ContainerArtifact, ContainerArtifactView};
use crate::targets::artifact::exec::{ExecArtifact, ExecArtifactView};
use crate::targets::command::container::{ContainerCommand, ContainerCommandView};
use crate::targets::command::exec::{ExecCommand, ExecCommandView};
use crate::text::{clone_option_string, clone_option_strings};

verus! {

/// The model of what every target carries.
pub struct TargetInfoView {
    pub name: NameView,
    pub requires: Seq<NameView>,
    pub variables: StringMapView,
    pub description: Option<Seq<char>>,
}

/// What every target carries: its name, the targets it requires, its
/// variables and its description.
#[derive(Debug)]
pub struct TargetInfo {
    pub name: FullyQualifiedName,
    pub requires: Vec<FullyQualifiedName>,
    pub variables: StringMap,
    pub description: Option<String>,
}

impl DeepView for TargetInfo {
    type V = TargetInfoView;

    open spec fn deep_view(&self) -> TargetInfoView {
        TargetInfoView {
            name: self.name@,
            requires: self.requires.deep_view(),
            variables: self.variables.deep_view(),
            description: self.description.deep_view(),
        }
    }
}

impl Clone for TargetInfo {
    fn clone(&self) -> (r: Self)
        ensures
            r.deep_view() == self.deep_view(),
    {
        TargetInfo {
            name: self.name.clone(),
            requires: clone_names(&self.requires),
            variables: clone_string_map(&self.variables),
            description: clone_option_string(&self.description),
        }
    }
}

/// What every command carries: whether it is meant to run as a daemon.
#[derive(Clone, Copy, Debug)]
pub struct CommandInfo {
    pub daemon: bool,
}

impl DeepView for CommandInfo {
    type V = CommandInfo;

    open spec fn deep_view(&self) -> CommandInfo {
        *self
    }
}

/// The model of what every artifact carries.
pub struct ArtifactInfoView {
    pub updates_paths: Option<Seq<Seq<char>>>,
    pub if_files_changed: Option<Seq<Seq<char>>>,
}

/// What every artifact carries: the paths it makes and the paths it is made from.
#[derive(Debug)]
pub struct ArtifactInfo {
    pub updates_paths: Option<Vec<String>>,
    pub if_files_changed: Option<Vec<String>>,
}

impl DeepView for ArtifactInfo {
    type V = ArtifactInfoView;

    open spec fn deep_view(&self) -> ArtifactInfoView {
        ArtifactInfoView {
            updates_paths: self.updates_paths.deep_view(),
            if_files_changed: self.if_files_changed.deep_view(),
        }
    }
}

impl Clone for ArtifactInfo {
    fn clone(&self) -> (r: Self)
        ensures
            r.deep_view() == self.deep_view(),
    {
        ArtifactInfo {
            updates_paths: clone_option_strings(&self.updates_paths),
            if_files_changed: clone_option_strings(&self.if_files_changed),
        }
    }
}

/// The model of an artifact.
pub enum ArtifactView {
    ContainerImage(ContainerArtifactView),
    Exec(ExecArtifactView),
}

/// A target that is built: a container image, or files made by a command.
#[derive(Debug)]
pub enum Artifact {
    ContainerImage(ContainerArtifact),
    Exec(ExecArtifact),
}

impl DeepView for Artifact {
    type V = ArtifactView;

    open spec fn deep_view(&self) -> ArtifactView {
        match self {
            Artifact::ContainerImage(a) => ArtifactView::ContainerImage(a.deep_view()),
            Artifact::Exec(a) => ArtifactView::Exec(a.deep_view()),
        }
    }
}

impl Clone for Artifact {
    fn clone(&self) -> (r: Self)
        ensures
            r.deep_view() == self.deep_view(),
    {
        match self {
            Artifact::ContainerImage(a) => Artifact::ContainerImage(a.clone()),
            Artifact::Exec(a) => Artifact::Exec(a.clone()),
        }
    }
}

/// The model of a command.
pub enum CommandView {
    Exec(ExecCommandView),
    Container(ContainerCommandView),
}

/// A target that is run: on the host, or in a container.
#[derive(Debug)]
pub enum Command {
    Exec(ExecCommand),
    Container(ContainerCommand),
}

impl DeepView for Command {
    type V = CommandView;

    open spec fn deep_view(&self) -> CommandView {
        match self {
            Command::Exec(c) => CommandView::Exec(c.deep_view()),
            Command::Container(c) => CommandView::Container(c.deep_view()),
        }
    }
}

impl Clone for Command {
    fn clone(&self) -> (r: Self)
        ensures
            r.deep_view() == self.deep_view(),
    {
        match self {
            Command::Exec(c) => Command::Exec(c.clone()),
            Command::Container(c) => Command::Container(c.clone()),
        }
    }
}

/// The model of a target.
pub enum TargetView {
    Artifact(ArtifactView),
    Command(CommandView),
}

/// A target: an artifact or a command.
#[derive(Debug)]
pub enum Target {
    Artifact(Artifact),
    Command(Command),
}

impl DeepView for Target {
    type V = TargetView;

    open spec fn deep_view(&self) -> TargetView {
        match self {
            Target::Artifact(a) => TargetView::Artifact(a.deep_view()),
            Target::Command(c) => TargetView::Command(c.deep_view()),
        }
    }
}

impl Clone for Target {
    fn clone(&self) -> (r: Self)
        ensures
            r.deep_view() == self.deep_view(),
    {
        match self {
            Target::Artifact(a) => Target::Artifact(a.clone()),
            Target::Command(c) => Target::Command(c.clone()),
        }
    }
}

impl ArtifactView {
    /// What the artifact carries as a target.
    pub open spec fn target_info(self) -> TargetInfoView {
        match self {
            ArtifactView::ContainerImage(a) => a.target_info,
            ArtifactView::Exec(a) => a.target_info,
        }
    }

    /// What the artifact carries as an artifact.
    pub open spec fn artifact_info(self) -> ArtifactInfoView {
        match self {
            ArtifactView::ContainerImage(a) => a.artifact_info,
            ArtifactView::Exec(a) => a.artifact_info,
        }
    }
}

impl CommandView {
    /// What the command carries as a target.
    pub open spec fn target_info(self) -> TargetInfoView {
        match self {
            CommandView::Exec(c) => c.target_info,
            CommandView::Container(c) => c.target_info,
        }
    }

    /// What the command carries as a command.
    pub open spec fn command_info(self) -> CommandInfo {
        match self {
            CommandView::Exec(c) => c.command_info,
            CommandView::Container(c) => c.command_info,
        }
    }
}

impl TargetView {
    /// What the target carries as a target.
    pub open spec fn target_info(self) -> TargetInfoView {
        match self {
            TargetView::Artifact(a) => a.target_info(),
            TargetView::Command(c) => c.target_info(),
        }
    }

    /// Whether the target is a command meant to run as a daemon.
    pub open spec fn is_daemon(self) -> bool {
        match self {
            TargetView::Artifact(_) => false,
            TargetView::Command(c) => c.command_info().daemon,
        }
    }
}

/// The error for a target that should have been an artifact.
pub open spec fn expected_artifact() -> ErrorView {
    ErrorView { kind: ErrorKind::WrongKind, message: "Expected an artifact"@ }
}

/// The error for a target that should have been a command.
pub open spec fn expected_command() -> ErrorView {
    ErrorView { kind: ErrorKind::WrongKind, message: "Expected a command"@ }
}

/// The error for a command that should have run on the host.
pub open spec fn expected_exec_command() -> ErrorView {
    ErrorView { kind: ErrorKind::WrongKind, message: "Expected an exec command"@ }
}

/// The error for a command that should have run in a container.
pub open spec fn expected_container_command() -> ErrorView {
    ErrorView { kind: ErrorKind::WrongKind, message: "Expected a container command"@ }
}

/// The error for an artifact that should have been a container image.
pub open spec fn expected_container_image() -> ErrorView {
    ErrorView { kind: ErrorKind::WrongKind, message: "Expected a container image"@ }
}

/// The error for an artifact that should have been made by a command.
pub open spec fn expected_exec_artifact() -> ErrorView {
    ErrorView { kind: ErrorKind::WrongKind, message: "Expected an exec artifact"@ }
}

impl Target {
    /// What the target carries as a target.
    pub fn target_info(&self) -> (r: &TargetInfo)
        ensures
            r.deep_view() == self.deep_view().target_info(),
    {
        match self {
            Target::Artifact(a) => a.target_info(),
            Target::Command(c) => c.target_info(),
        }
    }

    /// What the target carries as a command, if it is one.
    pub fn command_info(&self) -> (r: Option<&CommandInfo>)
        ensures
            match self.deep_view() {
                TargetView::Command(c) => r == Some(&c.command_info()),
                TargetView::Artifact(_) => r is None,
            },
    {
        match self {
            Target::Command(c) => Some(c.command_info()),
            Target::Artifact(_) => None,
        }
    }

    /// The target as an artifact. A command is refused.
    pub fn artifact(&self) -> (r: Result<&Artifact, Error>)
        ensures
            match r {
                Ok(a) => *self == Target::Artifact(*a),
                Err(e) => self is Command && e@ == expected_artifact(),
            },
    {
        match self {
            Target::Artifact(a) => Ok(a),
            Target::Command(_) => Err(
                Error::new(ErrorKind::WrongKind, String::from_str("Expected an artifact")),
            ),
        }
    }

    /// The target as a command. An artifact is refused.
    pub fn command(&self) -> (r: Result<&Command, Error>)
        ensures
            match r {
                Ok(c) => *self == Target::Command(*c),
                Err(e) => self is Artifact && e@ == expected_command(),
            },
    {
        match self {
            Target::Command(c) => Ok(c),
            Target::Artifact(_) => Err(
                Error::new(ErrorKind::WrongKind, String::from_str("Expected a command")),
            ),
        }
    }

    /// Whether the target is a command meant to run as a daemon.
    pub fn is_daemon(&self) -> (b: bool)
        ensures
            b == self.deep_view().is_daemon(),
    {
        match self {
            Target::Command(c) => c.command_info().daemon,
            Target::Artifact(_) => false,
        }
    }
}

impl Artifact {
    /// What the artifact carries as a target.
    pub fn target_info(&self) -> (r: &TargetInfo)
        ensures
            r.deep_view() == self.deep_view().target_info(),
    {
        match self {
            Artifact::ContainerImage(a) => &a.target_info,
            Artifact::Exec(a) => &a.target_info,
        }
    }

    /// What the artifact carries as an artifact.
    pub fn artifact_info(&self) -> (r: &ArtifactInfo)
        ensures
            r.deep_view() == self.deep_view().artifact_info(),
    {
        match self {
            Artifact::ContainerImage(a) => &a.artifact_info,
            Artifact::Exec(a) => &a.artifact_info,
        }
    }

    /// The artifact as a container image. Any other artifact is refused.
    pub fn container_image(&self) -> (r: Result<&ContainerArtifact, Error>)
        ensures
            match r {
                Ok(a) => *self == Artifact::ContainerImage(*a),
                Err(e) => !(self is ContainerImage) && e@ == expected_container_image(),
            },
    {
        match self {
            Artifact::ContainerImage(a) => Ok(a),
            _ => Err(
                Error::new(ErrorKind::WrongKind, String::from_str("Expected a container image")),
            ),
        }
    }

    /// The artifact as files made by a command. Any other artifact is refused.
    pub fn as_exec(&self) -> (r: Result<&ExecArtifact, Error>)
        ensures
            match r {
                Ok(a) => *self == Artifact::Exec(*a),
                Err(e) => !(self is Exec) && e@ == expected_exec_artifact(),
            },
    {
        match self {
            Artifact::Exec(a) => Ok(a),
            _ => Err(
                Error::new(ErrorKind::WrongKind, String::from_str("Expected an exec artifact")),
            ),
        }
    }
}

impl Command {
    /// What the command carries as a target.
    pub fn target_info(&self) -> (r: &TargetInfo)
        ensures
            r.deep_view() == self.deep_view().target_info(),
    {
        match self {
            Command::Exec(c) => &c.target_info,
            Command::Container(c) => &c.target_info,
        }
    }

    /// What the command carries as a command.
    pub fn command_info(&self) -> (r: &CommandInfo)
        ensures
            *r == self.deep_view().command_info(),
    {
        match self {
            Command::Exec(c) => &c.command_info,
            Command::Container(c) => &c.command_info,
        }
    }

    /// The command as one run on the host. Any other command is refused.
    pub fn as_exec(&self) -> (r: Result<&ExecCommand, Error>)
        ensures
            match r {
                Ok(c) => *self == Command::Exec(*c),
                Err(e) => !(self is Exec) && e@ == expected_exec_command(),
            },
    {
        match self {
            Command::Exec(c) => Ok(c),
            _ => Err(
                Error::new(ErrorKind::WrongKind, String::from_str("Expected an exec command")),
            ),
        }
    }

    /// The command as one run in a container. Any other command is refused.
    pub fn container(&self) -> (r: Result<&ContainerCommand, Error>)
        ensures
            match r {
                Ok(c) => *self == Command::Container(*c),
                Err(e) => !(self is Container) && e@ == expected_container_command(),
            },
    {
        match self {
            Command::Container(c) => Ok(c),
            _ => Err(
                Error::new(ErrorKind::WrongKind, String::from_str("Expected a container command")),
            ),
        }
    }
}

/// The directory, under the directory of the configuration, that holds what is kept of a target.
pub open spec fn metadata_dir(name: Seq<char>) -> Seq<char> {
    ".taskrunner/"@ + name
}

/// The file whose time marks the last successful run of the target.
pub open spec fn sentinel_file(name: NameView) -> Seq<char> {
    metadata_dir(name_text(name)) + "/last_run"@
}

/// The file that holds the process id of the target's daemon.
pub open spec fn pid_file(name: NameView) -> Seq<char> {
    metadata_dir(name_text(name)) + "/pid"@
}

/// The file that the output of the target's daemon goes to.
pub open spec fn log_file(name: NameView) -> Seq<char> {
    metadata_dir(name_text(name)) + "/log"@
}

/// The directory that holds what is kept of the target `name`.
pub fn metadata_path(name: &str) -> (s: String)
    ensures
        s@ == metadata_dir(name@),
{
    concat(".taskrunner/", name)
}

/// The file whose time marks the last successful run of the target.
pub fn last_run_path(target: &TargetInfo) -> (s: String)
    ensures
        s@ == sentinel_file(target.deep_view().name),
{
    let text = target.name.to_string();
    concat3(".taskrunner/", text.as_str(), "/last_run")
}

/// The file that holds the process id of the target's daemon.
pub fn pid_path(target: &TargetInfo) -> (s: String)
    ensures
        s@ == pid_file(target.deep_view().name),
{
    let text = target.name.to_string();
    concat3(".taskrunner/", text.as_str(), "/pid")
}

/// The file that the output of the target's daemon goes to.
pub fn log_path(target: &TargetInfo) -> (s: String)
    ensures
        s@ == log_file(target.deep_view().name),
{
    let text = target.name.to_string();
    concat3(".taskrunner/", text.as_str(), "/log")
}

/// The error for an artifact that was given arguments.
pub open spec fn artifact_arguments() -> ErrorView {
    ErrorView { kind: ErrorKind::ArtifactArguments, message: "Artifacts do not accept arguments"@ }
}

/// What can be run in the foreground.
pub trait Runnable {
    /// Whether `r` is a job of running this with the arguments `args`.
    spec fn runs(&self, world: World, args: Seq<Seq<char>>, r: Result<JobView, ErrorView>) -> bool;

    /// The job of running this with the arguments `args`.
    fn run(&self, context: &Context, outputs: &OutputsManager, args: Vec<String>) -> (r: Result<
        Job,
        Error,
    >)
        ensures
            self.runs(world_of(context, outputs), args.deep_view(), job_result(r)),
    ;
}

/// What can be started in the background and stopped again.
pub trait Startable {
    /// Whether `r` is a job of starting this with the arguments `args`.
    spec fn starts(&self, world: World, args: Seq<Seq<char>>, r: Result<JobView, ErrorView>) -> bool;

    /// The file that holds the process id of the daemon.
    spec fn daemon_pid_file(&self) -> Seq<char>;

    /// The job of starting this with the arguments `args`.
    fn start(&self, context: &Context, outputs: &OutputsManager, args: Vec<String>) -> (r: Result<
        Job,
        Error,
    >)
        ensures
            self.starts(world_of(context, outputs), args.deep_view(), job_result(r)),
    ;

    /// The pid file of the daemon to stop.
    fn stop(&self) -> (path: String)
        ensures
            path@ == self.daemon_pid_file(),
    ;
}

/// What can be built.
pub trait Buildable {
    /// Whether `r` is a job of building this.
    spec fn builds(&self, world: World, r: Result<JobView, ErrorView>) -> bool;

    /// The job of building this.
    fn build(&self, context: &Context, outputs: &OutputsManager) -> (r: Result<Job, Error>)
        ensures
            self.builds(world_of(context, outputs), job_result(r)),
    ;
}

/// What a target can do.
pub trait Targetable {
    /// Whether this can be run.
    spec fn can_run(&self) -> bool;

    /// Whether this can be started.
    spec fn can_start(&self) -> bool;

    /// Whether this can be built.
    spec fn can_build(&self) -> bool;

    /// Whether this can be run.
    fn is_runnable(&self) -> (b: bool)
        ensures
            b == self.can_run(),
    ;

    /// Whether this can be started.
    fn is_startable(&self) -> (b: bool)
        ensures
            b == self.can_start(),
    ;

    /// Whether this can be built.
    fn is_buildable(&self) -> (b: bool)
        ensures
            b == self.can_build(),
    ;
}

impl Runnable for ExecCommand {
    open spec fn runs(&self, world: World, args: Seq<Seq<char>>, r: Result<JobView, ErrorView>) -> bool {
        r == exec_command_job(self.deep_view(), world, args)
    }

    fn run(&self, context: &Context, outputs: &OutputsManager, args: Vec<String>) -> (r: Result<
        Job,
        Error,
    >) {
        self.job(context, outputs, args)
    }
}

impl Startable for ExecCommand {
    open spec fn starts(&self, world: World, args: Seq<Seq<char>>, r: Result<JobView, ErrorView>) -> bool {
        r == exec_command_job(self.deep_view(), world, args)
    }

    open spec fn daemon_pid_file(&self) -> Seq<char> {
        pid_file(self.deep_view().target_info.name)
    }

    fn start(&self, context: &Context, outputs: &OutputsManager, args: Vec<String>) -> (r: Result<
        Job,
        Error,
    >) {
        self.job(context, outputs, args)
    }

    fn stop(&self) -> (path: String) {
        pid_path(&self.target_info)
    }
}

impl Runnable for ContainerCommand {
    open spec fn runs(&self, world: World, args: Seq<Seq<char>>, r: Result<JobView, ErrorView>) -> bool {
        is_container_run(self.deep_view(), world, args, r)
    }

    fn run(&self, context: &Context, outputs: &OutputsManager, args: Vec<String>) -> (r: Result<
        Job,
        Error,
    >) {
        let name = self.fresh_name();
        let mounts = mount_arguments(&self.mount);
        self.run_job(context, outputs, name.as_str(), args, mounts)
    }
}

impl Startable for ContainerCommand {
    open spec fn starts(&self, world: World, args: Seq<Seq<char>>, r: Result<JobView, ErrorView>) -> bool {
        is_container_start(self.deep_view(), world, args, r)
    }

    open spec fn daemon_pid_file(&self) -> Seq<char> {
        pid_file(self.deep_view().target_info.name)
    }

    fn start(&self, context: &Context, outputs: &OutputsManager, args: Vec<String>) -> (r: Result<
        Job,
        Error,
    >) {
        let name = self.fresh_name();
        let mounts = mount_arguments(&self.mount);
        self.start_job(context, outputs, name.as_str(), args, mounts)
    }

    fn stop(&self) -> (path: String) {
        pid_path(&self.target_info)
    }
}

impl Buildable for ContainerArtifact {
    open spec fn builds(&self, world: World, r: Result<JobView, ErrorView>) -> bool {
        r == container_artifact_job(self.deep_view(), world)
    }

    fn build(&self, context: &Context, outputs: &OutputsManager) -> (r: Result<Job, Error>) {
        self.job(context, outputs)
    }
}

impl Buildable for ExecArtifact {
    open spec fn builds(&self, world: World, r: Result<JobView, ErrorView>) -> bool {
        r == exec_artifact_job(self.deep_view(), world)
    }

    fn build(&self, context: &Context, outputs: &OutputsManager) -> (r: Result<Job, Error>) {
        self.job(context, outputs)
    }
}

impl Runnable for Command {
    open spec fn runs(&self, world: World, args: Seq<Seq<char>>, r: Result<JobView, ErrorView>) -> bool {
        match self {
            Command::Exec(c) => c.runs(world, args, r),
            Command::Container(c) => c.runs(world, args, r),
        }
    }

    fn run(&self, context: &Context, outputs: &OutputsManager, args: Vec<String>) -> (r: Result<
        Job,
        Error,
    >) {
        match self {
            Command::Exec(c) => c.run(context, outputs, args),
            Command::Container(c) => c.run(context, outputs, args),
        }
    }
}

impl Startable for Command {
    open spec fn starts(&self, world: World, args: Seq<Seq<char>>, r: Result<JobView, ErrorView>) -> bool {
        match self {
            Command::Exec(c) => c.starts(world, args, r),
            Command::Container(c) => c.starts(world, args, r),
        }
    }

    open spec fn daemon_pid_file(&self) -> Seq<char> {
        pid_file(self.deep_view().target_info().name)
    }

    fn start(&self, context: &Context, outputs: &OutputsManager, args: Vec<String>) -> (r: Result<
        Job,
        Error,
    >) {
        match self {
            Command::Exec(c) => c.start(context, outputs, args),
            Command::Container(c) => c.start(context, outputs, args),
        }
    }

    fn stop(&self) -> (path: String) {
        pid_path(self.target_info())
    }
}

impl Buildable for Artifact {
    open spec fn builds(&self, world: World, r: Result<JobView, ErrorView>) -> bool {
        match self {
            Artifact::ContainerImage(a) => a.builds(world, r),
            Artifact::Exec(a) => a.builds(world, r),
        }
    }

    fn build(&self, context: &Context, outputs: &OutputsManager) -> (r: Result<Job, Error>) {
        match self {
            Artifact::ContainerImage(a) => a.build(context, outputs),
            Artifact::Exec(a) => a.build(context, outputs),
        }
    }
}

impl Runnable for Artifact {
    open spec fn runs(&self, world: World, args: Seq<Seq<char>>, r: Result<JobView, ErrorView>) -> bool {
        if args.len() > 0 {
            r == Err::<JobView, ErrorView>(artifact_arguments())
        } else {
            self.builds(world, r)
        }
    }

    fn run(&self, context: &Context, outputs: &OutputsManager, args: Vec<String>) -> (r: Result<
        Job,
        Error,
    >) {
        if args.len() > 0 {
            return Err(
                Error::new(
                    ErrorKind::ArtifactArguments,
                    String::from_str("Artifacts do not accept arguments"),
                ),
            );
        }
        self.build(context, outputs)
    }
}

impl Runnable for Target {
    open spec fn runs(&self, world: World, args: Seq<Seq<char>>, r: Result<JobView, ErrorView>) -> bool {
        match self {
            Target::Command(c) => c.runs(world, args, r),
            Target::Artifact(a) => a.runs(world, args, r),
        }
    }

    fn run(&self, context: &Context, outputs: &OutputsManager, args: Vec<String>) -> (r: Result<
        Job,
        Error,
    >) {
        match self {
            Target::Command(c) => c.run(context, outputs, args),
            Target::Artifact(a) => a.run(context, outputs, args),
        }
    }
}

impl Targetable for Command {
    open spec fn can_run(&self) -> bool {
        true
    }

    open spec fn can_start(&self) -> bool {
        true
    }

    open spec fn can_build(&self) -> bool {
        false
    }

    fn is_runnable(&self) -> (b: bool) {
        true
    }

    fn is_startable(&self) -> (b: bool) {
        true
    }

    fn is_buildable(&self) -> (b: bool) {
        false
    }
}

impl Targetable for Artifact {
    open spec fn can_run(&self) -> bool {
        true
    }

    open spec fn can_start(&self) -> bool {
        false
    }

    open spec fn can_build(&self) -> bool {
        true
    }

    fn is_runnable(&self) -> (b: bool) {
        true
    }

    fn is_startable(&self) -> (b: bool) {
        false
    }

    fn is_buildable(&self) -> (b: bool) {
        true
    }
}

impl Targetable for Target {
    open spec fn can_run(&self) -> bool {
        true
    }

    open spec fn can_start(&self) -> bool {
        self is Command
    }

    open spec fn can_build(&self) -> bool {
        self is Artifact
    }

    fn is_runnable(&self) -> (b: bool) {
        true
    }

    fn is_startable(&self) -> (b: bool) {
        match self {
            Target::Command(_) => true,
            Target::Artifact(_) => false,
        }
    }

    fn is_buildable(&self) -> (b: bool) {
        match self {
            Target::Command(_) => false,
            Target::Artifact(_) => true,
        }
    }
}

impl Target {
    /// The target as something to run: every target can be run.
    pub fn as_runnable(&self) -> (r: Option<&Target>)
        ensures
            r == Some(self),
    {
        Some(self)
    }

    /// The target as something to start: a command can be started.
    pub fn as_startable(&self) -> (r: Option<&Command>)
        ensures
            match r {
                Some(c) => *self == Target::Command(*c),
                None => self is Artifact,
            },
    {
        match self {
            Target::Command(c) => Some(c),
            Target::Artifact(_) => None,
        }
    }

    /// The target as something to build: an artifact can be built.
    pub fn as_buildable(&self) -> (r: Option<&Artifact>)
        ensures
            match r {
                Some(a) => *self == Target::Artifact(*a),
                None => self is Command,
            },
    {
        match self {
            Target::Artifact(a) => Some(a),
            Target::Command(_) => None,
        }
    }
}

} // verus!
