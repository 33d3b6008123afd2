//! Commands run on the host.
use vstd::prelude::*;
use crate::config::ExecCommand as ConfigExecCommand;
use crate::config::ExecCommandView as ConfigExecCommandView;
use crate::context::store::Context;
use crate::context::substitution::substituted;
use crate::default::{default_optional, default_to, preferred, preferred_optional};
use crate::error::{text_result, Error, ErrorView};
use crate::job::{job_result, make_plain_job, plain_job, world_of, Job, JobView, World};
use crate::outputs::OutputsManager;
use crate::shell::{resolve_all, substituted_list};
use crate::target::{CommandInfo, TargetInfo, TargetInfoView};
use crate::text::{clone_option_string, clone_strings, concat_strings};
use crate::validate::{
    field_violation, first_violation, list_violation, non_empty_field, non_empty_strings,
    ValidationError, ValidationErrorView, violation_of,
};

verus! {

/// The model of a command run on the host.
pub struct ExecCommandView {
    pub command: Seq<char>,
    pub default_args: Option<Seq<char>>,
    pub env: Seq<Seq<char>>,
    pub target_info: TargetInfoView,
    pub command_info: CommandInfo,
}

/// A command run on the host: the command line, the arguments it gets when
/// the user gives none, and the environment it runs in.
#[derive(Debug)]
pub struct ExecCommand {
    pub command: String,
    pub default_args: Option<String>,
    pub env: Vec<String>,
    pub target_info: TargetInfo,
    pub command_info: CommandInfo,
}

impl DeepView for ExecCommand {
    type V = ExecCommandView;

    open spec fn deep_view(&self) -> ExecCommandView {
        ExecCommandView {
            command: self.command@,
            default_args: self.default_args.deep_view(),
            env: self.env.deep_view(),
            target_info: self.target_info.deep_view(),
            command_info: self.command_info,
        }
    }
}

impl Clone for ExecCommand {
    fn clone(&self) -> (r: Self)
        ensures
            r.deep_view() == self.deep_view(),
    {
        ExecCommand {
            command: self.command.clone(),
            default_args: clone_option_string(&self.default_args),
            env: clone_strings(&self.env),
            target_info: self.target_info.clone(),
            command_info: self.command_info,
        }
    }
}

/// The texts of a list that may be absent.
pub open spec fn or_empty(items: Option<Seq<Seq<char>>>) -> Seq<Seq<char>> {
    match items {
        Some(l) => l,
        None => Seq::empty(),
    }
}

/// The command that `defn` defines on top of `base`: its own command line
/// and default arguments where it has them, the base's where it has not, and
/// the base's environment followed by its own.
pub open spec fn exec_command_of(
    target_info: TargetInfoView,
    command_info: CommandInfo,
    defn: ConfigExecCommandView,
    base: Option<ExecCommandView>,
) -> ExecCommandView {
    ExecCommandView {
        command: preferred(
            defn.command,
            match base {
                Some(b) => Some(b.command),
                None => None,
            },
            Seq::empty(),
        ),
        default_args: preferred_optional(
            defn.default_args,
            match base {
                Some(b) => Some(b.default_args),
                None => None,
            },
        ),
        env: match base {
            Some(b) => b.env,
            None => Seq::empty(),
        } + or_empty(defn.env),
        target_info,
        command_info,
    }
}

/// The rule that a command run on the host breaks, if any: its command line
/// must have content, and so must each entry of its environment.
pub open spec fn exec_command_violation(c: ExecCommandView) -> Option<ValidationErrorView> {
    first_violation(field_violation(c.command, "Command must not be empty"@), list_violation(c.env))
}

/// `base` followed by `own`, where each may be absent.
pub fn inherited_list(base: Option<&Vec<String>>, own: &Option<Vec<String>>) -> (r: Vec<String>)
    ensures
        r.deep_view() == match base {
            Some(b) => b.deep_view(),
            None => Seq::empty(),
        } + or_empty(own.deep_view()),
{
    let empty: Vec<String> = Vec::new();
    assert(empty.deep_view() =~= Seq::<Seq<char>>::empty());
    let first = match base {
        Some(b) => b,
        None => &empty,
    };
    match own {
        Some(o) => concat_strings(first, o),
        None => concat_strings(first, &empty),
    }
}

impl ExecCommand {
    /// The command that `defn` defines on top of `base`.
    pub fn from_config(
        target_info: TargetInfo,
        command_info: CommandInfo,
        defn: &ConfigExecCommand,
        base: Option<&Self>,
    ) -> (r: Self)
        ensures
            r.deep_view() == exec_command_of(
                target_info.deep_view(),
                command_info,
                defn.deep_view(),
                base.deep_view(),
            ),
    {
        let (base_command, base_args, base_env) = match base {
            Some(b) => (
                Some(b.command.clone()),
                Some(clone_option_string(&b.default_args)),
                Some(&b.env),
            ),
            None => (None, None, None),
        };
        ExecCommand {
            command: default_to(clone_option_string(&defn.command), base_command),
            default_args: default_optional(clone_option_string(&defn.default_args), base_args),
            env: inherited_list(base_env, &defn.env),
            target_info,
            command_info,
        }
    }

    /// Checks the rules on the record.
    pub fn validate(&self) -> (r: Result<(), ValidationError>)
        ensures
            violation_of(r) == exec_command_violation(self.deep_view()),
    {
        match non_empty_field(&self.command, "Command must not be empty") {
            Err(e) => Err(e),
            Ok(_) => non_empty_strings(&self.env),
        }
    }
}

/// The command line of the command for an invocation with the arguments `args`.
pub open spec fn exec_command_line(c: ExecCommandView, world: World, args: Seq<Seq<char>>) -> Result<
    Seq<char>,
    ErrorView,
> {
    substituted(
        c.command,
        world.variables,
        world.globals,
        world.outputs,
        c.target_info.name,
        Some(args),
        c.default_args,
    )
}

/// The job of running the command with the arguments `args`: its command
/// line, and its environment with every entry expanded.
pub open spec fn exec_command_job(c: ExecCommandView, world: World, args: Seq<Seq<char>>) -> Result<
    JobView,
    ErrorView,
> {
    match exec_command_line(c, world, args) {
        Err(e) => Err(e),
        Ok(command) => match substituted_list(
            c.env,
            world.variables,
            world.globals,
            world.outputs,
            c.target_info.name,
        ) {
            Err(e) => Err(e),
            Ok(env) => Ok(plain_job(command, env)),
        },
    }
}

impl ExecCommand {
    /// The command line for an invocation with the arguments `args`.
    pub fn resolve_command(&self, context: &Context, outputs: &OutputsManager, args: Vec<String>) -> (r:
        Result<String, Error>)
        ensures
            text_result(r) == exec_command_line(
                self.deep_view(),
                world_of(context, outputs),
                args.deep_view(),
            ),
    {
        context.resolve_substitutions_with_args(
            self.command.as_str(),
            &self.target_info.name,
            outputs,
            args,
            &self.default_args,
        )
    }

    /// The job of running the command with the arguments `args`.
    pub fn job(&self, context: &Context, outputs: &OutputsManager, args: Vec<String>) -> (r: Result<
        Job,
        Error,
    >)
        ensures
            job_result(r) == exec_command_job(
                self.deep_view(),
                world_of(context, outputs),
                args.deep_view(),
            ),
    {
        let command = match self.resolve_command(context, outputs, args) {
            Err(e) => {
                return Err(e);
            },
            Ok(c) => c,
        };
        match resolve_all(&self.target_info.name, context, outputs, &self.env) {
            Err(e) => Err(e),
            Ok(env) => Ok(make_plain_job(command, env)),
        }
    }
}

} // verus!
