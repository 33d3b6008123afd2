//! The command line, once it is parsed.
use vstd::prelude::*;
use crate::cmd::build_command::BuildCommand;
use crate::cmd::execute::{Execute, Work, WorkView};
use crate::cmd::list::ListCommand;
use crate::cmd::run::RunCommand;
use crate::cmd::start::StartCommand;
use crate::cmd::status::StatusCommand;
use crate::cmd::stop::StopCommand;
use crate::cmd::watch::WatchCommand;
use crate::context::store::Context;
use crate::error::{Error, ErrorView};

verus! {

/// The subcommands.
#[derive(Debug)]
pub enum Commands {
    /// Run the specified target.
    Run(RunCommand),
    /// Start a daemon.
    Start(StartCommand),
    /// Stop a daemon.
    Stop(StopCommand),
    /// Build an artifact.
    Build(BuildCommand),
    /// List the targets.
    List(ListCommand),
    /// Report the state of a daemon.
    Status(StatusCommand),
    /// Watch for changes and run targets again in response.
    Watch(WatchCommand),
}

/// The command line.
#[derive(Debug)]
pub struct Args {
    /// Print more.
    pub verbose: bool,
    /// Print what is being worked out.
    pub debug: bool,
    /// What to do.
    pub command: Option<Commands>,
    /// The directory to change to first.
    pub directory: Option<String>,
}

impl Execute for Commands {
    open spec fn executes(&self, context: &Context, r: Result<WorkView, ErrorView>) -> bool {
        match self {
            Commands::Run(c) => c.executes(context, r),
            Commands::Start(c) => c.executes(context, r),
            Commands::Stop(c) => c.executes(context, r),
            Commands::Build(c) => c.executes(context, r),
            Commands::List(c) => c.executes(context, r),
            Commands::Status(c) => c.executes(context, r),
            Commands::Watch(c) => c.executes(context, r),
        }
    }

    fn execute(&self, context: &Context) -> (r: Result<Work, Error>) {
        match self {
            Commands::Run(c) => c.execute(context),
            Commands::Start(c) => c.execute(context),
            Commands::Stop(c) => c.execute(context),
            Commands::Build(c) => c.execute(context),
            Commands::List(c) => c.execute(context),
            Commands::Status(c) => c.execute(context),
            Commands::Watch(c) => c.execute(context),
        }
    }
}

} // verus!
