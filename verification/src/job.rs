//! What the caller has to carry out for a target.
//!
//! The library works out the command lines; the caller runs them. A job
//! names the commands to run first, the command itself with its
//! environment, what to put on the cleanup stack while the command runs,
//! what to note in the outputs once it has started, and under which key
//! the last line it prints is kept.
use vstd::prelude::*;
use crate::config::StringMapView;
use crate::context::store::Context;
use crate::error::{Error, ErrorView};
use crate::outputs::{OutputsManager, OutputsView};

verus! {

/// The model of a job.
pub struct JobView {
    pub pre_commands: Seq<Seq<char>>,
    pub command: Seq<char>,
    pub env: Seq<Seq<char>>,
    pub cleanups: Seq<(Seq<char>, Seq<char>)>,
    pub outputs: Seq<(Seq<char>, Seq<char>)>,
    pub capture: Option<Seq<char>>,
}

/// A job for the caller.
#[derive(Debug)]
pub struct Job {
    /// The commands to run, in order, before the command.
    pub pre_commands: Vec<String>,
    /// The command line.
    pub command: String,
    /// The environment of the command, each entry as it is declared.
    pub env: Vec<String>,
    /// The commands to put on the cleanup stack, each under its name.
    pub cleanups: Vec<(String, String)>,
    /// The outputs to store once the command has started: keys and values.
    pub outputs: Vec<(String, String)>,
    /// The key under which the last line the command prints is stored.
    pub capture: Option<String>,
}

impl DeepView for Job {
    type V = JobView;

    open spec fn deep_view(&self) -> JobView {
        JobView {
            pre_commands: self.pre_commands.deep_view(),
            command: self.command@,
            env: self.env.deep_view(),
            cleanups: self.cleanups.deep_view(),
            outputs: self.outputs.deep_view(),
            capture: self.capture.deep_view(),
        }
    }
}

/// The job that is one command with its environment and nothing around it.
pub open spec fn plain_job(command: Seq<char>, env: Seq<Seq<char>>) -> JobView {
    JobView {
        pre_commands: Seq::empty(),
        command,
        env,
        cleanups: Seq::empty(),
        outputs: Seq::empty(),
        capture: None,
    }
}

/// The model of a result that holds a job.
pub open spec fn job_result(r: Result<Job, Error>) -> Result<JobView, ErrorView> {
    match r {
        Ok(j) => Ok(j.deep_view()),
        Err(e) => Err(e@),
    }
}

/// What the texts of a target may refer to.
pub struct World {
    /// The variables of each target.
    pub variables: OutputsView,
    /// The globals.
    pub globals: StringMapView,
    /// The outputs of the targets that have run.
    pub outputs: OutputsView,
}

/// What the texts of a target may refer to, in `context` with `outputs`.
pub open spec fn world_of(context: &Context, outputs: &OutputsManager) -> World {
    World {
        variables: context.variables.deep_view(),
        globals: context.globals.deep_view(),
        outputs: outputs.deep_view(),
    }
}

/// The job that is one command with its environment and nothing around it.
pub fn make_plain_job(command: String, env: Vec<String>) -> (j: Job)
    ensures
        j.deep_view() == plain_job(command@, env.deep_view()),
{
    let j = Job {
        pre_commands: Vec::new(),
        command,
        env,
        cleanups: Vec::new(),
        outputs: Vec::new(),
        capture: None,
    };
    assert(j.pre_commands.deep_view() =~= Seq::<Seq<char>>::empty());
    assert(j.cleanups.deep_view() =~= Seq::<(Seq<char>, Seq<char>)>::empty());
    assert(j.outputs.deep_view() =~= Seq::<(Seq<char>, Seq<char>)>::empty());
    j
}

} // verus!
