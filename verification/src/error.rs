//! The error type of the library.
//!
//! An error is a kind, which callers branch on, and the message shown to the
//! user. Contracts state both: on which inputs a kind arises and what the
//! message says.
use vstd::prelude::*;
use crate::text::concat3;

verus! {

/// What went wrong.
#[derive(Clone, Copy, Debug, PartialEq, Eq, Structural)]
pub enum ErrorKind {
    /// A short name stands for more than one target.
    AmbiguousReference,
    /// A name stands for no target.
    NonExistentReference,
    /// A target extends a target that does not exist.
    ExtendsNonExistent,
    /// A chain of `extends` never reaches a target that extends nothing.
    ExtendsCycle,
    /// A chain of `requires` leads back into itself.
    RequiresCycle,
    /// A target extends a target of another shape.
    WrongKind,
    /// A materialized record breaks a rule on its fields.
    Validation,
    /// A placeholder names a variable that has no value.
    VariableNotFound,
    /// A text cannot be quoted for the shell.
    Quote,
    /// A target lists itself among its requirements.
    RequiresItself,
    /// A target that was asked for, or that another requires, does not exist.
    TargetNotFound,
    /// A target name given by the user stands for more than one target.
    AmbiguousTarget,
    /// The target cannot do what was asked of it.
    Capability,
    /// An artifact was given arguments.
    ArtifactArguments,
    /// A command line holds no word.
    EmptyCommand,
    /// A watch pattern is not a valid glob.
    Pattern,
    /// A pid file does not hold a process id.
    Pid,
    /// A child process failed or was killed.
    ChildFailed,
    /// The daemon is running already.
    DaemonRunning,
    /// The daemon is not running.
    NotRunning,
}

/// The model of an error.
pub struct ErrorView {
    pub kind: ErrorKind,
    pub message: Seq<char>,
}

/// An error: its kind and its message.
#[derive(Debug)]
pub struct Error {
    pub kind: ErrorKind,
    pub message: String,
}

impl View for Error {
    type V = ErrorView;

    open spec fn view(&self) -> ErrorView {
        ErrorView { kind: self.kind, message: self.message@ }
    }
}

impl DeepView for Error {
    type V = ErrorView;

    open spec fn deep_view(&self) -> ErrorView {
        self@
    }
}

impl Clone for Error {
    fn clone(&self) -> (r: Self)
        ensures
            r == *self,
    {
        Error { kind: self.kind, message: self.message.clone() }
    }
}

/// The error `e` as seen from one level up: `context`, a colon, and the message of `e`.
pub open spec fn in_context(context: Seq<char>, e: ErrorView) -> ErrorView {
    ErrorView { kind: e.kind, message: context + ": "@ + e.message }
}

/// The model of a result that holds a text.
pub open spec fn text_result(r: Result<String, Error>) -> Result<Seq<char>, ErrorView> {
    match r {
        Ok(s) => Ok(s@),
        Err(e) => Err(e@),
    }
}

impl Error {
    /// An error of the given kind and message.
    pub fn new(kind: ErrorKind, message: String) -> (e: Self)
        ensures
            e@ == (ErrorView { kind, message: message@ }),
    {
        Error { kind, message }
    }

    /// The message.
    pub fn to_string(&self) -> (s: String)
        ensures
            s@ == self@.message,
    {
        self.message.clone()
    }

    /// The same error, reported from one level up.
    pub fn context(self, context: &str) -> (e: Self)
        ensures
            e@ == in_context(context@, self@),
    {
        Error { kind: self.kind, message: concat3(context, ": ", self.message.as_str()) }
    }
}

} // verus!
