//! The context of an invocation: every target, materialized, with the
//! variables and globals that its texts may refer to.
use vstd::prelude::*;
use crate::config::StringMapView;
use crate::name::{FullyQualifiedName, NameView};
use crate::table::{StringMap, Table};
use crate::target::{Target, TargetView};

verus! {

/// The context of an invocation.
#[derive(Debug)]
pub struct Context {
    /// The variables of each target.
    pub variables: Table<FullyQualifiedName, StringMap>,
    /// The globals of the configuration.
    pub globals: StringMap,
    /// The targets, each fully materialized.
    pub targets: Table<FullyQualifiedName, Target>,
    /// Where the configuration was read from.
    pub config_path: String,
}

impl Default for Context {
    fn default() -> (r: Self)
        ensures
            r.is_empty(),
    {
        Context::new()
    }
}

impl Context {
    /// Whether the context holds nothing.
    pub open spec fn is_empty(&self) -> bool {
        &&& self.variables.deep_view() == Seq::<(NameView, StringMapView)>::empty()
        &&& self.globals.deep_view() == Seq::<(Seq<char>, Seq<char>)>::empty()
        &&& self.targets.deep_view() == Seq::<(NameView, TargetView)>::empty()
        &&& self.config_path@ == Seq::<char>::empty()
    }

    /// The context that holds nothing.
    pub fn new() -> (r: Self)
        ensures
            r.is_empty(),
    {
        Context {
            variables: Table::new(),
            globals: Table::new(),
            targets: Table::new(),
            config_path: String::new(),
        }
    }
}

} // verus!
