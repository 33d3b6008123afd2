//! What targets hand on to the targets that run after them.
//!
//! The store lives for one invocation. A value is kept under the target that
//! produced it and a key; storing under the same target and key again
//! replaces the value.
use vstd::prelude::*;
use crate::config::StringMapView;
use crate::name::{FullyQualifiedName, NameView};
use crate::table::{
    clone_string_map, lemma_lookup_with_entry, lookup, with_entry, StringMap, Table,
};

verus! {

/// The model of the store: for each target, its keys and values.
pub type OutputsView = Seq<(NameView, StringMapView)>;

/// The value held under `name` and `key`.
pub open spec fn nested_lookup(m: OutputsView, name: NameView, key: Seq<char>) -> Option<Seq<char>> {
    match lookup(m, name) {
        Some(t) => lookup(t, key),
        None => None,
    }
}

/// The store after `value` was stored under `name` and `key`.
pub open spec fn stored(m: OutputsView, name: NameView, key: Seq<char>, value: Seq<char>) -> OutputsView {
    with_entry(
        m,
        name,
        with_entry(
            match lookup(m, name) {
                Some(t) => t,
                None => Seq::empty(),
            },
            key,
            value,
        ),
    )
}

/// The outputs of the targets that have run.
#[derive(Debug)]
pub struct OutputsManager {
    pub outputs: Table<FullyQualifiedName, StringMap>,
}

impl DeepView for OutputsManager {
    type V = OutputsView;

    open spec fn deep_view(&self) -> OutputsView {
        self.outputs.deep_view()
    }
}

impl Default for OutputsManager {
    fn default() -> (r: Self)
        ensures
            r.deep_view() == Seq::<(NameView, StringMapView)>::empty(),
    {
        OutputsManager::new()
    }
}

impl OutputsManager {
    /// The empty store.
    pub fn new() -> (r: Self)
        ensures
            r.deep_view() == Seq::<(NameView, StringMapView)>::empty(),
    {
        OutputsManager { outputs: Table::new() }
    }

    /// Stores `value` under `target_name` and `key`.
    pub fn store_output(&mut self, target_name: FullyQualifiedName, key: &str, value: &str)
        ensures
            final(self).deep_view() == stored(old(self).deep_view(), target_name@, key@, value@),
    {
        let mut own: StringMap = match self.outputs.get(&target_name) {
            Some(t) => clone_string_map(t),
            None => Table::new(),
        };
        own.insert(String::from_str(key), String::from_str(value));
        self.outputs.insert(target_name, own);
    }

    /// Everything stored under `target_name`.
    pub fn get_all(&self, target_name: &FullyQualifiedName) -> (r: Option<&StringMap>)
        ensures
            r.deep_view() == lookup(self.deep_view(), target_name@),
    {
        self.outputs.get(target_name)
    }

    /// The value stored under `target_name` and `key`.
    pub fn get(&self, target_name: &FullyQualifiedName, key: &str) -> (r: Option<&String>)
        ensures
            r.deep_view() == nested_lookup(self.deep_view(), target_name@, key@),
    {
        match self.outputs.get(target_name) {
            Some(t) => t.get(&String::from_str(key)),
            None => None,
        }
    }
}

/// What was stored is what is read back, and storing leaves every other
/// target and key as it was.
pub proof fn lemma_stored_then_read(
    m: OutputsView,
    name: NameView,
    key: Seq<char>,
    value: Seq<char>,
    other_name: NameView,
    other_key: Seq<char>,
)
    ensures
        nested_lookup(stored(m, name, key, value), name, key) == Some(value),
        (other_name != name || other_key != key) ==> nested_lookup(
            stored(m, name, key, value),
            other_name,
            other_key,
        ) == nested_lookup(m, other_name, other_key),
{
    let own = match lookup(m, name) {
        Some(t) => t,
        None => Seq::empty(),
    };
    let updated = with_entry(own, key, value);
    lemma_lookup_with_entry(m, name, updated, name);
    lemma_lookup_with_entry(m, name, updated, other_name);
    lemma_lookup_with_entry(own, key, value, key);
    lemma_lookup_with_entry(own, key, value, other_key);
    if other_name == name && other_key != key {
        if lookup(m, name) is None {
            crate::table::lemma_key_index_from(own, other_key, 0);
        }
    }
}

} // verus!
