//! From a configuration to a context.
//!
//! Every definition is registered under its short name and under its
//! fully-qualified text, then materialized along its chain of `extends`.
//! The definitions are taken in the order of the file: commands run on the
//! host, commands run in a container, container images, files made by a
//! command.
use vstd::prelude::*;
use crate::config::ContainerBuild as ConfigContainerBuild;
use crate::config::ContainerBuildView as ConfigContainerBuildView;
use crate::config::ContainerCommand as ConfigContainerCommand;
use crate::config::ContainerCommandView as ConfigContainerCommandView;
use crate::config::ExecArtifact as ConfigExecArtifact;
use crate::config::ExecArtifactView as ConfigExecArtifactView;
use crate::config::ExecCommand as ConfigExecCommand;
use crate::config::ExecCommandView as ConfigExecCommandView;
use crate::config::{
    container_command_tag, container_image_tag, exec_artifact_tag, exec_command_tag, Config,
    StringMapView,
};
use crate::context::extends::{
    materialized, resolve_extends, ConfigWrapper, ConfigWrapperView,
};
use crate::context::names::{NameMap, NameMapView};
use crate::context::store::Context;
use crate::error::{Error, ErrorView};
use crate::graph::{find_cycle, first_cycle, requires_cycle, requires_cycle_error, TargetsView};
use crate::name::{clone_names, name_text, FullyQualifiedName, NameView};
use crate::outputs::OutputsView;
use crate::table::{
    clone_string_map, lemma_key_index_from_is, lemma_merged_unique, lookup, merged, unique_keys,
    with_entry, StringMap, Table,
};
use crate::target::{Target, TargetView};
use crate::text::{lemma_deep_view_index, lemma_deep_view_push};

verus! {

/// The model of the definitions of a configuration.
pub type DefinitionsView = Seq<(NameView, ConfigWrapperView)>;

/// The definitions of commands run on the host, each under its full name.
pub open spec fn exec_definitions(defs: Option<Seq<(Seq<char>, ConfigExecCommandView)>>) -> DefinitionsView {
    match defs {
        None => Seq::empty(),
        Some(d) => Seq::new(
            d.len(),
            |i: int|
                (NameView { tag: exec_command_tag(), name: d[i].0 }, ConfigWrapperView::Exec(d[i].1)),
        ),
    }
}

/// The definitions of commands run in a container, each under its full name.
pub open spec fn container_definitions(
    defs: Option<Seq<(Seq<char>, ConfigContainerCommandView)>>,
) -> DefinitionsView {
    match defs {
        None => Seq::empty(),
        Some(d) => Seq::new(
            d.len(),
            |i: int|
                (
                    NameView { tag: container_command_tag(), name: d[i].0 },
                    ConfigWrapperView::Container(d[i].1),
                ),
        ),
    }
}

/// The definitions of container images, each under its full name.
pub open spec fn image_definitions(defs: Option<Seq<(Seq<char>, ConfigContainerBuildView)>>) -> DefinitionsView {
    match defs {
        None => Seq::empty(),
        Some(d) => Seq::new(
            d.len(),
            |i: int|
                (
                    NameView { tag: container_image_tag(), name: d[i].0 },
                    ConfigWrapperView::ContainerBuild(d[i].1),
                ),
        ),
    }
}

/// The definitions of files made by a command, each under its full name.
pub open spec fn exec_artifact_definitions(
    defs: Option<Seq<(Seq<char>, ConfigExecArtifactView)>>,
) -> DefinitionsView {
    match defs {
        None => Seq::empty(),
        Some(d) => Seq::new(
            d.len(),
            |i: int|
                (
                    NameView { tag: exec_artifact_tag(), name: d[i].0 },
                    ConfigWrapperView::ExecArtifact(d[i].1),
                ),
        ),
    }
}

/// The table of commands run on the host, as written.
pub open spec fn exec_part(config: Config) -> Option<Seq<(Seq<char>, ConfigExecCommandView)>> {
    match config.command {
        Some(c) => c.executable.deep_view(),
        None => None,
    }
}

/// The table of commands run in a container, as written.
pub open spec fn container_part(config: Config) -> Option<
    Seq<(Seq<char>, ConfigContainerCommandView)>,
> {
    match config.command {
        Some(c) => c.container.deep_view(),
        None => None,
    }
}

/// The table of container images, as written.
pub open spec fn image_part(config: Config) -> Option<Seq<(Seq<char>, ConfigContainerBuildView)>> {
    match config.artifact {
        Some(a) => a.container_image.deep_view(),
        None => None,
    }
}

/// The table of files made by a command, as written.
pub open spec fn exec_artifact_part(config: Config) -> Option<
    Seq<(Seq<char>, ConfigExecArtifactView)>,
> {
    match config.artifact {
        Some(a) => a.executable.deep_view(),
        None => None,
    }
}

/// All definitions of a configuration, in the order of the file.
pub open spec fn definitions(config: Config) -> DefinitionsView {
    exec_definitions(exec_part(config)) + container_definitions(container_part(config))
        + image_definitions(image_part(config)) + exec_artifact_definitions(
        exec_artifact_part(config),
    )
}

/// The registry with `n` added to what `key` may stand for, unless it is there.
pub open spec fn registered_under(names: NameMapView, key: Seq<char>, n: NameView) -> NameMapView {
    let known = match lookup(names, key) {
        Some(l) => l,
        None => Seq::empty(),
    };
    with_entry(
        names,
        key,
        if known.contains(n) {
            known
        } else {
            known.push(n)
        },
    )
}

/// The registry with `n` added under its short name and under its full text.
pub open spec fn registered(names: NameMapView, n: NameView) -> NameMapView {
    registered_under(registered_under(names, n.name, n), name_text(n), n)
}

/// The registry of the first `n` definitions.
pub open spec fn registry(defs: DefinitionsView, n: nat) -> NameMapView
    decreases n,
{
    if n == 0 || n > defs.len() {
        Seq::empty()
    } else {
        registered(registry(defs, (n - 1) as nat), defs[n - 1].0)
    }
}

/// The definitions by name: of two definitions under one name the later one counts.
pub open spec fn declared(defs: DefinitionsView) -> DefinitionsView {
    merged(Seq::empty(), defs)
}

/// The records of the first `n` of the definitions `commands`.
pub open spec fn loaded_targets(commands: DefinitionsView, names: NameMapView, n: nat) -> Result<
    TargetsView,
    ErrorView,
>
    decreases n,
{
    if n == 0 || n > commands.len() {
        Ok(Seq::empty())
    } else {
        match loaded_targets(commands, names, (n - 1) as nat) {
            Err(e) => Err(e),
            Ok(front) => match materialized(
                commands[n - 1].0,
                commands[n - 1].1,
                commands,
                names,
                commands.len(),
            ) {
                Err(e) => Err(e),
                Ok(t) => Ok(with_entry(front, commands[n - 1].0, t)),
            },
        }
    }
}

/// The variables of each target.
pub open spec fn variables_of(targets: TargetsView) -> OutputsView {
    Seq::new(targets.len(), |i: int| (targets[i].0, targets[i].1.target_info().variables))
}

/// The targets of a configuration: the record of each definition, unless
/// one cannot be made or the requirements of one lead back into themselves.
pub open spec fn targets_of(config: Config) -> Result<TargetsView, ErrorView> {
    let defs = definitions(config);
    let commands = declared(defs);
    match loaded_targets(commands, registry(defs, defs.len()), commands.len()) {
        Err(e) => Err(e),
        Ok(targets) => match first_cycle(targets, targets.len()) {
            Some(name) => Err(requires_cycle(name)),
            None => Ok(targets),
        },
    }
}

/// The globals of a configuration.
pub open spec fn globals_of(config: Config) -> StringMapView {
    match config.globals {
        Some(g) => g.deep_view(),
        None => Seq::empty(),
    }
}

/// Whether `names` holds `n`.
pub fn contains_name(names: &Vec<FullyQualifiedName>, n: &FullyQualifiedName) -> (b: bool)
    ensures
        b == names.deep_view().contains(n@),
{
    let mut i: usize = 0;
    proof {
        lemma_deep_view_index(*names);
    }
    while i < names.len()
        invariant
            i <= names.len(),
            forall|k: int| 0 <= k < i ==> names.deep_view()[k] != n@,
            forall|k: int| 0 <= k < names@.len() ==> #[trigger] names.deep_view()[k] == names@[k]@,
            names.deep_view().len() == names@.len(),
        decreases names.len() - i,
    {
        if names[i].key_eq_name(n) {
            assert(names.deep_view()[i as int] == n@);
            return true;
        }
        i += 1;
    }
    false
}

/// Adds `n` to what `key` may stand for, unless it is there.
pub fn register_under(name_map: &mut NameMap, key: String, n: &FullyQualifiedName)
    ensures
        final(name_map).deep_view() == registered_under(old(name_map).deep_view(), key@, n@),
{
    let mut known: Vec<FullyQualifiedName> = match name_map.get(&key) {
        Some(l) => clone_names(l),
        None => {
            let v: Vec<FullyQualifiedName> = Vec::new();
            assert(v.deep_view() =~= Seq::<NameView>::empty());
            v
        },
    };
    if !contains_name(&known, n) {
        let ghost before = known;
        let owned = n.clone();
        known.push(owned);
        proof {
            lemma_deep_view_push(before, known, owned);
        }
    }
    name_map.insert(key, known);
}

/// Adds `n` to the registry under its short name and under its full text.
pub fn register(name_map: &mut NameMap, n: &FullyQualifiedName)
    ensures
        final(name_map).deep_view() == registered(old(name_map).deep_view(), n@),
{
    register_under(name_map, n.name.clone(), n);
    register_under(name_map, n.to_string(), n);
}

/// All definitions of a configuration, in the order of the file.
pub fn collect_definitions<'a>(config: &'a Config) -> (defs: Vec<
    (FullyQualifiedName, ConfigWrapper<'a>),
>)
    ensures
        defs.deep_view() == definitions(*config),
{
    let mut defs: Vec<(FullyQualifiedName, ConfigWrapper<'a>)> = Vec::new();
    assert(defs.deep_view() =~= Seq::<(NameView, ConfigWrapperView)>::empty());
    let ghost first = exec_definitions(exec_part(*config));
    let ghost second = container_definitions(container_part(*config));
    let ghost third = image_definitions(image_part(*config));
    let ghost fourth = exec_artifact_definitions(exec_artifact_part(*config));
    if let Some(c) = &config.command {
        if let Some(table) = &c.executable {
            let mut i: usize = 0;
            proof {
                lemma_deep_view_index(table.entries);
            }
            while i < table.entries.len()
                invariant
                    i <= table.entries.len(),
                    first == exec_definitions(Some(table.deep_view())),
                    defs.deep_view() == first.take(i as int),
                decreases table.entries.len() - i,
            {
                let name = FullyQualifiedName {
                    tag: String::from_str(ConfigExecCommand::tag()),
                    name: table.entries[i].0.clone(),
                };
                let ghost before = defs;
                let entry = (name, ConfigWrapper::Exec(&table.entries[i].1));
                defs.push(entry);
                proof {
                    lemma_deep_view_index(table.entries);
                    lemma_deep_view_push(before, defs, entry);
                    assert(first.take(i as int + 1) =~= first.take(i as int).push(first[i as int]));
                }
                i += 1;
            }
            assert(first.take(table.entries.len() as int) =~= first);
        }
    }
    assert(defs.deep_view() =~= first);
    if let Some(c) = &config.command {
        if let Some(table) = &c.container {
            let mut i: usize = 0;
            assert(first + second.take(0) =~= first);
            while i < table.entries.len()
                invariant
                    i <= table.entries.len(),
                    second == container_definitions(Some(table.deep_view())),
                    defs.deep_view() == first + second.take(i as int),
                decreases table.entries.len() - i,
            {
                let name = FullyQualifiedName {
                    tag: String::from_str(ConfigContainerCommand::tag()),
                    name: table.entries[i].0.clone(),
                };
                let ghost before = defs;
                let entry = (name, ConfigWrapper::Container(&table.entries[i].1));
                defs.push(entry);
                proof {
                    lemma_deep_view_index(table.entries);
                    lemma_deep_view_push(before, defs, entry);
                    assert(first + second.take(i as int + 1) =~= (first + second.take(
                        i as int,
                    )).push(second[i as int]));
                }
                i += 1;
            }
            assert(second.take(table.entries.len() as int) =~= second);
        }
    }
    assert(defs.deep_view() =~= first + second);
    if let Some(a) = &config.artifact {
        if let Some(table) = &a.container_image {
            let mut i: usize = 0;
            assert(first + second + third.take(0) =~= first + second);
            while i < table.entries.len()
                invariant
                    i <= table.entries.len(),
                    third == image_definitions(Some(table.deep_view())),
                    defs.deep_view() == first + second + third.take(i as int),
                decreases table.entries.len() - i,
            {
                let name = FullyQualifiedName {
                    tag: String::from_str(ConfigContainerBuild::tag()),
                    name: table.entries[i].0.clone(),
                };
                let ghost before = defs;
                let entry = (name, ConfigWrapper::ContainerBuild(&table.entries[i].1));
                defs.push(entry);
                proof {
                    lemma_deep_view_index(table.entries);
                    lemma_deep_view_push(before, defs, entry);
                    assert(first + second + third.take(i as int + 1) =~= (first + second
                        + third.take(i as int)).push(third[i as int]));
                }
                i += 1;
            }
            assert(third.take(table.entries.len() as int) =~= third);
        }
    }
    assert(defs.deep_view() =~= first + second + third);
    if let Some(a) = &config.artifact {
        if let Some(table) = &a.executable {
            let mut i: usize = 0;
            assert(first + second + third + fourth.take(0) =~= first + second + third);
            while i < table.entries.len()
                invariant
                    i <= table.entries.len(),
                    fourth == exec_artifact_definitions(Some(table.deep_view())),
                    defs.deep_view() == first + second + third + fourth.take(i as int),
                decreases table.entries.len() - i,
            {
                let name = FullyQualifiedName {
                    tag: String::from_str(ConfigExecArtifact::tag()),
                    name: table.entries[i].0.clone(),
                };
                let ghost before = defs;
                let entry = (name, ConfigWrapper::ExecArtifact(&table.entries[i].1));
                defs.push(entry);
                proof {
                    lemma_deep_view_index(table.entries);
                    lemma_deep_view_push(before, defs, entry);
                    assert(first + second + third + fourth.take(i as int + 1) =~= (first + second
                        + third + fourth.take(i as int)).push(fourth[i as int]));
                }
                i += 1;
            }
            assert(fourth.take(table.entries.len() as int) =~= fourth);
        }
    }
    assert(defs.deep_view() =~= first + second + third + fourth);
    defs
}

/// The registry of the definitions.
pub fn build_registry(defs: &Vec<(FullyQualifiedName, ConfigWrapper)>) -> (name_map: NameMap)
    ensures
        name_map.deep_view() == registry(defs.deep_view(), defs.deep_view().len()),
{
    let mut name_map: NameMap = Table::new();
    let mut i: usize = 0;
    while i < defs.len()
        invariant
            i <= defs.len(),
            defs.deep_view().len() == defs@.len(),
            name_map.deep_view() == registry(defs.deep_view(), i as nat),
        decreases defs.len() - i,
    {
        proof {
            lemma_deep_view_index(*defs);
        }
        register(&mut name_map, &defs[i].0);
        i += 1;
    }
    name_map
}

/// The definitions by name.
pub fn index_definitions<'a>(defs: &Vec<(FullyQualifiedName, ConfigWrapper<'a>)>) -> (commands:
    Table<FullyQualifiedName, ConfigWrapper<'a>>)
    ensures
        commands.deep_view() == declared(defs.deep_view()),
{
    let mut commands: Table<FullyQualifiedName, ConfigWrapper<'a>> = Table::new();
    let mut i: usize = 0;
    let ghost all = defs.deep_view();
    assert(all.take(0) =~= Seq::<(NameView, ConfigWrapperView)>::empty());
    while i < defs.len()
        invariant
            i <= defs.len(),
            all == defs.deep_view(),
            commands.deep_view() == merged(Seq::empty(), all.take(i as int)),
        decreases defs.len() - i,
    {
        proof {
            lemma_deep_view_index(*defs);
            assert(all.take(i as int + 1).drop_last() == all.take(i as int));
            assert(all.take(i as int + 1).last() == all[i as int]);
        }
        commands.insert(defs[i].0.clone(), defs[i].1.share());
        i += 1;
    }
    assert(all.take(defs.len() as int) == all);
    commands
}

/// The model of a result that holds a table of targets.
pub open spec fn targets_result(r: Result<Table<FullyQualifiedName, Target>, Error>) -> Result<
    TargetsView,
    ErrorView,
> {
    match r {
        Ok(t) => Ok(t.deep_view()),
        Err(e) => Err(e@),
    }
}

/// An error among the first `n` records is the error of them all.
pub proof fn lemma_loaded_targets_error(
    commands: DefinitionsView,
    names: NameMapView,
    n: nat,
    more: nat,
)
    requires
        n <= more <= commands.len(),
        loaded_targets(commands, names, n) is Err,
    ensures
        loaded_targets(commands, names, more) == loaded_targets(commands, names, n),
    decreases more - n,
{
    if n < more {
        lemma_loaded_targets_error(commands, names, n, (more - 1) as nat);
    }
}

/// The record of each definition.
pub fn load_targets(
    commands: &Table<FullyQualifiedName, ConfigWrapper>,
    name_map: &NameMap,
) -> (r: Result<Table<FullyQualifiedName, Target>, Error>)
    ensures
        targets_result(r) == loaded_targets(
            commands.deep_view(),
            name_map.deep_view(),
            commands.deep_view().len(),
        ),
{
    let mut targets: Table<FullyQualifiedName, Target> = Table::new();
    let n = commands.len();
    let mut i: usize = 0;
    while i < n
        invariant
            i <= n,
            n == commands.deep_view().len(),
            n == commands.entries@.len(),
            loaded_targets(commands.deep_view(), name_map.deep_view(), i as nat) == Ok::<
                TargetsView,
                ErrorView,
            >(targets.deep_view()),
        decreases n - i,
    {
        proof {
            lemma_deep_view_index(commands.entries);
        }
        let name = commands.entries[i].0.clone();
        match resolve_extends(name.clone(), &commands.entries[i].1, commands, name_map) {
            Err(e) => {
                proof {
                    lemma_loaded_targets_error(
                        commands.deep_view(),
                        name_map.deep_view(),
                        i as nat + 1,
                        n as nat,
                    );
                }
                return Err(e);
            },
            Ok(target) => {
                targets.insert(name, target);
            },
        }
        i += 1;
    }
    Ok(targets)
}

/// The variables of each target.
pub fn collect_variables(targets: &Table<FullyQualifiedName, Target>) -> (r: Table<
    FullyQualifiedName,
    StringMap,
>)
    ensures
        r.deep_view() == variables_of(targets.deep_view()),
{
    let mut entries: Vec<(FullyQualifiedName, StringMap)> = Vec::new();
    let mut i: usize = 0;
    let ghost all = variables_of(targets.deep_view());
    assert(entries.deep_view() =~= all.take(0));
    while i < targets.entries.len()
        invariant
            i <= targets.entries.len(),
            all == variables_of(targets.deep_view()),
            entries.deep_view() == all.take(i as int),
        decreases targets.entries.len() - i,
    {
        proof {
            lemma_deep_view_index(targets.entries);
        }
        let ghost before = entries;
        let entry = (
            targets.entries[i].0.clone(),
            clone_string_map(&targets.entries[i].1.target_info().variables),
        );
        entries.push(entry);
        proof {
            lemma_deep_view_push(before, entries, entry);
            assert(all.take(i as int + 1) =~= all.take(i as int).push(all[i as int]));
        }
        i += 1;
    }
    assert(all.take(targets.entries.len() as int) =~= all);
    Table { entries }
}

impl Context {
    /// The record of each definition.
    pub fn resolve_extends(
        &mut self,
        commands: &Table<FullyQualifiedName, ConfigWrapper>,
        name_map: &NameMap,
    ) -> (r: Result<(), Error>)
        ensures
            match r {
                Ok(_) => loaded_targets(
                    commands.deep_view(),
                    name_map.deep_view(),
                    commands.deep_view().len(),
                ) == Ok::<TargetsView, ErrorView>(final(self).targets.deep_view())
                    && final(self).variables.deep_view() == variables_of(
                    final(self).targets.deep_view(),
                ) && final(self).globals == old(self).globals && final(self).config_path == old(
                    self,
                ).config_path,
                Err(e) => loaded_targets(
                    commands.deep_view(),
                    name_map.deep_view(),
                    commands.deep_view().len(),
                ) == Err::<TargetsView, ErrorView>(e@) && *final(self) == *old(self),
            },
    {
        match load_targets(commands, name_map) {
            Err(e) => Err(e),
            Ok(targets) => {
                self.variables = collect_variables(&targets);
                self.targets = targets;
                Ok(())
            },
        }
    }

    /// The context of a configuration read from `path`: every definition
    /// materialized along its chain of `extends`, with the globals. Fails
    /// if a record cannot be made, or if the requirements of a target lead
    /// back into themselves.
    pub fn from_config(config: &Config, path: String) -> (r: Result<Context, Error>)
        ensures
            match r {
                Ok(c) => {
                    &&& targets_of(*config) == Ok::<TargetsView, ErrorView>(c.targets.deep_view())
                    &&& c.variables.deep_view() == variables_of(c.targets.deep_view())
                    &&& c.globals.deep_view() == globals_of(*config)
                    &&& c.config_path@ == path@
                },
                Err(e) => targets_of(*config) == Err::<TargetsView, ErrorView>(e@),
            },
    {
        let globals: StringMap = match &config.globals {
            Some(g) => clone_string_map(g),
            None => Table::new(),
        };
        let mut context = Context {
            variables: Table::new(),
            globals,
            targets: Table::new(),
            config_path: path,
        };
        let defs = collect_definitions(config);
        let name_map = build_registry(&defs);
        let commands = index_definitions(&defs);
        match context.resolve_extends(&commands, &name_map) {
            Err(e) => {
                return Err(e);
            },
            Ok(_) => {},
        }
        match find_cycle(&context.targets) {
            Some(name) => Err(requires_cycle_error(&name)),
            None => Ok(context),
        }
    }
}

/// Every target is the record of its definition: where the records can
/// all be made, there is one target for each definition, in the order of
/// the definitions and under the name of the definition, and it is the
/// definition laid on top of the record of what it extends, down the chain.
pub proof fn lemma_targets_are_materialized(commands: DefinitionsView, names: NameMapView, n: nat)
    requires
        unique_keys(commands),
        n <= commands.len(),
        loaded_targets(commands, names, n) is Ok,
    ensures
        loaded_targets(commands, names, n)->Ok_0.len() == n,
        forall|i: int|
            0 <= i < n ==> {
                &&& (#[trigger] loaded_targets(commands, names, n)->Ok_0[i]).0 == commands[i].0
                &&& materialized(
                    commands[i].0,
                    commands[i].1,
                    commands,
                    names,
                    commands.len(),
                ) == Ok::<TargetView, ErrorView>(loaded_targets(commands, names, n)->Ok_0[i].1)
            },
    decreases n,
{
    if n > 0 {
        lemma_targets_are_materialized(commands, names, (n - 1) as nat);
        let front = loaded_targets(commands, names, (n - 1) as nat)->Ok_0;
        let key = commands[n - 1].0;
        assert forall|j: int| 0 <= j < front.len() implies front[j].0 != key by {
            assert(front[j].0 == commands[j].0);
        }
        lemma_key_index_from_is(front, key, 0, front.len() as int);
        let all = loaded_targets(commands, names, n)->Ok_0;
        assert forall|i: int| 0 <= i < n implies {
            &&& (#[trigger] all[i]).0 == commands[i].0
            &&& materialized(commands[i].0, commands[i].1, commands, names, commands.len())
                == Ok::<TargetView, ErrorView>(all[i].1)
        } by {
            if i < n - 1 {
                assert(all[i] == front[i]);
            }
        }
    }
}

/// The definitions by name hold each name once.
pub proof fn lemma_declared_unique(defs: DefinitionsView)
    ensures
        unique_keys(declared(defs)),
{
    lemma_merged_unique(Seq::<(NameView, ConfigWrapperView)>::empty(), defs);
}

} // verus!
