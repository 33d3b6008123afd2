//! From definitions to targets: inheritance along `extends`.
//!
//! A definition is laid on top of the record of the definition it extends,
//! field by field: a text or a switch of its own comes first, a list is
//! appended to the inherited list, a table is laid over the inherited table.
//! The record of a definition that extends nothing is the definition laid on
//! top of nothing.
use vstd::prelude::*;
use crate::config::ArtifactInfo as ConfigArtifactInfo;
use crate::config::ArtifactInfoView as ConfigArtifactInfoView;
use crate::config::CommandInfo as ConfigCommandInfo;
use crate::config::TargetInfo as ConfigTargetInfo;
use crate::config::TargetInfoView as ConfigTargetInfoView;
use crate::config::StringMapView;
use crate::context::names::{
    canonical_list, canonical_map, resolve_requires, resolve_target_names_in_vec,
    resolve_variables, resolved_requires, NameMap, NameMapView,
};
use crate::default::{default_to_with_default, preferred};
use crate::error::{in_context, Error, ErrorView};
use crate::name::{concat_names, name_text, parse_name, FullyQualifiedName, NameView};
use crate::table::{merge_string_maps, merged, StringMap, Table};
use crate::target::{ArtifactInfo, ArtifactInfoView, CommandInfo, TargetInfo, TargetInfoView};
use crate::text::{
    chars_of, clone_option_string, concat3, concat_strings, has_char, lemma_has_char, rfind_char,
};

verus! {

/// The name that `name` spells where a target of the tag `default_tag`
/// refers to another: a text with a dot is a fully-qualified name, a text
/// without one is a name under `default_tag`.
pub open spec fn lookup_name(name: Seq<char>, default_tag: Seq<char>) -> NameView {
    if has_char(name, '.') {
        parse_name(name)
    } else {
        NameView { tag: default_tag, name }
    }
}

/// The name that `name` spells where a target of the tag `default_tag` refers to another.
pub fn get_lookup_name(name: String, default_tag: String) -> (r: FullyQualifiedName)
    ensures
        r@ == lookup_name(name@, default_tag@),
{
    let chars = chars_of(name.as_str());
    proof {
        lemma_has_char(chars@, '.');
    }
    match rfind_char(&chars, '.', chars.len()) {
        Some(_) => FullyQualifiedName::from_string(name.as_str()),
        None => FullyQualifiedName { tag: default_tag, name },
    }
}

/// How an error in the references of the target `name` is introduced.
pub open spec fn invalid_reference_from(name: NameView) -> Seq<char> {
    "Invalid reference from <"@ + name_text(name) + ">"@
}

/// How an error in the references of the target `name` is introduced.
pub fn invalid_reference_prefix(name: &FullyQualifiedName) -> (s: String)
    ensures
        s@ == invalid_reference_from(name@),
{
    let text = name.to_string();
    concat3("Invalid reference from <", text.as_str(), ">")
}

/// The targets that the definition's own `requires` stand for.
pub open spec fn own_requires(cfg: ConfigTargetInfoView, names: NameMapView) -> Result<
    Seq<NameView>,
    ErrorView,
> {
    match cfg.requires {
        None => Ok(Seq::empty()),
        Some(rs) => resolved_requires(rs, names),
    }
}

/// The definition's own variables, references written out in full.
pub open spec fn own_variables(cfg: ConfigTargetInfoView, names: NameMapView) -> Result<
    StringMapView,
    ErrorView,
> {
    match cfg.variables {
        None => Ok(Seq::empty()),
        Some(vs) => canonical_map(vs, names),
    }
}

/// What the target `name` carries, given its definition and the record it
/// extends: the inherited requirements followed by its own, the inherited
/// variables with its own laid on top, and its own description.
pub open spec fn target_info_of(
    name: NameView,
    cfg: ConfigTargetInfoView,
    names: NameMapView,
    base: Option<TargetInfoView>,
) -> Result<TargetInfoView, ErrorView> {
    match own_requires(cfg, names) {
        Err(e) => Err(in_context(invalid_reference_from(name), e)),
        Ok(reqs) => match own_variables(cfg, names) {
            Err(e) => Err(in_context(invalid_reference_from(name), e)),
            Ok(vars) => Ok(
                TargetInfoView {
                    name,
                    requires: match base {
                        Some(b) => b.requires,
                        None => Seq::empty(),
                    } + reqs,
                    variables: merged(
                        match base {
                            Some(b) => b.variables,
                            None => Seq::empty(),
                        },
                        vars,
                    ),
                    description: cfg.description,
                },
            ),
        },
    }
}

/// What the target `name` carries, given its definition and the record it extends.
pub fn target_info_from_config(
    name: FullyQualifiedName,
    config: &ConfigTargetInfo,
    name_map: &NameMap,
    base: Option<&TargetInfo>,
) -> (r: Result<TargetInfo, Error>)
    ensures
        match r {
            Ok(t) => target_info_of(name@, config.deep_view(), name_map.deep_view(), base.deep_view())
                == Ok::<TargetInfoView, ErrorView>(t.deep_view()),
            Err(e) => target_info_of(name@, config.deep_view(), name_map.deep_view(), base.deep_view())
                == Err::<TargetInfoView, ErrorView>(e@),
        },
{
    let own: Vec<FullyQualifiedName> = match &config.requires {
        None => {
            let v: Vec<FullyQualifiedName> = Vec::new();
            assert(v.deep_view() =~= Seq::<NameView>::empty());
            v
        },
        Some(rs) => match resolve_requires(rs, name_map) {
            Err(e) => {
                let prefix = invalid_reference_prefix(&name);
                return Err(e.context(prefix.as_str()));
            },
            Ok(v) => v,
        },
    };
    let vars: StringMap = match &config.variables {
        None => Table::new(),
        Some(vs) => match resolve_variables(vs, name_map) {
            Err(e) => {
                let prefix = invalid_reference_prefix(&name);
                return Err(e.context(prefix.as_str()));
            },
            Ok(m) => m,
        },
    };
    let empty_names: Vec<FullyQualifiedName> = Vec::new();
    let empty_map: StringMap = Table::new();
    assert(empty_names.deep_view() =~= Seq::<NameView>::empty());
    let (base_requires, base_variables) = match base {
        Some(b) => (&b.requires, &b.variables),
        None => (&empty_names, &empty_map),
    };
    Ok(
        TargetInfo {
            name,
            requires: concat_names(base_requires, &own),
            variables: merge_string_maps(base_variables, &vars),
            description: clone_option_string(&config.description),
        },
    )
}

/// What the command carries: its own word on being a daemon, else the word
/// of the record it extends, else no.
pub open spec fn command_info_of(cfg: ConfigCommandInfo, base: Option<CommandInfo>) -> CommandInfo {
    CommandInfo {
        daemon: preferred(
            cfg.daemon,
            match base {
                Some(b) => Some(b.daemon),
                None => None,
            },
            false,
        ),
    }
}

/// What the command carries, given its definition and the record it extends.
pub fn command_info_from_config(
    _name: FullyQualifiedName,
    config: &ConfigCommandInfo,
    base: Option<&CommandInfo>,
) -> (r: CommandInfo)
    ensures
        r == command_info_of(*config, base.deep_view()),
{
    let inherited = match base {
        Some(b) => Some(b.daemon),
        None => None,
    };
    CommandInfo { daemon: default_to_with_default(config.daemon, inherited, false) }
}

/// An inherited list of paths followed by the definition's own, where each
/// may be absent; absent where both are.
pub open spec fn merged_paths(base: Option<Seq<Seq<char>>>, own: Option<Seq<Seq<char>>>) -> Option<
    Seq<Seq<char>>,
> {
    match (base, own) {
        (Some(a), None) => Some(a),
        (None, Some(b)) => Some(b),
        (Some(a), Some(b)) => Some(a + b),
        (None, None) => None,
    }
}

/// The definition's own paths, references written out in full.
pub open spec fn own_paths(paths: Option<Seq<Seq<char>>>, names: NameMapView) -> Result<
    Option<Seq<Seq<char>>>,
    ErrorView,
> {
    match paths {
        None => Ok(None),
        Some(l) => match canonical_list(l, names) {
            Err(e) => Err(e),
            Ok(c) => Ok(Some(c)),
        },
    }
}

/// What the artifact `name` carries, given its definition and the record
/// it extends: for its outputs and for its inputs, the inherited paths
/// followed by its own.
pub open spec fn artifact_info_of(
    name: NameView,
    cfg: ConfigArtifactInfoView,
    names: NameMapView,
    base: Option<ArtifactInfoView>,
) -> Result<ArtifactInfoView, ErrorView> {
    match own_paths(cfg.updates_paths, names) {
        Err(e) => Err(in_context(invalid_reference_from(name), e)),
        Ok(updates) => match own_paths(cfg.if_files_changed, names) {
            Err(e) => Err(in_context(invalid_reference_from(name), e)),
            Ok(changed) => Ok(
                ArtifactInfoView {
                    updates_paths: merged_paths(
                        match base {
                            Some(b) => b.updates_paths,
                            None => None,
                        },
                        updates,
                    ),
                    if_files_changed: merged_paths(
                        match base {
                            Some(b) => b.if_files_changed,
                            None => None,
                        },
                        changed,
                    ),
                },
            ),
        },
    }
}

/// An inherited list of paths followed by the definition's own.
pub fn merge_paths(base: Option<&Vec<String>>, own: Option<Vec<String>>) -> (r: Option<Vec<String>>)
    ensures
        r.deep_view() == merged_paths(base.deep_view(), own.deep_view()),
{
    match (base, own) {
        (Some(a), None) => Some(crate::text::clone_strings(a)),
        (None, Some(b)) => Some(b),
        (Some(a), Some(b)) => Some(concat_strings(a, &b)),
        (None, None) => None,
    }
}

/// What the artifact `name` carries, given its definition and the record it extends.
pub fn artifact_info_from_config(
    name: FullyQualifiedName,
    config: &ConfigArtifactInfo,
    name_map: &NameMap,
    base: Option<&ArtifactInfo>,
) -> (r: Result<ArtifactInfo, Error>)
    ensures
        match r {
            Ok(a) => artifact_info_of(
                name@,
                config.deep_view(),
                name_map.deep_view(),
                base.deep_view(),
            ) == Ok::<ArtifactInfoView, ErrorView>(a.deep_view()),
            Err(e) => artifact_info_of(
                name@,
                config.deep_view(),
                name_map.deep_view(),
                base.deep_view(),
            ) == Err::<ArtifactInfoView, ErrorView>(e@),
        },
{
    let updates: Option<Vec<String>> = match &config.updates_paths {
        None => None,
        Some(l) => match resolve_target_names_in_vec(l, name_map) {
            Err(e) => {
                let prefix = invalid_reference_prefix(&name);
                return Err(e.context(prefix.as_str()));
            },
            Ok(v) => Some(v),
        },
    };
    let changed: Option<Vec<String>> = match &config.if_files_changed {
        None => None,
        Some(l) => match resolve_target_names_in_vec(l, name_map) {
            Err(e) => {
                let prefix = invalid_reference_prefix(&name);
                return Err(e.context(prefix.as_str()));
            },
            Ok(v) => Some(v),
        },
    };
    let (base_updates, base_changed): (Option<&Vec<String>>, Option<&Vec<String>>) = match base {
        Some(b) => (
            match &b.updates_paths {
                Some(l) => Some(l),
                None => None,
            },
            match &b.if_files_changed {
                Some(l) => Some(l),
                None => None,
            },
        ),
        None => (None, None),
    };
    Ok(
        ArtifactInfo {
            updates_paths: merge_paths(base_updates, updates),
            if_files_changed: merge_paths(base_changed, changed),
        },
    )
}

} // verus!
