pub mod extends;
pub mod load;
pub mod lookup;
pub mod names;
pub mod placeholder;
pub mod resolver;
pub mod store;
pub mod substitution;
pub mod variable;

pub use extends::{resolve_extends, ConfigWrapper};
pub use lookup::CommandLookupResult;
pub use names::{
    resolve_requires, resolve_target_names_in, resolve_target_names_in_map,
    resolve_target_names_in_vec, resolve_variables, NameMap,
};
pub use placeholder::extract_variables;
pub use resolver::{
    artifact_info_from_config, command_info_from_config, get_lookup_name,
    target_info_from_config,
};
pub use store::Context;
pub use variable::Variable;
