//! The rules on the texts of a configuration: none may be empty where
//! content is asked for.
use vstd::prelude::*;
use crate::config::{
    Artifact, ArtifactInfo, Command, Config, ContainerBuild, ContainerCommand, ExecArtifact,
    ExecCommand, TargetInfo,
};
use crate::table::{StringMap, Table};

verus! {

/// The model of a broken rule.
pub struct ValidationErrorView {
    pub code: Seq<char>,
    pub message: Seq<char>,
}

/// A broken rule: a code for programs and a message for people.
#[derive(Debug)]
pub struct ValidationError {
    pub code: String,
    pub message: String,
}

impl View for ValidationError {
    type V = ValidationErrorView;

    open spec fn view(&self) -> ValidationErrorView {
        ValidationErrorView { code: self.code@, message: self.message@ }
    }
}

impl ValidationError {
    /// A broken rule with the given code and message.
    pub fn new(code: &str, message: &str) -> (e: Self)
        ensures
            e@ == (ValidationErrorView { code: code@, message: message@ }),
    {
        ValidationError { code: String::from_str(code), message: String::from_str(message) }
    }

    /// The message.
    pub fn to_string(&self) -> (s: String)
        ensures
            s@ == self@.message,
    {
        self.message.clone()
    }
}

/// The rule broken by an empty text in a list.
pub open spec fn empty_string_in_vec() -> ValidationErrorView {
    ValidationErrorView { code: "empty_string_in_vec"@, message: "string cannot be empty"@ }
}

/// The rule broken by an empty key.
pub open spec fn invalid_hash_key() -> ValidationErrorView {
    ValidationErrorView { code: "invalid_hash_key"@, message: "key cannot be empty"@ }
}

/// The rule broken by an empty value.
pub open spec fn invalid_hash_value() -> ValidationErrorView {
    ValidationErrorView { code: "invalid_hash_value"@, message: "value cannot be empty"@ }
}

/// The rule broken by a text that must have content and has none.
pub open spec fn empty_field(message: Seq<char>) -> ValidationErrorView {
    ValidationErrorView { code: "length"@, message }
}

/// Whether some text of `value` is empty.
pub open spec fn has_empty(value: Seq<Seq<char>>) -> bool {
    exists|i: int| 0 <= i < value.len() && (#[trigger] value[i]).len() == 0
}

/// The rule that a list of texts breaks, if any.
pub open spec fn list_violation(value: Seq<Seq<char>>) -> Option<ValidationErrorView> {
    if has_empty(value) {
        Some(empty_string_in_vec())
    } else {
        None
    }
}

/// Whether some key of `keys` is empty.
pub open spec fn has_empty_key<V>(value: Seq<(Seq<char>, V)>) -> bool {
    exists|i: int| 0 <= i < value.len() && (#[trigger] value[i]).0.len() == 0
}

/// The rule that the keys of a table break, if any.
pub open spec fn keys_violation<V>(value: Seq<(Seq<char>, V)>) -> Option<ValidationErrorView> {
    if has_empty_key(value) {
        Some(invalid_hash_key())
    } else {
        None
    }
}

/// The rule that a table of texts breaks, if any: that of its first entry
/// with an empty key or value, the key's before the value's.
pub open spec fn entries_violation(value: Seq<(Seq<char>, Seq<char>)>) -> Option<
    ValidationErrorView,
>
    decreases value.len(),
{
    if value.len() == 0 {
        None
    } else if value[0].0.len() == 0 {
        Some(invalid_hash_key())
    } else if value[0].1.len() == 0 {
        Some(invalid_hash_value())
    } else {
        entries_violation(value.drop_first())
    }
}

/// The rule that a text which must have content breaks, if any.
pub open spec fn field_violation(value: Seq<char>, message: Seq<char>) -> Option<
    ValidationErrorView,
> {
    if value.len() == 0 {
        Some(empty_field(message))
    } else {
        None
    }
}

/// The rule that a text which must have content, where it is there, breaks, if any.
pub open spec fn optional_field_violation(value: Option<Seq<char>>, message: Seq<char>) -> Option<
    ValidationErrorView,
> {
    match value {
        None => None,
        Some(v) => field_violation(v, message),
    }
}

/// The outcome of a check, as the rule it found broken.
pub open spec fn violation_of(r: Result<(), ValidationError>) -> Option<ValidationErrorView> {
    match r {
        Ok(_) => None,
        Err(e) => Some(e@),
    }
}

/// The first of two findings.
pub open spec fn first_violation(
    a: Option<ValidationErrorView>,
    b: Option<ValidationErrorView>,
) -> Option<ValidationErrorView> {
    match a {
        Some(e) => Some(e),
        None => b,
    }
}

/// Whether a text is empty.
pub fn is_empty_string(s: &String) -> (b: bool)
    ensures
        b == (s@.len() == 0),
{
    s.as_str().unicode_len() == 0
}

/// Checks that no text of the list is empty.
pub fn non_empty_strings(value: &Vec<String>) -> (r: Result<(), ValidationError>)
    ensures
        violation_of(r) == list_violation(value.deep_view()),
{
    let mut i: usize = 0;
    while i < value.len()
        invariant
            i <= value.len(),
            forall|k: int| 0 <= k < i ==> (#[trigger] value.deep_view()[k]).len() != 0,
        decreases value.len() - i,
    {
        if is_empty_string(&value[i]) {
            assert(value.deep_view()[i as int].len() == 0);
            return Err(ValidationError::new("empty_string_in_vec", "string cannot be empty"));
        }
        i += 1;
    }
    Ok(())
}

/// Checks that no key of the table is empty.
pub fn keys_non_empty_strings<V: DeepView>(value: &Table<String, V>) -> (r: Result<
    (),
    ValidationError,
>)
    ensures
        violation_of(r) == keys_violation(value.deep_view()),
{
    let mut i: usize = 0;
    while i < value.entries.len()
        invariant
            i <= value.entries.len(),
            forall|k: int| 0 <= k < i ==> (#[trigger] value.deep_view()[k]).0.len() != 0,
        decreases value.entries.len() - i,
    {
        if is_empty_string(&value.entries[i].0) {
            assert(value.deep_view()[i as int].0.len() == 0);
            return Err(ValidationError::new("invalid_hash_key", "key cannot be empty"));
        }
        i += 1;
    }
    Ok(())
}

/// Checks that no key and no value of the table is empty.
pub fn keys_and_values_non_empty_strings(value: &StringMap) -> (r: Result<(), ValidationError>)
    ensures
        violation_of(r) == entries_violation(value.deep_view()),
{
    let ghost m = value.deep_view();
    let mut i: usize = 0;
    assert(m.subrange(0, m.len() as int) == m);
    while i < value.entries.len()
        invariant
            i <= value.entries.len(),
            m == value.deep_view(),
            entries_violation(m) == entries_violation(m.subrange(i as int, m.len() as int)),
        decreases value.entries.len() - i,
    {
        let ghost rest = m.subrange(i as int, m.len() as int);
        assert(rest[0] == (value.entries@[i as int].0@, value.entries@[i as int].1@));
        assert(rest.drop_first() == m.subrange(i as int + 1, m.len() as int));
        if is_empty_string(&value.entries[i].0) {
            return Err(ValidationError::new("invalid_hash_key", "key cannot be empty"));
        }
        if is_empty_string(&value.entries[i].1) {
            return Err(ValidationError::new("invalid_hash_value", "value cannot be empty"));
        }
        i += 1;
    }
    Ok(())
}

/// Checks that a text which must have content has some.
pub fn non_empty_field(value: &String, message: &str) -> (r: Result<(), ValidationError>)
    ensures
        violation_of(r) == field_violation(value@, message@),
{
    if is_empty_string(value) {
        Err(ValidationError::new("length", message))
    } else {
        Ok(())
    }
}

/// Checks that a text which must have content, where it is there, has some.
pub fn non_empty_optional_field(value: &Option<String>, message: &str) -> (r: Result<
    (),
    ValidationError,
>)
    ensures
        violation_of(r) == optional_field_violation(value.deep_view(), message@),
{
    match value {
        None => Ok(()),
        Some(v) => non_empty_field(v, message),
    }
}

/// What can be checked against the rules.
pub trait Validate {
    /// The rule that this breaks, if any.
    spec fn violation(&self) -> Option<ValidationErrorView>;

    /// Checks the rules.
    fn validate(&self) -> (r: Result<(), ValidationError>)
        ensures
            violation_of(r) == self.violation(),
    ;
}

/// The rule that a list which may be absent breaks, if any.
pub open spec fn optional_list_violation(value: Option<Seq<Seq<char>>>) -> Option<
    ValidationErrorView,
> {
    match value {
        None => None,
        Some(l) => list_violation(l),
    }
}

/// Checks that no text of a list that may be absent is empty.
pub fn non_empty_optional_strings(value: &Option<Vec<String>>) -> (r: Result<(), ValidationError>)
    ensures
        violation_of(r) == optional_list_violation(value.deep_view()),
{
    match value {
        None => Ok(()),
        Some(l) => non_empty_strings(l),
    }
}

/// The first rule that a definition of `entries` breaks, from the `i`-th on.
pub open spec fn table_violation<V: Validate>(entries: Seq<(String, V)>, i: int) -> Option<
    ValidationErrorView,
>
    decreases entries.len() - i,
{
    if i < 0 || i >= entries.len() {
        None
    } else {
        match entries[i].1.violation() {
            Some(e) => Some(e),
            None => table_violation(entries, i + 1),
        }
    }
}

/// The rule that a table of definitions which may be absent breaks, if any.
pub open spec fn optional_table_violation<V: Validate>(table: Option<Table<String, V>>) -> Option<
    ValidationErrorView,
> {
    match table {
        None => None,
        Some(t) => table_violation(t.entries@, 0),
    }
}

/// Checks each definition of a table that may be absent, in order.
pub fn validate_table<V: Validate>(table: &Option<Table<String, V>>) -> (r: Result<
    (),
    ValidationError,
>)
    ensures
        violation_of(r) == optional_table_violation(*table),
{
    match table {
        None => Ok(()),
        Some(t) => {
            let mut i: usize = 0;
            while i < t.entries.len()
                invariant
                    i <= t.entries.len(),
                    optional_table_violation(*table) == table_violation(t.entries@, 0),
                    table_violation(t.entries@, 0) == table_violation(t.entries@, i as int),
                decreases t.entries.len() - i,
            {
                match t.entries[i].1.validate() {
                    Err(e) => {
                        return Err(e);
                    },
                    Ok(_) => {},
                }
                i += 1;
            }
            Ok(())
        },
    }
}

impl Validate for TargetInfo {
    /// Each requirement must have content, the name of what is extended
    /// must have content, and so must each key of the variables.
    open spec fn violation(&self) -> Option<ValidationErrorView> {
        first_violation(
            optional_list_violation(self.requires.deep_view()),
            first_violation(
                optional_field_violation(self.extends.deep_view(), "Name must not be empty"@),
                match self.variables {
                    None => None,
                    Some(v) => keys_violation(v.deep_view()),
                },
            ),
        )
    }

    fn validate(&self) -> (r: Result<(), ValidationError>) {
        match non_empty_optional_strings(&self.requires) {
            Err(e) => {
                return Err(e);
            },
            Ok(_) => {},
        }
        match non_empty_optional_field(&self.extends, "Name must not be empty") {
            Err(e) => {
                return Err(e);
            },
            Ok(_) => {},
        }
        match &self.variables {
            None => Ok(()),
            Some(v) => keys_non_empty_strings(v),
        }
    }
}

impl Validate for ArtifactInfo {
    /// Each declared output and each declared input must have content.
    open spec fn violation(&self) -> Option<ValidationErrorView> {
        first_violation(
            optional_list_violation(self.updates_paths.deep_view()),
            optional_list_violation(self.if_files_changed.deep_view()),
        )
    }

    fn validate(&self) -> (r: Result<(), ValidationError>) {
        match non_empty_optional_strings(&self.updates_paths) {
            Err(e) => Err(e),
            Ok(_) => non_empty_optional_strings(&self.if_files_changed),
        }
    }
}

impl Validate for ExecCommand {
    /// The command, where it is there, must have content; so must each
    /// entry of the environment.
    open spec fn violation(&self) -> Option<ValidationErrorView> {
        first_violation(
            optional_field_violation(self.command.deep_view(), "Command must not be empty"@),
            first_violation(
                optional_list_violation(self.env.deep_view()),
                self.target_info.violation(),
            ),
        )
    }

    fn validate(&self) -> (r: Result<(), ValidationError>) {
        match non_empty_optional_field(&self.command, "Command must not be empty") {
            Err(e) => {
                return Err(e);
            },
            Ok(_) => {},
        }
        match non_empty_optional_strings(&self.env) {
            Err(e) => {
                return Err(e);
            },
            Ok(_) => {},
        }
        self.target_info.validate()
    }
}

impl Validate for ContainerCommand {
    /// The image, the command, the working directory and the network,
    /// where they are there, must have content; so must each entry of the
    /// environment and each key and value of the mounts.
    open spec fn violation(&self) -> Option<ValidationErrorView> {
        first_violation(
            optional_field_violation(self.image.deep_view(), "image must not be empty"@),
            first_violation(
                optional_list_violation(self.env.deep_view()),
                first_violation(
                    optional_field_violation(self.command.deep_view(), "command must not be empty"@),
                    first_violation(
                        match self.mount {
                            None => None,
                            Some(m) => entries_violation(m.deep_view()),
                        },
                        first_violation(
                            optional_field_violation(
                                self.workdir.deep_view(),
                                "workdir must not be empty"@,
                            ),
                            first_violation(
                                optional_field_violation(
                                    self.network.deep_view(),
                                    "network must not be empty"@,
                                ),
                                self.target_info.violation(),
                            ),
                        ),
                    ),
                ),
            ),
        )
    }

    fn validate(&self) -> (r: Result<(), ValidationError>) {
        match non_empty_optional_field(&self.image, "image must not be empty") {
            Err(e) => {
                return Err(e);
            },
            Ok(_) => {},
        }
        match non_empty_optional_strings(&self.env) {
            Err(e) => {
                return Err(e);
            },
            Ok(_) => {},
        }
        match non_empty_optional_field(&self.command, "command must not be empty") {
            Err(e) => {
                return Err(e);
            },
            Ok(_) => {},
        }
        match &self.mount {
            None => {},
            Some(m) => match keys_and_values_non_empty_strings(m) {
                Err(e) => {
                    return Err(e);
                },
                Ok(_) => {},
            },
        }
        match non_empty_optional_field(&self.workdir, "workdir must not be empty") {
            Err(e) => {
                return Err(e);
            },
            Ok(_) => {},
        }
        match non_empty_optional_field(&self.network, "network must not be empty") {
            Err(e) => {
                return Err(e);
            },
            Ok(_) => {},
        }
        self.target_info.validate()
    }
}

impl Validate for ContainerBuild {
    /// The context and the tag, where they are there, must have content.
    open spec fn violation(&self) -> Option<ValidationErrorView> {
        first_violation(
            optional_field_violation(self.context.deep_view(), "context must not be empty"@),
            first_violation(
                optional_field_violation(self.tag.deep_view(), "tag must not be empty"@),
                first_violation(self.artifact_info.violation(), self.target_info.violation()),
            ),
        )
    }

    fn validate(&self) -> (r: Result<(), ValidationError>) {
        match non_empty_optional_field(&self.context, "context must not be empty") {
            Err(e) => {
                return Err(e);
            },
            Ok(_) => {},
        }
        match non_empty_optional_field(&self.tag, "tag must not be empty") {
            Err(e) => {
                return Err(e);
            },
            Ok(_) => {},
        }
        match self.artifact_info.validate() {
            Err(e) => Err(e),
            Ok(_) => self.target_info.validate(),
        }
    }
}

impl Validate for ExecArtifact {
    /// The command, where it is there, must have content; so must each
    /// entry of the environment.
    open spec fn violation(&self) -> Option<ValidationErrorView> {
        first_violation(
            optional_field_violation(self.command.deep_view(), "Command must not be empty"@),
            first_violation(
                optional_list_violation(self.env.deep_view()),
                first_violation(self.target_info.violation(), self.artifact_info.violation()),
            ),
        )
    }

    fn validate(&self) -> (r: Result<(), ValidationError>) {
        match non_empty_optional_field(&self.command, "Command must not be empty") {
            Err(e) => {
                return Err(e);
            },
            Ok(_) => {},
        }
        match non_empty_optional_strings(&self.env) {
            Err(e) => {
                return Err(e);
            },
            Ok(_) => {},
        }
        match self.target_info.validate() {
            Err(e) => Err(e),
            Ok(_) => self.artifact_info.validate(),
        }
    }
}

impl Validate for Command {
    /// The rule that a definition of a command breaks, those run on the
    /// host before those run in a container.
    open spec fn violation(&self) -> Option<ValidationErrorView> {
        first_violation(
            optional_table_violation(self.executable),
            optional_table_violation(self.container),
        )
    }

    fn validate(&self) -> (r: Result<(), ValidationError>) {
        match validate_table(&self.executable) {
            Err(e) => Err(e),
            Ok(_) => validate_table(&self.container),
        }
    }
}

impl Validate for Artifact {
    /// The rule that a definition of an artifact breaks, container images
    /// before files made by a command.
    open spec fn violation(&self) -> Option<ValidationErrorView> {
        first_violation(
            optional_table_violation(self.container_image),
            optional_table_violation(self.executable),
        )
    }

    fn validate(&self) -> (r: Result<(), ValidationError>) {
        match validate_table(&self.container_image) {
            Err(e) => Err(e),
            Ok(_) => validate_table(&self.executable),
        }
    }
}

impl Validate for Config {
    /// The rule that a configuration breaks: each key and value of the
    /// globals must have content, and each definition must keep its rules.
    open spec fn violation(&self) -> Option<ValidationErrorView> {
        first_violation(
            match self.globals {
                None => None,
                Some(g) => entries_violation(g.deep_view()),
            },
            first_violation(
                match self.command {
                    None => None,
                    Some(c) => c.violation(),
                },
                match self.artifact {
                    None => None,
                    Some(a) => a.violation(),
                },
            ),
        )
    }

    fn validate(&self) -> (r: Result<(), ValidationError>) {
        match &self.globals {
            None => {},
            Some(g) => match keys_and_values_non_empty_strings(g) {
                Err(e) => {
                    return Err(e);
                },
                Ok(_) => {},
            },
        }
        match &self.command {
            None => {},
            Some(c) => match c.validate() {
                Err(e) => {
                    return Err(e);
                },
                Ok(_) => {},
            },
        }
        match &self.artifact {
            None => Ok(()),
            Some(a) => a.validate(),
        }
    }
}

} // verus!
