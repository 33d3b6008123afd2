//! Commands run in a container.
use vstd::prelude::*;
use crate::config::StringMapView;
use crate::config::ContainerCommand as ConfigContainerCommand;
use crate::config::ContainerCommandView as ConfigContainerCommandView;
use crate::context::store::Context;
use crate::context::substitution::substituted;
use crate::default::{
    default_optional, default_to, default_to_with_default, preferred, preferred_optional,
};
use crate::error::{in_context, text_result, Error, ErrorView};
use crate::job::{job_result, world_of, Job, JobView, World};
use crate::name::name_text;
use crate::outputs::OutputsManager;
use crate::rand::{is_random_name, rand_string};
use crate::shell::{
    escape_and_prepend, escape_and_prepend_vec, escape_string, escaped, expanded_and_prepended,
    expanded_and_prepended_list,
};
use crate::text::{concat, concat3, lemma_deep_view_index, lemma_deep_view_push};
use crate::table::{clone_string_map, merge_string_maps, merged, StringMap, Table};
use crate::target::{CommandInfo, TargetInfo, TargetInfoView};
use crate::targets::command::exec::{inherited_list, or_empty};
use crate::text::{clone_option_string, clone_strings};
use crate::validate::{
    entries_violation, field_violation, first_violation, keys_and_values_non_empty_strings,
    list_violation, non_empty_field, non_empty_optional_field, non_empty_strings,
    optional_field_violation, ValidationError, ValidationErrorView, violation_of,
};

verus! {

/// The model of a command run in a container.
pub struct ContainerCommandView {
    pub image: Seq<char>,
    pub env: Seq<Seq<char>>,
    pub command: Option<Seq<char>>,
    pub mount: StringMapView,
    pub workdir: Option<Seq<char>>,
    pub network: Option<Seq<char>>,
    pub create_network: bool,
    pub default_args: Option<Seq<char>>,
    pub target_info: TargetInfoView,
    pub command_info: CommandInfo,
}

/// A command run in a container: the image, what to run in it and how the
/// container is set up.
#[derive(Debug)]
pub struct ContainerCommand {
    pub image: String,
    pub env: Vec<String>,
    pub command: Option<String>,
    pub mount: StringMap,
    pub workdir: Option<String>,
    pub network: Option<String>,
    pub create_network: bool,
    pub default_args: Option<String>,
    pub target_info: TargetInfo,
    pub command_info: CommandInfo,
}

impl DeepView for ContainerCommand {
    type V = ContainerCommandView;

    open spec fn deep_view(&self) -> ContainerCommandView {
        ContainerCommandView {
            image: self.image@,
            env: self.env.deep_view(),
            command: self.command.deep_view(),
            mount: self.mount.deep_view(),
            workdir: self.workdir.deep_view(),
            network: self.network.deep_view(),
            create_network: self.create_network,
            default_args: self.default_args.deep_view(),
            target_info: self.target_info.deep_view(),
            command_info: self.command_info,
        }
    }
}

impl Clone for ContainerCommand {
    fn clone(&self) -> (r: Self)
        ensures
            r.deep_view() == self.deep_view(),
    {
        ContainerCommand {
            image: self.image.clone(),
            env: clone_strings(&self.env),
            command: clone_option_string(&self.command),
            mount: clone_string_map(&self.mount),
            workdir: clone_option_string(&self.workdir),
            network: clone_option_string(&self.network),
            create_network: self.create_network,
            default_args: clone_option_string(&self.default_args),
            target_info: self.target_info.clone(),
            command_info: self.command_info,
        }
    }
}

/// The entries of a table that may be absent.
pub open spec fn or_no_entries(m: Option<StringMapView>) -> StringMapView {
    match m {
        Some(t) => t,
        None => Seq::empty(),
    }
}

/// The command that `defn` defines on top of `base`. A text and a switch of
/// its own come first, then the base's; the environment is the base's
/// followed by its own; the mounts are the base's with its own laid on top.
pub open spec fn container_command_of(
    target_info: TargetInfoView,
    command_info: CommandInfo,
    defn: ConfigContainerCommandView,
    base: Option<ContainerCommandView>,
) -> ContainerCommandView {
    ContainerCommandView {
        image: preferred(
            defn.image,
            match base {
                Some(b) => Some(b.image),
                None => None,
            },
            Seq::empty(),
        ),
        env: match base {
            Some(b) => b.env,
            None => Seq::empty(),
        } + or_empty(defn.env),
        command: preferred_optional(
            defn.command,
            match base {
                Some(b) => Some(b.command),
                None => None,
            },
        ),
        mount: merged(
            match base {
                Some(b) => b.mount,
                None => Seq::empty(),
            },
            or_no_entries(defn.mount),
        ),
        workdir: preferred_optional(
            defn.workdir,
            match base {
                Some(b) => Some(b.workdir),
                None => None,
            },
        ),
        network: preferred_optional(
            defn.network,
            match base {
                Some(b) => Some(b.network),
                None => None,
            },
        ),
        create_network: preferred(
            defn.create_network,
            match base {
                Some(b) => Some(b.create_network),
                None => None,
            },
            false,
        ),
        default_args: preferred_optional(
            defn.default_args,
            match base {
                Some(b) => Some(b.default_args),
                None => None,
            },
        ),
        target_info,
        command_info,
    }
}

/// The rule that a command run in a container breaks, if any. The image
/// must have content; so must each entry of the environment, the command,
/// the working directory and the network where they are there, and each key
/// and value of the mounts.
pub open spec fn container_command_violation(c: ContainerCommandView) -> Option<
    ValidationErrorView,
> {
    first_violation(
        field_violation(c.image, "image must not be empty"@),
        first_violation(
            list_violation(c.env),
            first_violation(
                optional_field_violation(c.command, "command must not be empty"@),
                first_violation(
                    entries_violation(c.mount),
                    first_violation(
                        optional_field_violation(c.workdir, "workdir must not be empty"@),
                        optional_field_violation(c.network, "network must not be empty"@),
                    ),
                ),
            ),
        ),
    )
}

/// `base` with `own` laid on top, where each may be absent.
pub fn inherited_map(base: Option<&StringMap>, own: &Option<StringMap>) -> (r: StringMap)
    ensures
        r.deep_view() == merged(
            match base {
                Some(b) => b.deep_view(),
                None => Seq::empty(),
            },
            or_no_entries(own.deep_view()),
        ),
{
    let empty: StringMap = Table::new();
    let first = match base {
        Some(b) => b,
        None => &empty,
    };
    match own {
        Some(o) => merge_string_maps(first, o),
        None => merge_string_maps(first, &empty),
    }
}

impl ContainerCommand {
    /// The command that `defn` defines on top of `base`.
    pub fn from_config(
        target_info: TargetInfo,
        command_info: CommandInfo,
        defn: &ConfigContainerCommand,
        base: Option<&Self>,
    ) -> (r: Self)
        ensures
            r.deep_view() == container_command_of(
                target_info.deep_view(),
                command_info,
                defn.deep_view(),
                base.deep_view(),
            ),
    {
        match base {
            Some(b) => ContainerCommand {
                image: default_to(clone_option_string(&defn.image), Some(b.image.clone())),
                env: inherited_list(Some(&b.env), &defn.env),
                command: default_optional(
                    clone_option_string(&defn.command),
                    Some(clone_option_string(&b.command)),
                ),
                mount: inherited_map(Some(&b.mount), &defn.mount),
                workdir: default_optional(
                    clone_option_string(&defn.workdir),
                    Some(clone_option_string(&b.workdir)),
                ),
                network: default_optional(
                    clone_option_string(&defn.network),
                    Some(clone_option_string(&b.network)),
                ),
                create_network: default_to_with_default(
                    defn.create_network,
                    Some(b.create_network),
                    false,
                ),
                default_args: default_optional(
                    clone_option_string(&defn.default_args),
                    Some(clone_option_string(&b.default_args)),
                ),
                target_info,
                command_info,
            },
            None => ContainerCommand {
                image: default_to(clone_option_string(&defn.image), None),
                env: inherited_list(None, &defn.env),
                command: default_optional(clone_option_string(&defn.command), None),
                mount: inherited_map(None, &defn.mount),
                workdir: default_optional(clone_option_string(&defn.workdir), None),
                network: default_optional(clone_option_string(&defn.network), None),
                create_network: default_to_with_default(defn.create_network, None, false),
                default_args: default_optional(clone_option_string(&defn.default_args), None),
                target_info,
                command_info,
            },
        }
    }

    /// Checks the rules on the record.
    pub fn validate(&self) -> (r: Result<(), ValidationError>)
        ensures
            violation_of(r) == container_command_violation(self.deep_view()),
    {
        match non_empty_field(&self.image, "image must not be empty") {
            Err(e) => {
                return Err(e);
            },
            Ok(_) => {},
        }
        match non_empty_strings(&self.env) {
            Err(e) => {
                return Err(e);
            },
            Ok(_) => {},
        }
        match non_empty_optional_field(&self.command, "command must not be empty") {
            Err(e) => {
                return Err(e);
            },
            Ok(_) => {},
        }
        match keys_and_values_non_empty_strings(&self.mount) {
            Err(e) => {
                return Err(e);
            },
            Ok(_) => {},
        }
        match non_empty_optional_field(&self.workdir, "workdir must not be empty") {
            Err(e) => {
                return Err(e);
            },
            Ok(_) => {},
        }
        non_empty_optional_field(&self.network, "network must not be empty")
    }
}

/// Expands a leading tilde with `shellexpand::tilde`. What a tilde stands
/// for is up to the environment; a text that does not begin with one comes
/// back as it is.
#[verifier::external_body]
fn expand_tilde(path: &str) -> (r: String)
    ensures
        !(path@.len() > 0 && path@[0] == '~') ==> r@ == path@,
{
    shellexpand::tilde(path).into_owned()
}

/// Whether `text` is the mount argument of `entry`: the host path, a
/// colon, and the path in the container, where the host path is the key of
/// the entry with a leading tilde, if it has one, expanded.
pub open spec fn is_mount_argument(entry: (Seq<char>, Seq<char>), text: Seq<char>) -> bool {
    exists|host: Seq<char>|
        {
            &&& #[trigger] mount_argument(host, entry.1) == text
            &&& !(entry.0.len() > 0 && entry.0[0] == '~') ==> host == entry.0
        }
}

/// The mount argument for the host path `host` and the path `guest` in the container.
pub open spec fn mount_argument(host: Seq<char>, guest: Seq<char>) -> Seq<char> {
    host + ":"@ + guest
}

/// Whether `mounts` are the mount arguments of the entries of `mount`, in order.
pub open spec fn are_mount_arguments(mount: StringMapView, mounts: Seq<Seq<char>>) -> bool {
    mounts.len() == mount.len() && forall|i: int|
        0 <= i < mount.len() ==> is_mount_argument(mount[i], #[trigger] mounts[i])
}

/// The mount arguments of the entries of `mount`, in order.
pub fn mount_arguments(mount: &StringMap) -> (r: Vec<String>)
    ensures
        are_mount_arguments(mount.deep_view(), r.deep_view()),
{
    let mut out: Vec<String> = Vec::new();
    let mut i: usize = 0;
    proof {
        lemma_deep_view_index(out);
    }
    while i < mount.entries.len()
        invariant
            i <= mount.entries.len(),
            out@.len() == i,
            out.deep_view().len() == i,
            forall|k: int|
                0 <= k < i ==> is_mount_argument(mount.deep_view()[k], #[trigger] out.deep_view()[k]),
        decreases mount.entries.len() - i,
    {
        proof {
            lemma_deep_view_index(mount.entries);
        }
        let host = expand_tilde(mount.entries[i].0.as_str());
        let text = concat3(host.as_str(), ":", mount.entries[i].1.as_str());
        let ghost before = out;
        out.push(text);
        proof {
            lemma_deep_view_push(before, out, text);
            assert(mount_argument(host@, mount.deep_view()[i as int].1) == text@);
            assert(is_mount_argument(mount.deep_view()[i as int], text@));
            assert forall|k: int| 0 <= k < i + 1 implies is_mount_argument(
                mount.deep_view()[k],
                #[trigger] out.deep_view()[k],
            ) by {
                if k < i {
                    assert(out.deep_view()[k] == before.deep_view()[k]);
                }
            }
        }
        i += 1;
    }
    out
}

/// The model of how to run a container.
pub struct ContainerRunInfoView {
    pub pre_commands: Seq<Seq<char>>,
    pub post_stop_commands: Seq<Seq<char>>,
    pub command: Seq<char>,
    pub name: Seq<char>,
    pub network: Option<Seq<char>>,
}

/// How to run a container: what to run before, what to run once it has
/// stopped, the command line, the name of the container and its network.
#[derive(Debug)]
pub struct ContainerRunInfo {
    pub pre_commands: Vec<String>,
    pub post_stop_commands: Vec<String>,
    pub command: String,
    pub name: String,
    pub network: Option<String>,
}

impl DeepView for ContainerRunInfo {
    type V = ContainerRunInfoView;

    open spec fn deep_view(&self) -> ContainerRunInfoView {
        ContainerRunInfoView {
            pre_commands: self.pre_commands.deep_view(),
            post_stop_commands: self.post_stop_commands.deep_view(),
            command: self.command@,
            name: self.name@,
            network: self.network.deep_view(),
        }
    }
}

/// What the container runs: its command expanded for the arguments, or
/// nothing where it has no command of its own.
pub open spec fn container_command_text(c: ContainerCommandView, world: World, args: Seq<Seq<char>>) -> Result<
    Seq<char>,
    ErrorView,
> {
    match c.command {
        None => Ok(Seq::empty()),
        Some(command) => substituted(
            command,
            world.variables,
            world.globals,
            world.outputs,
            c.target_info.name,
            Some(args),
            c.default_args,
        ),
    }
}

/// Whether a network is made for the container: when it names none and asks for one.
pub open spec fn creates_network(c: ContainerCommandView) -> bool {
    c.network is None && c.create_network
}

/// The network of the container: the one it names, else its own where one is made for it.
pub open spec fn network_of(c: ContainerCommandView, name: Seq<char>) -> Option<Seq<char>> {
    if creates_network(c) {
        Some(name)
    } else {
        c.network
    }
}

/// The command line that runs the container.
pub open spec fn run_line(
    name: Seq<char>,
    env: Seq<char>,
    mount: Seq<char>,
    workdir: Seq<char>,
    network: Seq<char>,
    image: Seq<char>,
    command: Seq<char>,
) -> Seq<char> {
    "podman run --name "@ + name + " --rm "@ + env + " "@ + mount + " "@ + workdir + " "@ + network
        + " "@ + image + " "@ + command
}

/// How to run the container `c` under the name `name` with the arguments
/// `args` and the mount arguments `mounts`. Every value is expanded and
/// quoted for the shell; a network of its own is made before and removed
/// after.
pub open spec fn container_run_info(
    c: ContainerCommandView,
    world: World,
    name: Seq<char>,
    args: Seq<Seq<char>>,
    mounts: Seq<Seq<char>>,
) -> Result<ContainerRunInfoView, ErrorView> {
    let this = c.target_info.name;
    match expanded_and_prepended_list(
        world.variables,
        world.globals,
        world.outputs,
        this,
        "-e"@,
        Some(c.env),
    ) {
        Err(e) => Err(in_context("Failed to escape env"@, e)),
        Ok(env) => match expanded_and_prepended_list(
            world.variables,
            world.globals,
            world.outputs,
            this,
            "-v"@,
            Some(mounts),
        ) {
            Err(e) => Err(in_context("Failed to escape mount"@, e)),
            Ok(mount) => match expanded_and_prepended(
                world.variables,
                world.globals,
                world.outputs,
                this,
                "-w"@,
                c.workdir,
            ) {
                Err(e) => Err(in_context("Failed to escape workdir"@, e)),
                Ok(workdir) => match container_command_text(c, world, args) {
                    Err(e) => Err(in_context("Failed to escape command"@, e)),
                    Ok(command) => match substituted(
                        c.image,
                        world.variables,
                        world.globals,
                        world.outputs,
                        this,
                        None,
                        None,
                    ) {
                        Err(e) => Err(e),
                        Ok(plain_image) => match escaped(plain_image) {
                            Err(e) => Err(e),
                            Ok(image) => match expanded_and_prepended(
                                world.variables,
                                world.globals,
                                world.outputs,
                                this,
                                "--network"@,
                                network_of(c, name),
                            ) {
                                Err(e) => Err(in_context("Failed to escape network"@, e)),
                                Ok(network) => match escaped(name) {
                                    Err(e) => Err(e),
                                    Ok(quoted) => Ok(
                                        ContainerRunInfoView {
                                            pre_commands: if creates_network(c) {
                                                seq!["podman network create "@ + quoted]
                                            } else {
                                                Seq::empty()
                                            },
                                            post_stop_commands: if creates_network(c) {
                                                seq!["podman network rm "@ + quoted]
                                            } else {
                                                Seq::empty()
                                            },
                                            command: run_line(
                                                quoted,
                                                env,
                                                mount,
                                                workdir,
                                                network,
                                                image,
                                                command,
                                            ),
                                            name,
                                            network: network_of(c, name),
                                        },
                                    ),
                                },
                            },
                        },
                    },
                },
            },
        },
    }
}

/// The model of a result that holds how to run a container.
pub open spec fn run_info_result(r: Result<ContainerRunInfo, Error>) -> Result<
    ContainerRunInfoView,
    ErrorView,
> {
    match r {
        Ok(i) => Ok(i.deep_view()),
        Err(e) => Err(e@),
    }
}

/// What the container runs.
pub fn container_command_string(
    container: &ContainerCommand,
    context: &Context,
    outputs: &OutputsManager,
    args: Vec<String>,
) -> (r: Result<String, Error>)
    ensures
        text_result(r) == container_command_text(
            container.deep_view(),
            world_of(context, outputs),
            args.deep_view(),
        ),
{
    match &container.command {
        None => Ok(String::new()),
        Some(command) => context.resolve_substitutions_with_args(
            command.as_str(),
            &container.target_info.name,
            outputs,
            args,
            &container.default_args,
        ),
    }
}

/// How to run the container under the name `container_name` with the
/// arguments `args` and the mount arguments `mounts`.
pub fn container_run_command_with_mounts(
    container: &ContainerCommand,
    context: &Context,
    outputs: &OutputsManager,
    container_name: &str,
    args: Vec<String>,
    mounts: Vec<String>,
) -> (r: Result<ContainerRunInfo, Error>)
    ensures
        run_info_result(r) == container_run_info(
            container.deep_view(),
            world_of(context, outputs),
            container_name@,
            args.deep_view(),
            mounts.deep_view(),
        ),
{
    let this = &container.target_info.name;
    let env = match escape_and_prepend_vec(
        this,
        context,
        outputs,
        "-e",
        &Some(clone_strings(&container.env)),
    ) {
        Err(e) => {
            return Err(e.context("Failed to escape env"));
        },
        Ok(t) => t,
    };
    let mount = match escape_and_prepend_vec(this, context, outputs, "-v", &Some(mounts)) {
        Err(e) => {
            return Err(e.context("Failed to escape mount"));
        },
        Ok(t) => t,
    };
    let workdir = match escape_and_prepend(this, context, outputs, "-w", &container.workdir) {
        Err(e) => {
            return Err(e.context("Failed to escape workdir"));
        },
        Ok(t) => t,
    };
    let command = match container_command_string(container, context, outputs, args) {
        Err(e) => {
            return Err(e.context("Failed to escape command"));
        },
        Ok(t) => t,
    };
    let plain_image = match context.resolve_substitutions(container.image.as_str(), this, outputs) {
        Err(e) => {
            return Err(e);
        },
        Ok(t) => t,
    };
    let image = match escape_string(plain_image.as_str()) {
        Err(e) => {
            return Err(e);
        },
        Ok(t) => t,
    };
    let creates = container.network.is_none() && container.create_network;
    let network: Option<String> = if creates {
        Some(String::from_str(container_name))
    } else {
        clone_option_string(&container.network)
    };
    let network_text = match escape_and_prepend(this, context, outputs, "--network", &network) {
        Err(e) => {
            return Err(e.context("Failed to escape network"));
        },
        Ok(t) => t,
    };
    let quoted = match escape_string(container_name) {
        Err(e) => {
            return Err(e);
        },
        Ok(t) => t,
    };
    let mut pre_commands: Vec<String> = Vec::new();
    let mut post_stop_commands: Vec<String> = Vec::new();
    assert(pre_commands.deep_view() =~= Seq::<Seq<char>>::empty());
    assert(post_stop_commands.deep_view() =~= Seq::<Seq<char>>::empty());
    if creates {
        let make = concat("podman network create ", quoted.as_str());
        let unmake = concat("podman network rm ", quoted.as_str());
        pre_commands.push(make);
        post_stop_commands.push(unmake);
        assert(pre_commands.deep_view() =~= seq![make@]);
        assert(post_stop_commands.deep_view() =~= seq![unmake@]);
    }
    let mut line = concat3("podman run --name ", quoted.as_str(), " --rm ");
    line.append(env.as_str());
    line.append(" ");
    line.append(mount.as_str());
    line.append(" ");
    line.append(workdir.as_str());
    line.append(" ");
    line.append(network_text.as_str());
    line.append(" ");
    line.append(image.as_str());
    line.append(" ");
    line.append(command.as_str());
    Ok(
        ContainerRunInfo {
            pre_commands,
            post_stop_commands,
            command: line,
            name: String::from_str(container_name),
            network,
        },
    )
}

/// How to run the container under the name `container_name` with the
/// arguments `args`. What a tilde in a host path of a mount stands for is
/// up to the environment; all else is fixed by the arguments.
pub fn container_run_command(
    container: &ContainerCommand,
    context: &Context,
    outputs: &OutputsManager,
    container_name: &str,
    args: Vec<String>,
) -> (r: Result<ContainerRunInfo, Error>)
    ensures
        exists|mounts: Seq<Seq<char>>|
            {
                &&& are_mount_arguments(container.deep_view().mount, mounts)
                &&& run_info_result(r) == #[trigger] container_run_info(
                    container.deep_view(),
                    world_of(context, outputs),
                    container_name@,
                    args.deep_view(),
                    mounts,
                )
            },
{
    let mounts = mount_arguments(&container.mount);
    container_run_command_with_mounts(container, context, outputs, container_name, args, mounts)
}

/// The name of a container of `c`: the name of the target, a hyphen, and a suffix.
pub open spec fn container_name(c: ContainerCommandView, suffix: Seq<char>) -> Seq<char> {
    name_text(c.target_info.name) + "-"@ + suffix
}

/// How an error in putting the command line of the container together is introduced.
pub open spec fn while_assembling(c: ContainerCommandView) -> Seq<char> {
    "Error escaping podman command for <"@ + name_text(c.target_info.name) + ">"@
}

/// The entries for the cleanup stack that remove the network of the container.
pub open spec fn network_cleanups(commands: Seq<Seq<char>>) -> Seq<(Seq<char>, Seq<char>)> {
    Seq::new(commands.len(), |i: int| ("clean_up_network"@, commands[i]))
}

/// The command that stops the container `name`.
pub open spec fn stop_line(name: Seq<char>) -> Seq<char> {
    "podman stop -i "@ + crate::shell::shell_quoted(name)
}

/// The job of running the container in the foreground under the name
/// `name`: while it runs, the cleanup stack holds what removes its
/// network and, on top, what stops it.
pub open spec fn container_run_job(
    c: ContainerCommandView,
    world: World,
    name: Seq<char>,
    args: Seq<Seq<char>>,
    mounts: Seq<Seq<char>>,
) -> Result<JobView, ErrorView> {
    match container_run_info(c, world, name, args, mounts) {
        Err(e) => Err(in_context(while_assembling(c), e)),
        Ok(info) => Ok(
            JobView {
                pre_commands: info.pre_commands,
                command: info.command,
                env: Seq::empty(),
                cleanups: network_cleanups(info.post_stop_commands).push(
                    ("stop_container"@, stop_line(name)),
                ),
                outputs: Seq::empty(),
                capture: None,
            },
        ),
    }
}

/// What a started container leaves in the outputs: its name, and its network if it has one.
pub open spec fn container_outputs(info: ContainerRunInfoView) -> Seq<(Seq<char>, Seq<char>)> {
    match info.network {
        Some(n) => seq![("name"@, info.name), ("network"@, n)],
        None => seq![("name"@, info.name)],
    }
}

/// The job of starting the container in the background under the name `name`.
pub open spec fn container_start_job(
    c: ContainerCommandView,
    world: World,
    name: Seq<char>,
    args: Seq<Seq<char>>,
    mounts: Seq<Seq<char>>,
) -> Result<JobView, ErrorView> {
    match container_run_info(c, world, name, args, mounts) {
        Err(e) => Err(in_context(while_assembling(c), e)),
        Ok(info) => Ok(
            JobView {
                pre_commands: info.pre_commands,
                command: info.command,
                env: Seq::empty(),
                cleanups: Seq::empty(),
                outputs: container_outputs(info),
                capture: None,
            },
        ),
    }
}

/// Whether `r` is a job of running the container: the job for some random
/// name and for the mount arguments of its mounts.
pub open spec fn is_container_run(
    c: ContainerCommandView,
    world: World,
    args: Seq<Seq<char>>,
    r: Result<JobView, ErrorView>,
) -> bool {
    exists|suffix: Seq<char>, mounts: Seq<Seq<char>>|
        {
            &&& is_random_name(suffix, 8)
            &&& are_mount_arguments(c.mount, mounts)
            &&& r == #[trigger] container_run_job(c, world, container_name(c, suffix), args, mounts)
        }
}

/// Whether `r` is a job of starting the container: the job for some random
/// name and for the mount arguments of its mounts.
pub open spec fn is_container_start(
    c: ContainerCommandView,
    world: World,
    args: Seq<Seq<char>>,
    r: Result<JobView, ErrorView>,
) -> bool {
    exists|suffix: Seq<char>, mounts: Seq<Seq<char>>|
        {
            &&& is_random_name(suffix, 8)
            &&& are_mount_arguments(c.mount, mounts)
            &&& r == #[trigger] container_start_job(
                c,
                world,
                container_name(c, suffix),
                args,
                mounts,
            )
        }
}

/// The entries for the cleanup stack that remove the network of the container.
pub fn make_network_cleanups(commands: &Vec<String>) -> (r: Vec<(String, String)>)
    ensures
        r.deep_view() == network_cleanups(commands.deep_view()),
{
    let mut out: Vec<(String, String)> = Vec::new();
    let mut i: usize = 0;
    let ghost all = network_cleanups(commands.deep_view());
    assert(out.deep_view() =~= all.take(0));
    while i < commands.len()
        invariant
            i <= commands.len(),
            all == network_cleanups(commands.deep_view()),
            out.deep_view() == all.take(i as int),
        decreases commands.len() - i,
    {
        let ghost before = out;
        let entry = (String::from_str("clean_up_network"), commands[i].clone());
        out.push(entry);
        proof {
            lemma_deep_view_index(*commands);
            lemma_deep_view_push(before, out, entry);
            assert(all.take(i as int + 1) =~= all.take(i as int).push(all[i as int]));
        }
        i += 1;
    }
    proof {
        lemma_deep_view_index(*commands);
        assert(all.take(commands.len() as int) =~= all);
    }
    out
}

impl ContainerCommand {
    /// How errors in putting the command line together are introduced.
    pub fn assembling_prefix(&self) -> (s: String)
        ensures
            s@ == while_assembling(self.deep_view()),
    {
        let text = self.target_info.name.to_string();
        concat3("Error escaping podman command for <", text.as_str(), ">")
    }

    /// The job of running the container in the foreground under the name
    /// `container_name` with the mount arguments `mounts`.
    pub fn run_job(
        &self,
        context: &Context,
        outputs: &OutputsManager,
        container_name: &str,
        args: Vec<String>,
        mounts: Vec<String>,
    ) -> (r: Result<Job, Error>)
        ensures
            job_result(r) == container_run_job(
                self.deep_view(),
                world_of(context, outputs),
                container_name@,
                args.deep_view(),
                mounts.deep_view(),
            ),
    {
        match container_run_command_with_mounts(self, context, outputs, container_name, args, mounts) {
            Err(e) => {
                let prefix = self.assembling_prefix();
                Err(e.context(prefix.as_str()))
            },
            Ok(info) => {
                let quoted = match escape_string(container_name) {
                    Ok(q) => q,
                    Err(e) => {
                        return Err(e);
                    },
                };
                let mut cleanups = make_network_cleanups(&info.post_stop_commands);
                let ghost before = cleanups;
                let entry = (
                    String::from_str("stop_container"),
                    concat("podman stop -i ", quoted.as_str()),
                );
                cleanups.push(entry);
                proof {
                    lemma_deep_view_push(before, cleanups, entry);
                }
                let j = Job {
                    pre_commands: info.pre_commands,
                    command: info.command,
                    env: Vec::new(),
                    cleanups,
                    outputs: Vec::new(),
                    capture: None,
                };
                assert(j.env.deep_view() =~= Seq::<Seq<char>>::empty());
                assert(j.outputs.deep_view() =~= Seq::<(Seq<char>, Seq<char>)>::empty());
                Ok(j)
            },
        }
    }

    /// The job of starting the container in the background under the name
    /// `container_name` with the mount arguments `mounts`.
    pub fn start_job(
        &self,
        context: &Context,
        outputs: &OutputsManager,
        container_name: &str,
        args: Vec<String>,
        mounts: Vec<String>,
    ) -> (r: Result<Job, Error>)
        ensures
            job_result(r) == container_start_job(
                self.deep_view(),
                world_of(context, outputs),
                container_name@,
                args.deep_view(),
                mounts.deep_view(),
            ),
    {
        match container_run_command_with_mounts(self, context, outputs, container_name, args, mounts) {
            Err(e) => {
                let prefix = self.assembling_prefix();
                Err(e.context(prefix.as_str()))
            },
            Ok(info) => {
                let mut noted: Vec<(String, String)> = Vec::new();
                let first = (String::from_str("name"), info.name.clone());
                noted.push(first);
                assert(noted.deep_view() =~= seq![("name"@, info.name@)]);
                match &info.network {
                    Some(n) => {
                        let second = (String::from_str("network"), n.clone());
                        noted.push(second);
                        assert(noted.deep_view() =~= seq![("name"@, info.name@), ("network"@, n@)]);
                    },
                    None => {},
                }
                let j = Job {
                    pre_commands: info.pre_commands,
                    command: info.command,
                    env: Vec::new(),
                    cleanups: Vec::new(),
                    outputs: noted,
                    capture: None,
                };
                assert(j.env.deep_view() =~= Seq::<Seq<char>>::empty());
                assert(j.cleanups.deep_view() =~= Seq::<(Seq<char>, Seq<char>)>::empty());
                Ok(j)
            },
        }
    }

    /// A name for a container of this command: the name of the target, a
    /// hyphen, and eight random characters.
    pub fn fresh_name(&self) -> (s: String)
        ensures
            exists|suffix: Seq<char>|
                is_random_name(suffix, 8) && s@ == #[trigger] container_name(
                    self.deep_view(),
                    suffix,
                ),
    {
        let text = self.target_info.name.to_string();
        let suffix = rand_string(8);
        let s = concat3(text.as_str(), "-", suffix.as_str());
        assert(s@ == container_name(self.deep_view(), suffix@));
        s
    }
}

} // verus!
