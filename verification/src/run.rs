//! Running a built node: the checks before anything is spawned, and the steps
//! from the spawned process to a committed, paired instance.
pub mod drain;
pub mod machine;
pub mod signals;
pub mod watch;

use crate::common::{panic_message, panic_text, PanicPayload};
use crate::env::{
    env_problem, inject_node_runtime_env, inject_rust_build_env, is_fine_key, is_fine_value,
    lemma_env_problem, set_if_missing, sets, setting_if_missing_keeps_what_is_set,
    validate_goal_env_vars, EnvError, EnvProblem, PeppygenLanguage, PEPPY_APPTAINER_BIN_ENV_VAR,
    PEPPY_NODE_NAME_ENV_VAR, PEPPY_NODE_TAG_ENV_VAR,
};
use crate::mounts::{
    first_problem, mounts_resolve, resolve_mounts, AnyType, MountError, MountProblem,
};
use crate::pairing::{PairTarget, PairingDep};
use crate::text::{join, joined, mentions, str_eq, texts, trimmed, what_is_written_is_mentioned};
use vstd::prelude::*;
use vstd::string::*;

verus! {

/// How nodes reach each other: directly, or through the router.
#[derive(Clone, Copy, Debug, PartialEq, Eq, Structural)]
pub enum Mode {
    Peer,
    Router,
}

/// The sizes of a node's message buffers.
#[derive(Clone, Copy, Debug, PartialEq, Eq, Structural)]
pub struct PeerConfig {
    pub standard_buffer_size: u64,
    pub high_throughput_buffer_size: u64,
}

impl Default for PeerConfig {
    fn default() -> (r: Self)
        ensures
            r.standard_buffer_size == 128,
            r.high_throughput_buffer_size == 1024,
    {
        PeerConfig { standard_buffer_size: 128, high_throughput_buffer_size: 1024 }
    }
}

/// What a daemon resolves once and ships to every node that it spawns.
pub struct DaemonDefaults {
    /// How nodes reach each other.
    pub messaging_mode: Mode,
    /// The sizes of their message buffers.
    pub peer_buffer: PeerConfig,
    /// How long a node tolerates a silent daemon, in seconds.
    pub daemon_grace_secs: u64,
    /// How long a node's shutdown hooks may take, in seconds.
    pub shutdown_grace_secs: u64,
    /// The namespace under which the daemon and its nodes meet.
    pub organization_namespace: String,
}

impl DaemonDefaults {
    /// The defaults that a daemon's configuration and its credentials give.
    pub fn from_peppy_config(
        mode: Mode,
        peer: PeerConfig,
        daemon_grace_secs: u64,
        shutdown_grace_secs: u64,
        organization_namespace: String,
    ) -> (r: Self)
        ensures
            r == (DaemonDefaults {
                messaging_mode: mode,
                peer_buffer: peer,
                daemon_grace_secs,
                shutdown_grace_secs,
                organization_namespace,
            }),
    {
        DaemonDefaults {
            messaging_mode: mode,
            peer_buffer: peer,
            daemon_grace_secs,
            shutdown_grace_secs,
            organization_namespace,
        }
    }
}

/// How a node finds its peers.
pub struct Discovery {
    pub gossip: bool,
    pub standard_buffer_size: u64,
    pub high_throughput_buffer_size: u64,
    pub organization_id: Option<String>,
}

/// How long a node waits for its daemon and for its own hooks, in seconds.
#[derive(Clone, Copy, Debug, PartialEq, Eq, Structural)]
pub struct Lifecycle {
    pub daemon_grace_secs: u64,
    pub shutdown_grace_secs: u64,
}

/// The part of a node's launch configuration that the daemon decides.
pub struct LaunchConfig {
    pub messaging_host: String,
    pub discovery: Discovery,
    pub lifecycle: Lifecycle,
}

/// Applies the daemon's defaults to a launch configuration. A container in a
/// network namespace of its own cannot form direct links, so it goes through
/// the router even where nodes otherwise meet directly.
pub fn apply_daemon_defaults(
    config: &mut LaunchConfig,
    defaults: &DaemonDefaults,
    container_separate_ns: bool,
)
    ensures
        final(config).messaging_host == old(config).messaging_host,
        final(config).discovery.gossip == (defaults.messaging_mode == Mode::Peer
            && !container_separate_ns),
        final(config).discovery.standard_buffer_size
            == defaults.peer_buffer.standard_buffer_size,
        final(config).discovery.high_throughput_buffer_size
            == defaults.peer_buffer.high_throughput_buffer_size,
        final(config).discovery.organization_id matches Some(id) && id@
            == defaults.organization_namespace@,
        final(config).lifecycle == (Lifecycle {
            daemon_grace_secs: defaults.daemon_grace_secs,
            shutdown_grace_secs: defaults.shutdown_grace_secs,
        }),
{
    let peer: bool = match defaults.messaging_mode {
        Mode::Peer => true,
        Mode::Router => false,
    };
    config.discovery = Discovery {
        gossip: peer && !container_separate_ns,
        standard_buffer_size: defaults.peer_buffer.standard_buffer_size,
        high_throughput_buffer_size: defaults.peer_buffer.high_throughput_buffer_size,
        organization_id: Some(defaults.organization_namespace.clone()),
    };
    config.lifecycle = Lifecycle {
        daemon_grace_secs: defaults.daemon_grace_secs,
        shutdown_grace_secs: defaults.shutdown_grace_secs,
    };
}

/// Makes a launch configuration the one that the spawned process receives: the
/// daemon's defaults, and the gateway as messaging host where the container
/// reaches the daemon only through one.
pub fn finish_launch_config(
    config: &mut LaunchConfig,
    defaults: &DaemonDefaults,
    gateway: Option<String>,
)
    ensures
        final(config).messaging_host@ == match gateway {
            Some(host) => host@,
            None => old(config).messaging_host@,
        },
        final(config).discovery.gossip == (defaults.messaging_mode == Mode::Peer
            && gateway is None),
        final(config).discovery.standard_buffer_size
            == defaults.peer_buffer.standard_buffer_size,
        final(config).discovery.high_throughput_buffer_size
            == defaults.peer_buffer.high_throughput_buffer_size,
        final(config).discovery.organization_id matches Some(id) && id@
            == defaults.organization_namespace@,
        final(config).lifecycle == (Lifecycle {
            daemon_grace_secs: defaults.daemon_grace_secs,
            shutdown_grace_secs: defaults.shutdown_grace_secs,
        }),
{
    apply_daemon_defaults(config, defaults, gateway.is_some());
    if let Some(host) = gateway {
        config.messaging_host = host;
    }
}

/// What goal and runtime configuration say of a run's identity.
pub struct RunIdentity {
    pub node_name: String,
    pub tag: String,
    pub core_node: String,
}

/// The refusal of a goal whose runtime configuration is of another identity.
pub open spec fn mismatch_text(asked: RunIdentity, given: RunIdentity) -> Seq<char> {
    "runtime_config identity mismatch: goal requested `"@ + asked.node_name@ + ":"@ + asked.tag@
        + "` on core node `"@ + asked.core_node@ + "`, but runtime_config is `"@
        + given.node_name@ + ":"@ + given.tag@ + "` bound to `"@ + given.core_node@ + "`"@
}

/// Refuses a goal whose runtime configuration names another node, another tag
/// or another core node than the goal itself does.
pub fn check_identity(asked: &RunIdentity, given: &RunIdentity) -> (r: Result<(), String>)
    ensures
        match r {
            Ok(_) => given.node_name@ == asked.node_name@ && given.tag@ == asked.tag@
                && given.core_node@ == asked.core_node@,
            Err(text) => (given.node_name@ != asked.node_name@ || given.tag@ != asked.tag@
                || given.core_node@ != asked.core_node@) && text@ == mismatch_text(*asked, *given),
        },
{
    if str_eq(given.node_name.as_str(), asked.node_name.as_str()) && str_eq(
        given.tag.as_str(),
        asked.tag.as_str(),
    ) && str_eq(given.core_node.as_str(), asked.core_node.as_str()) {
        return Ok(());
    }
    let mut text: String = "runtime_config identity mismatch: goal requested `".to_owned();
    text.append(asked.node_name.as_str());
    text.append(":");
    text.append(asked.tag.as_str());
    text.append("` on core node `");
    text.append(asked.core_node.as_str());
    text.append("`, but runtime_config is `");
    text.append(given.node_name.as_str());
    text.append(":");
    text.append(given.tag.as_str());
    text.append("` bound to `");
    text.append(given.core_node.as_str());
    text.append("`");
    Err(text)
}

/// The text of a refused mount path.
pub open spec fn mount_text(problem: MountProblem) -> Seq<char> {
    match problem {
        MountProblem::Unclosed { mount } => "Unclosed parameter reference in mount path: "@ + mount,
        MountProblem::NotText { path, kind_name } => "Parameter `"@ + path
            + "` in mount path must be a string, got "@ + kind_name,
        MountProblem::NotFound { path } => "Parameter `"@ + path
            + "` referenced in mount path not found in arguments"@,
        MountProblem::Blocked { resolved, source } => "Resolved mount path `"@ + resolved
            + "` uses a blocked system directory `"@ + source
            + "` as source; use a subdirectory instead"@,
    }
}

/// The text of a refused mount path.
pub fn mount_refusal(e: &MountError) -> (r: String)
    ensures
        r@ == mount_text(e@),
{
    match e {
        MountError::Unclosed { mount } => {
            let mut text: String = "Unclosed parameter reference in mount path: ".to_owned();
            text.append(mount.as_str());
            text
        },
        MountError::NotText { path, kind_name } => {
            let mut text: String = "Parameter `".to_owned();
            text.append(path.as_str());
            text.append("` in mount path must be a string, got ");
            text.append(kind_name.as_str());
            text
        },
        MountError::NotFound { path } => {
            let mut text: String = "Parameter `".to_owned();
            text.append(path.as_str());
            text.append("` referenced in mount path not found in arguments");
            text
        },
        MountError::Blocked { resolved, source } => {
            let mut text: String = "Resolved mount path `".to_owned();
            text.append(resolved.as_str());
            text.append("` uses a blocked system directory `");
            text.append(source.as_str());
            text.append("` as source; use a subdirectory instead");
            text
        },
    }
}

/// Whether a refusal names the first mount path that cannot be used.
pub open spec fn first_bad_mount<F: Fn(&str) -> bool>(
    mount_paths: Seq<String>,
    arguments: Seq<(String, AnyType)>,
    is_blocked: F,
    text: Seq<char>,
) -> bool {
    exists|problem: MountProblem| #[trigger]
        first_problem(mount_paths, arguments, is_blocked, problem) && text == mount_text(problem)
}

/// Replaces `${parameters:..}` references in mount paths by the instance's
/// arguments. The first path that cannot be resolved, or whose host side may not
/// be mounted, is refused.
pub fn resolve_mount_path_parameters<F: Fn(&str) -> bool>(
    mount_paths: &Vec<String>,
    arguments: &Vec<(String, AnyType)>,
    is_blocked: &F,
) -> (r: Result<Vec<String>, String>)
    requires
        forall|source: &str| #[trigger] is_blocked.requires((source,)),
    ensures
        match r {
            Ok(paths) => mounts_resolve(mount_paths@, arguments@, *is_blocked, paths@),
            Err(text) => first_bad_mount(mount_paths@, arguments@, *is_blocked, text@),
        },
{
    match resolve_mounts(mount_paths, arguments, is_blocked) {
        Ok(paths) => Ok(paths),
        Err(e) => Err(mount_refusal(&e)),
    }
}

/// Whether a run takes part in pairing at all.
pub fn involves_pairing(
    deps: &Vec<PairingDep>,
    requested: &Vec<(String, PairTarget)>,
    deferred: &Vec<String>,
) -> (r: bool)
    ensures
        r == (deps@.len() > 0 || requested@.len() > 0 || deferred@.len() > 0),
{
    deps.len() > 0 || requested.len() > 0 || deferred.len() > 0
}

/// What a run goal asks for.
pub struct RunGoal {
    pub node_name: String,
    pub tag: String,
    pub instance_id: String,
    pub env_vars: Vec<(String, String)>,
    pub deferred: Vec<String>,
}

/// What the daemon brings to every run.
pub struct RunHost {
    /// Keys that no goal may set, in capitals.
    pub forbidden: Vec<String>,
    pub sccache_available: bool,
    pub apptainer_bin: String,
}

/// What the stack says of the node that a goal names.
pub struct EntityFacts {
    pub built: bool,
    pub language: PeppygenLanguage,
    pub name: String,
    pub tag: String,
    /// The mount paths of a container node; `None` for a process node.
    pub container: Option<Vec<String>>,
    /// Why the pairing arguments are refused.
    pub pairing_refusal: Option<String>,
    /// Required parameters without an argument or a default.
    pub missing: Vec<String>,
    /// The arguments, defaults applied.
    pub arguments: Vec<(String, AnyType)>,
}

/// Why a run is refused before anything is spawned.
pub enum RunRefusal {
    Env(EnvError),
    Told(String),
}

/// What a run is spawned with.
pub struct Prepared {
    pub env_vars: Vec<(String, String)>,
    pub mounts: Vec<String>,
    pub is_container: bool,
}

/// What preparing a run came to: the lines for the feedback stream, and what
/// to spawn with or why not.
pub struct Preparation {
    pub feedback: Vec<String>,
    pub outcome: Result<Prepared, RunRefusal>,
}

/// Whether a goal's environment passes.
pub open spec fn env_passes(goal: RunGoal, host: RunHost) -> bool {
    forall|k: int|
        0 <= k < goal.env_vars@.len() ==> env_problem(
            (#[trigger] goal.env_vars@[k]).0@,
            goal.env_vars@[k].1@,
            texts(host.forbidden@),
        ) is None
}

/// Whether a problem is that of the goal's first bad variable.
pub open spec fn first_env_problem(goal: RunGoal, host: RunHost, problem: EnvProblem) -> bool {
    exists|i: int|
        0 <= i < goal.env_vars@.len() && env_problem(
            (#[trigger] goal.env_vars@[i]).0@,
            goal.env_vars@[i].1@,
            texts(host.forbidden@),
        ) == Some(problem) && forall|k: int|
            0 <= k < i ==> env_problem(
                (#[trigger] goal.env_vars@[k]).0@,
                goal.env_vars@[k].1@,
                texts(host.forbidden@),
            ) is None
}

/// The refusal of a run whose node the stack does not hold.
pub open spec fn unknown_node_text(goal: RunGoal) -> Seq<char> {
    "Node '"@ + goal.node_name@ + ":"@ + goal.tag@
        + "' not found in node stack. Run `peppy node list` to see currently-loaded nodes, or `peppy node add "@
        + goal.node_name@ + ":"@ + goal.tag@
        + "` to add it (the daemon does not persist added nodes across restarts)."@
}

/// The refusal of a run whose instance id another node holds.
pub open spec fn taken_id_text(goal: RunGoal, name: Seq<char>, tag: Seq<char>) -> Seq<char> {
    "Instance ID `"@ + goal.instance_id@ + "` is already tracked by `"@ + name + "`:"@ + tag
        + "; instance_ids must be unique across the entire stack"@
}

/// The refusal of a run whose node is not built.
pub open spec fn unbuilt_text(goal: RunGoal) -> Seq<char> {
    "Node '"@ + goal.node_name@ + ":"@ + goal.tag@
        + "' is added but not built, run `peppy node build "@ + goal.node_name@ + ":"@ + goal.tag@
        + "` first."@
}

/// The refusal that the stack alone gives a run, where it gives one: the
/// checks in their order.
pub open spec fn stack_refusal(
    goal: RunGoal,
    name_problem: Option<String>,
    holder: Option<(String, String)>,
    entity: Option<EntityFacts>,
) -> Option<Seq<char>> {
    match (name_problem, entity) {
        (Some(why), _) => Some("Invalid instance_id: "@ + why@),
        (None, None) => Some(unknown_node_text(goal)),
        (None, Some(facts)) => match holder {
            Some((name, tag)) if name@ != goal.node_name@ || tag@ != goal.tag@ => Some(
                taken_id_text(goal, name@, tag@),
            ),
            _ => if !facts.built {
                Some(unbuilt_text(goal))
            } else {
                match facts.pairing_refusal {
                    Some(text) => Some(text@),
                    None => None,
                }
            },
        },
    }
}

/// The line that announces a deferred slot.
pub open spec fn deferred_text(link: Seq<char>, instance_id: Seq<char>) -> Seq<char> {
    "pairing slot `"@ + link
        + "` deferred: instance starts unpaired; the pair is established automatically when a peer instance starts with `"@
        + instance_id + "/"@ + link + "` as its pair target"@
}

/// The lines that announce the deferred slots.
pub open spec fn deferred_texts(goal: RunGoal) -> Seq<Seq<char>> {
    texts(goal.deferred@).map_values(|link: Seq<char>| deferred_text(link, goal.instance_id@))
}

/// Whether the compilation goes through `sccache`: the goal's variables count
/// under their trimmed keys.
pub open spec fn uses_sccache(goal: RunGoal, host: RunHost, facts: EntityFacts) -> bool {
    facts.language == PeppygenLanguage::Rust && host.sccache_available && forall|k: int|
        0 <= k < goal.env_vars@.len() ==> trimmed((#[trigger] goal.env_vars@[k]).0@)
            != "RUSTC_WRAPPER"@
}

/// The lines of the feedback stream once the stack has let a run pass.
pub open spec fn feedback_texts(goal: RunGoal, host: RunHost, facts: EntityFacts) -> Seq<Seq<char>> {
    if uses_sccache(goal, host, facts) {
        deferred_texts(goal).push("Using sccache for Rust compilation"@)
    } else {
        deferred_texts(goal)
    }
}

/// The mount paths that a node's manifest lists.
pub open spec fn listed_mounts(facts: EntityFacts) -> Seq<String> {
    match facts.container {
        Some(paths) => paths@,
        None => Seq::empty(),
    }
}

/// Whether `env` is the goal's environment, keys trimmed, with what the daemon
/// adds behind it.
pub open spec fn prepared_env(
    goal: RunGoal,
    host: RunHost,
    facts: EntityFacts,
    env: Seq<(String, String)>,
) -> bool {
    exists|
        checked: Seq<(String, String)>,
        wrapped: Seq<(String, String)>,
        first: Seq<(String, String)>,
        second: Seq<(String, String)>,
    |
        checked.len() == goal.env_vars@.len() && (forall|k: int|
            0 <= k < checked.len() ==> (#[trigger] checked[k]).0@ == trimmed(
                goal.env_vars@[k].0@,
            ) && checked[k].1@ == goal.env_vars@[k].1@) && (if uses_sccache(goal, host, facts) {
            set_if_missing(checked, wrapped, "RUSTC_WRAPPER"@, "sccache"@)
        } else {
            wrapped == checked
        }) && #[trigger] set_if_missing(
            wrapped,
            first,
            PEPPY_APPTAINER_BIN_ENV_VAR@,
            host.apptainer_bin@,
        ) && #[trigger] set_if_missing(first, second, PEPPY_NODE_NAME_ENV_VAR@, facts.name@)
            && #[trigger] set_if_missing(second, env, PEPPY_NODE_TAG_ENV_VAR@, facts.tag@)
            && #[trigger] checked.len() == goal.env_vars@.len()
}

/// The lines that announce the deferred slots.
fn deferred_lines(goal: &RunGoal) -> (r: Vec<String>)
    ensures
        texts(r@) == deferred_texts(*goal),
{
    let mut lines: Vec<String> = Vec::new();
    let mut i: usize = 0;
    while i < goal.deferred.len()
        invariant
            i <= goal.deferred@.len(),
            lines@.len() == i,
            forall|k: int|
                0 <= k < i ==> (#[trigger] lines@[k])@ == deferred_text(
                    goal.deferred@[k]@,
                    goal.instance_id@,
                ),
        decreases goal.deferred.len() - i,
    {
        let mut line: String = "pairing slot `".to_owned();
        line.append(goal.deferred[i].as_str());
        line.append(
            "` deferred: instance starts unpaired; the pair is established automatically when a peer instance starts with `",
        );
        line.append(goal.instance_id.as_str());
        line.append("/");
        line.append(goal.deferred[i].as_str());
        line.append("` as its pair target");
        lines.push(line);
        i += 1;
    }
    proof {
        assert(texts(lines@) =~= deferred_texts(*goal));
    }
    lines
}

/// The refusal that the stack alone gives a run, where it gives one.
fn refuse_by_stack(
    goal: &RunGoal,
    name_problem: &Option<String>,
    holder: &Option<(String, String)>,
    entity: &Option<EntityFacts>,
) -> (r: Option<String>)
    ensures
        match r {
            Some(text) => stack_refusal(*goal, *name_problem, *holder, *entity) == Some(text@),
            None => stack_refusal(*goal, *name_problem, *holder, *entity) is None,
        },
{
    if let Some(why) = name_problem {
        let mut text: String = "Invalid instance_id: ".to_owned();
        text.append(why.as_str());
        return Some(text);
    }
    match entity {
        None => {
            let mut text: String = "Node '".to_owned();
            text.append(goal.node_name.as_str());
            text.append(":");
            text.append(goal.tag.as_str());
            text.append(
                "' not found in node stack. Run `peppy node list` to see currently-loaded nodes, or `peppy node add ",
            );
            text.append(goal.node_name.as_str());
            text.append(":");
            text.append(goal.tag.as_str());
            text.append(
                "` to add it (the daemon does not persist added nodes across restarts).",
            );
            Some(text)
        },
        Some(facts) => {
            if let Some(held) = holder {
                if !str_eq(held.0.as_str(), goal.node_name.as_str()) || !str_eq(
                    held.1.as_str(),
                    goal.tag.as_str(),
                ) {
                    let mut text: String = "Instance ID `".to_owned();
                    text.append(goal.instance_id.as_str());
                    text.append("` is already tracked by `");
                    text.append(held.0.as_str());
                    text.append("`:");
                    text.append(held.1.as_str());
                    text.append("; instance_ids must be unique across the entire stack");
                    return Some(text);
                }
            }
            if !facts.built {
                let mut text: String = "Node '".to_owned();
                text.append(goal.node_name.as_str());
                text.append(":");
                text.append(goal.tag.as_str());
                text.append("' is added but not built, run `peppy node build ");
                text.append(goal.node_name.as_str());
                text.append(":");
                text.append(goal.tag.as_str());
                text.append("` first.");
                return Some(text);
            }
            match &facts.pairing_refusal {
                Some(text) => Some(text.clone()),
                None => None,
            }
        },
    }
}

/// Whether preparing a run came to what goal, host and stack amount to: the
/// environment is checked first, then the stack's checks in their order, then
/// the parameters, then the mount paths.
pub open spec fn prepared_as<F: Fn(&str) -> bool>(
    goal: RunGoal,
    host: RunHost,
    name_problem: Option<String>,
    holder: Option<(String, String)>,
    entity: Option<EntityFacts>,
    is_blocked: F,
    r: Preparation,
) -> bool {
    if !env_passes(goal, host) {
        &&& r.feedback@.len() == 0
        &&& r.outcome matches Err(RunRefusal::Env(e)) && first_env_problem(goal, host, e@)
    } else {
        match (stack_refusal(goal, name_problem, holder, entity), entity) {
            (Some(told), _) => {
                &&& r.feedback@.len() == 0
                &&& r.outcome matches Err(RunRefusal::Told(text)) && text@ == told
            },
            (None, Some(facts)) => {
                &&& texts(r.feedback@) == feedback_texts(goal, host, facts)
                &&& if facts.missing@.len() > 0 {
                    r.outcome matches Err(RunRefusal::Told(text)) && text@
                        == "Missing required parameters: "@ + joined(
                        texts(facts.missing@),
                        ", "@,
                    )
                } else {
                    match r.outcome {
                        Ok(prepared) => mounts_resolve(
                            listed_mounts(facts),
                            facts.arguments@,
                            is_blocked,
                            prepared.mounts@,
                        ) && prepared_env(goal, host, facts, prepared.env_vars@)
                            && prepared.is_container == facts.container is Some,
                        Err(RunRefusal::Told(text)) => first_bad_mount(
                            listed_mounts(facts),
                            facts.arguments@,
                            is_blocked,
                            text@,
                        ),
                        Err(RunRefusal::Env(_)) => false,
                    }
                }
            },
            (None, None) => false,
        }
    }
}

/// Prepares a run: checks the goal against the host and the stack, and gathers
/// what the process is spawned with. `name_problem` says why the instance id
/// is no valid name, `holder` which node already tracks it, and `is_blocked`
/// whether a directory may not be mounted.
pub fn prepare_run<F: Fn(&str) -> bool>(
    goal: &RunGoal,
    host: &RunHost,
    name_problem: &Option<String>,
    holder: &Option<(String, String)>,
    entity: &Option<EntityFacts>,
    is_blocked: &F,
) -> (r: Preparation)
    requires
        forall|source: &str| #[trigger] is_blocked.requires((source,)),
    ensures
        prepared_as(*goal, *host, *name_problem, *holder, *entity, *is_blocked, r),
{
    let mut feedback: Vec<String> = Vec::new();
    let mut env_vars = match validate_goal_env_vars(&goal.env_vars, &host.forbidden) {
        Ok(vars) => vars,
        Err(e) => {
            proof {
                let i = choose|i: int|
                    0 <= i < goal.env_vars@.len() && env_problem(
                        (#[trigger] goal.env_vars@[i]).0@,
                        goal.env_vars@[i].1@,
                        texts(host.forbidden@),
                    ) == Some(e@) && forall|k: int|
                        0 <= k < i ==> env_problem(
                            (#[trigger] goal.env_vars@[k]).0@,
                            goal.env_vars@[k].1@,
                            texts(host.forbidden@),
                        ) is None;
                assert(first_env_problem(*goal, *host, e@));
            }
            return Preparation { feedback, outcome: Err(RunRefusal::Env(e)) };
        },
    };
    let ghost checked = env_vars@;
    if let Some(text) = refuse_by_stack(goal, name_problem, holder, entity) {
        return Preparation { feedback, outcome: Err(RunRefusal::Told(text)) };
    }
    let facts: &EntityFacts = match entity {
        Some(facts) => facts,
        None => {
            proof {
                assert(false);
            }
            return Preparation {
                feedback,
                outcome: Err(RunRefusal::Told(String::new())),
            };
        },
    };
    feedback = deferred_lines(goal);
    let injected = inject_rust_build_env(&mut env_vars, facts.language, host.sccache_available);
    proof {
        assert(injected == uses_sccache(*goal, *host, *facts)) by {
            if sets(checked, "RUSTC_WRAPPER"@) {
                let k = choose|k: int|
                    0 <= k < checked.len() && (#[trigger] checked[k]).0@ == "RUSTC_WRAPPER"@;
                assert(trimmed(goal.env_vars@[k].0@) == "RUSTC_WRAPPER"@);
            } else {
                assert forall|k: int| 0 <= k < goal.env_vars@.len() implies trimmed(
                    (#[trigger] goal.env_vars@[k]).0@,
                ) != "RUSTC_WRAPPER"@ by {
                    assert(checked[k].0@ != "RUSTC_WRAPPER"@);
                }
            }
        }
    }
    let ghost wrapped = env_vars@;
    let ghost lines = texts(feedback@);
    if injected {
        feedback.push("Using sccache for Rust compilation".to_owned());
        proof {
            assert(texts(feedback@) =~= lines.push("Using sccache for Rust compilation"@));
        }
    }
    inject_node_runtime_env(
        &mut env_vars,
        host.apptainer_bin.clone(),
        facts.name.as_str(),
        facts.tag.as_str(),
    );
    if facts.missing.len() > 0 {
        let mut text: String = "Missing required parameters: ".to_owned();
        text.append(join(&facts.missing, ", ").as_str());
        return Preparation { feedback, outcome: Err(RunRefusal::Told(text)) };
    }
    let none: Vec<String> = Vec::new();
    let listed: &Vec<String> = match &facts.container {
        Some(paths) => paths,
        None => &none,
    };
    proof {
        assert(listed@ =~= listed_mounts(*facts));
    }
    match resolve_mount_path_parameters(listed, &facts.arguments, is_blocked) {
        Err(text) => Preparation { feedback, outcome: Err(RunRefusal::Told(text)) },
        Ok(mounts) => {
            proof {
                let (first, second) = choose|first: Seq<(String, String)>, second: Seq<(String, String)>|
                    #[trigger] set_if_missing(
                        wrapped,
                        first,
                        PEPPY_APPTAINER_BIN_ENV_VAR@,
                        host.apptainer_bin@,
                    ) && #[trigger] set_if_missing(
                        first,
                        second,
                        PEPPY_NODE_NAME_ENV_VAR@,
                        facts.name@,
                    ) && set_if_missing(
                        second,
                        env_vars@,
                        PEPPY_NODE_TAG_ENV_VAR@,
                        facts.tag@,
                    );
                assert(checked.len() == goal.env_vars@.len());
                assert(set_if_missing(second, env_vars@, PEPPY_NODE_TAG_ENV_VAR@, facts.tag@));
                assert(prepared_env(*goal, *host, *facts, env_vars@));
            }
            Preparation {
                feedback,
                outcome: Ok(Prepared { env_vars, mounts, is_container: facts.container.is_some() }),
            }
        },
    }
}

/// Why the container runtime gives a run no gateway.
pub enum RuntimeFailure {
    /// The runtime could not be initialized.
    Initialize(String),
    /// The task that initializes it failed.
    Task(String),
}

/// The refusal of a run whose container runtime is not to be had.
pub open spec fn runtime_text(failure: RuntimeFailure) -> Seq<char> {
    match failure {
        RuntimeFailure::Initialize(why) => "Failed to initialize Apptainer: "@ + why@,
        RuntimeFailure::Task(why) => "Apptainer initialization task failed: "@ + why@,
    }
}

/// The refusal of a run whose container runtime is not to be had.
pub fn runtime_refusal(failure: &RuntimeFailure) -> (r: String)
    ensures
        r@ == runtime_text(*failure),
{
    match failure {
        RuntimeFailure::Initialize(why) => {
            let mut text: String = "Failed to initialize Apptainer: ".to_owned();
            text.append(why.as_str());
            text
        },
        RuntimeFailure::Task(why) => {
            let mut text: String = "Apptainer initialization task failed: ".to_owned();
            text.append(why.as_str());
            text
        },
    }
}

/// The refusal of a run whose launch configuration cannot be written down.
pub fn serialize_refusal(why: &str) -> (r: String)
    ensures
        r@ == "Failed to serialize runtime config: "@ + why@,
{
    let mut text: String = "Failed to serialize runtime config: ".to_owned();
    text.append(why);
    text
}

/// What the task of a run or a start came to.
pub enum TaskEnd {
    /// The process id of the instance, or why it does not run.
    Finished(Result<u32, String>),
    Panicked(PanicPayload),
}

/// What is reported of a run or a start.
pub struct TaskReport {
    pub result: Result<u32, String>,
    /// Whether the failure is still to be written to the log.
    pub unlogged: bool,
}

/// What is reported of a run: what it came to, and a panic as a failure that its
/// log does not hold yet.
pub fn run_node_run(end: TaskEnd) -> (r: TaskReport)
    ensures
        match end {
            TaskEnd::Finished(result) => r == (TaskReport { result, unlogged: false }),
            TaskEnd::Panicked(payload) => r.unlogged && (r.result matches Err(text) && text@
                == "node_run task panicked: "@ + panic_text(payload)),
        },
{
    match end {
        TaskEnd::Finished(result) => TaskReport { result, unlogged: false },
        TaskEnd::Panicked(payload) => {
            let mut text: String = "node_run task panicked: ".to_owned();
            text.append(panic_message(&payload).as_str());
            TaskReport { result: Err(text), unlogged: true }
        },
    }
}

/// Outcome of a startup step that races an outside cancellation.
#[derive(Debug, PartialEq, Eq)]
pub enum StartupOutcome {
    Passed,
    Cancelled,
    Failed(String),
}

/// Why a run is aborted while it waits for the ready signal, where it is.
pub fn startup_abort_reason(outcome: &StartupOutcome) -> (r: Option<String>)
    ensures
        match *outcome {
            StartupOutcome::Passed => r is None,
            StartupOutcome::Cancelled => r matches Some(text) && text@
                == "cancelled during ready-signal wait"@,
            StartupOutcome::Failed(why) => r matches Some(text) && text@ == why@,
        },
{
    match outcome {
        StartupOutcome::Passed => None,
        StartupOutcome::Cancelled => Some("cancelled during ready-signal wait".to_owned()),
        StartupOutcome::Failed(why) => Some(why.clone()),
    }
}

/// The variables that a node is spawned with begin with the goal's, keys trimmed,
/// in their order, and tell it where the container runtime is and who it is.
pub proof fn lemma_prepared_env(
    goal: RunGoal,
    host: RunHost,
    facts: EntityFacts,
    env: Seq<(String, String)>,
)
    requires
        prepared_env(goal, host, facts, env),
    ensures
        env.len() >= goal.env_vars@.len(),
        forall|k: int|
            0 <= k < goal.env_vars@.len() ==> (#[trigger] env[k]).0@ == trimmed(
                goal.env_vars@[k].0@,
            ) && env[k].1@ == goal.env_vars@[k].1@,
        sets(env, PEPPY_APPTAINER_BIN_ENV_VAR@),
        sets(env, PEPPY_NODE_NAME_ENV_VAR@),
        sets(env, PEPPY_NODE_TAG_ENV_VAR@),
{
    let (checked, wrapped, first, second) = choose|
        checked: Seq<(String, String)>,
        wrapped: Seq<(String, String)>,
        first: Seq<(String, String)>,
        second: Seq<(String, String)>,
    |
        checked.len() == goal.env_vars@.len() && (forall|k: int|
            0 <= k < checked.len() ==> (#[trigger] checked[k]).0@ == trimmed(
                goal.env_vars@[k].0@,
            ) && checked[k].1@ == goal.env_vars@[k].1@) && (if uses_sccache(goal, host, facts) {
            set_if_missing(checked, wrapped, "RUSTC_WRAPPER"@, "sccache"@)
        } else {
            wrapped == checked
        }) && #[trigger] set_if_missing(
            wrapped,
            first,
            PEPPY_APPTAINER_BIN_ENV_VAR@,
            host.apptainer_bin@,
        ) && #[trigger] set_if_missing(first, second, PEPPY_NODE_NAME_ENV_VAR@, facts.name@)
            && #[trigger] set_if_missing(second, env, PEPPY_NODE_TAG_ENV_VAR@, facts.tag@)
            && #[trigger] checked.len() == goal.env_vars@.len();
    if uses_sccache(goal, host, facts) {
        setting_if_missing_keeps_what_is_set(checked, wrapped, "RUSTC_WRAPPER"@, "sccache"@);
    }
    setting_if_missing_keeps_what_is_set(
        wrapped,
        first,
        PEPPY_APPTAINER_BIN_ENV_VAR@,
        host.apptainer_bin@,
    );
    setting_if_missing_keeps_what_is_set(first, second, PEPPY_NODE_NAME_ENV_VAR@, facts.name@);
    setting_if_missing_keeps_what_is_set(second, env, PEPPY_NODE_TAG_ENV_VAR@, facts.tag@);
    assert(sets(first, PEPPY_APPTAINER_BIN_ENV_VAR@));
    assert(sets(second, PEPPY_APPTAINER_BIN_ENV_VAR@));
    assert(sets(second, PEPPY_NODE_NAME_ENV_VAR@));
    assert forall|k: int| 0 <= k < goal.env_vars@.len() implies (#[trigger] env[k]).0@ == trimmed(
        goal.env_vars@[k].0@,
    ) && env[k].1@ == goal.env_vars@[k].1@ by {
        assert(wrapped[k] == checked[k]);
        assert(first[k] == wrapped[k]);
        assert(second[k] == first[k]);
    }
}

/// A goal's environment passes exactly where every variable is fine.
pub proof fn lemma_env_passes(goal: RunGoal, host: RunHost)
    ensures
        env_passes(goal, host) <==> forall|k: int|
            0 <= k < goal.env_vars@.len() ==> is_fine_key(
                trimmed((#[trigger] goal.env_vars@[k]).0@),
                texts(host.forbidden@),
            ) && is_fine_value(goal.env_vars@[k].1@),
{
    assert forall|k: int| 0 <= k < goal.env_vars@.len() implies env_problem(
        (#[trigger] goal.env_vars@[k]).0@,
        goal.env_vars@[k].1@,
        texts(host.forbidden@),
    ) is None <==> is_fine_key(trimmed(goal.env_vars@[k].0@), texts(host.forbidden@))
        && is_fine_value(goal.env_vars@[k].1@) by {
        lemma_env_problem(goal.env_vars@[k].0@, goal.env_vars@[k].1@, texts(host.forbidden@));
    }
}

/// Whether a goal and the stack let a run go ahead: every variable is fine, the
/// instance id is a name that no other node holds, and the node is there, built,
/// paired as it must be and given all of its parameters.
pub open spec fn may_run(
    goal: RunGoal,
    host: RunHost,
    name_problem: Option<String>,
    holder: Option<(String, String)>,
    entity: Option<EntityFacts>,
) -> bool {
    &&& forall|k: int|
        0 <= k < goal.env_vars@.len() ==> is_fine_key(
            trimmed((#[trigger] goal.env_vars@[k]).0@),
            texts(host.forbidden@),
        ) && is_fine_value(goal.env_vars@[k].1@)
    &&& name_problem is None
    &&& holder matches Some(held) ==> held.0@ == goal.node_name@ && held.1@ == goal.tag@
    &&& entity matches Some(facts) && facts.built && facts.pairing_refusal is None
        && facts.missing@.len() == 0
}

/// A run is prepared only where goal and stack let it go ahead, and then with all
/// that it is asked for: the goal's variables in their order before those that the
/// daemon adds, and every mount path of a container resolved and allowed. Where
/// nothing is to be mounted, it is prepared wherever they let it.
pub proof fn only_a_run_that_may_go_ahead_is_prepared<F: Fn(&str) -> bool>(
    goal: RunGoal,
    host: RunHost,
    name_problem: Option<String>,
    holder: Option<(String, String)>,
    entity: Option<EntityFacts>,
    is_blocked: F,
    r: Preparation,
)
    requires
        call_ensures(
            prepare_run::<F>,
            (&goal, &host, &name_problem, &holder, &entity, &is_blocked),
            r,
        ),
    ensures
        r.outcome matches Ok(prepared) ==> {
            &&& may_run(goal, host, name_problem, holder, entity)
            &&& entity matches Some(facts) && prepared.is_container == (facts.container is Some)
                && prepared.mounts@.len() == (match facts.container {
                Some(paths) => paths@.len(),
                None => 0,
            }) && mounts_resolve(
                listed_mounts(facts),
                facts.arguments@,
                is_blocked,
                prepared.mounts@,
            )
            &&& prepared.env_vars@.len() >= goal.env_vars@.len()
            &&& forall|k: int|
                0 <= k < goal.env_vars@.len() ==> (#[trigger] prepared.env_vars@[k]).0@ == trimmed(
                    goal.env_vars@[k].0@,
                ) && prepared.env_vars@[k].1@ == goal.env_vars@[k].1@
            &&& sets(prepared.env_vars@, PEPPY_APPTAINER_BIN_ENV_VAR@)
            &&& sets(prepared.env_vars@, PEPPY_NODE_NAME_ENV_VAR@)
            &&& sets(prepared.env_vars@, PEPPY_NODE_TAG_ENV_VAR@)
        },
        may_run(goal, host, name_problem, holder, entity) && (entity matches Some(facts) && (
        facts.container matches Some(paths) ==> paths@.len() == 0)) ==> r.outcome is Ok,
{
    lemma_env_passes(goal, host);
    if let Ok(prepared) = r.outcome {
        if let Some(facts) = entity {
            lemma_prepared_env(goal, host, facts, prepared.env_vars@);
        }
    }
    if may_run(goal, host, name_problem, holder, entity) {
        if let Some(facts) = entity {
            if listed_mounts(facts).len() == 0 {
                if let Err(RunRefusal::Told(text)) = r.outcome {
                    let problem = choose|problem: MountProblem| #[trigger]
                        first_problem(
                            listed_mounts(facts),
                            facts.arguments@,
                            is_blocked,
                            problem,
                        ) && text@ == mount_text(problem);
                }
            }
        }
    }
}

/// A run that is refused by the stack is told why in words that name what is wrong:
/// the node that is not there or not built, the instance id that another node
/// holds, or the refusal of its pairs; a parameter that is missing is named too.
pub proof fn a_refused_run_is_told_what_is_wrong<F: Fn(&str) -> bool>(
    goal: RunGoal,
    host: RunHost,
    name_problem: Option<String>,
    holder: Option<(String, String)>,
    entity: Option<EntityFacts>,
    is_blocked: F,
    r: Preparation,
)
    requires
        env_passes(goal, host),
        call_ensures(
            prepare_run::<F>,
            (&goal, &host, &name_problem, &holder, &entity, &is_blocked),
            r,
        ),
    ensures
        !(r.outcome matches Err(RunRefusal::Env(_))),
        name_problem matches Some(why) ==> (r.outcome matches Err(RunRefusal::Told(text))
            && mentions(text@, why@)),
        name_problem is None && entity is None ==> (r.outcome matches Err(RunRefusal::Told(text))
            && mentions(text@, goal.node_name@ + ":"@ + goal.tag@)),
        name_problem is None ==> (entity matches Some(facts) ==> (holder matches Some(held) ==> (
        held.0@ != goal.node_name@ || held.1@ != goal.tag@ ==> (r.outcome matches Err(
            RunRefusal::Told(text),
        ) && mentions(text@, goal.instance_id@) && mentions(text@, held.0@))))),
        name_problem is None && (holder matches Some(held) ==> held.0@ == goal.node_name@ && held.1@
            == goal.tag@) ==> (entity matches Some(facts) ==> {
            &&& !facts.built ==> (r.outcome matches Err(RunRefusal::Told(text)) && mentions(
                text@,
                goal.node_name@ + ":"@ + goal.tag@,
            ))
            &&& facts.built ==> (facts.pairing_refusal matches Some(why) ==> (
            r.outcome matches Err(RunRefusal::Told(text)) && text@ == why@))
            &&& facts.built && facts.pairing_refusal is None && facts.missing@.len() > 0 ==> (
            r.outcome matches Err(RunRefusal::Told(text)) && mentions(
                text@,
                joined(texts(facts.missing@), ", "@),
            ))
        }),
{
    if let Some(why) = name_problem {
        what_is_written_is_mentioned("Invalid instance_id: "@, why@, ""@);
    }
    let named = goal.node_name@ + ":"@ + goal.tag@;
    let first =
        "' not found in node stack. Run `peppy node list` to see currently-loaded nodes, or `peppy node add "@
        + goal.node_name@ + ":"@ + goal.tag@
        + "` to add it (the daemon does not persist added nodes across restarts)."@;
    what_is_written_is_mentioned("Node '"@, named, first);
    assert(unknown_node_text(goal) =~= "Node '"@ + named + first);
    let second = "' is added but not built, run `peppy node build "@ + goal.node_name@ + ":"@
        + goal.tag@ + "` first."@;
    what_is_written_is_mentioned("Node '"@, named, second);
    assert(unbuilt_text(goal) =~= "Node '"@ + named + second);
    if let Some(held) = holder {
        let rest = "` is already tracked by `"@ + held.0@ + "`:"@ + held.1@
            + "; instance_ids must be unique across the entire stack"@;
        what_is_written_is_mentioned("Instance ID `"@, goal.instance_id@, rest);
        assert(taken_id_text(goal, held.0@, held.1@) =~= "Instance ID `"@ + goal.instance_id@
            + rest);
        let before = "Instance ID `"@ + goal.instance_id@ + "` is already tracked by `"@;
        let after = "`:"@ + held.1@ + "; instance_ids must be unique across the entire stack"@;
        what_is_written_is_mentioned(before, held.0@, after);
        assert(taken_id_text(goal, held.0@, held.1@) =~= before + held.0@ + after);
    }
    if let Some(facts) = entity {
        what_is_written_is_mentioned(
            "Missing required parameters: "@,
            joined(texts(facts.missing@), ", "@),
            ""@,
        );
    }
}

/// A goal is let through exactly where its runtime configuration is of the very
/// identity that it asks for.
pub proof fn a_goal_runs_under_its_own_identity(
    asked: RunIdentity,
    given: RunIdentity,
    r: Result<(), String>,
)
    requires
        call_ensures(check_identity, (&asked, &given), r),
    ensures
        r is Ok <==> asked.node_name@ == given.node_name@ && asked.tag@ == given.tag@
            && asked.core_node@ == given.core_node@,
{
}

/// The launch configuration that a process receives carries the daemon's defaults,
/// whatever it held before. A container behind a gateway talks to that gateway and
/// never seeks its peers directly; every other node keeps its messaging host.
pub proof fn a_launch_carries_the_defaults(
    config: &mut LaunchConfig,
    defaults: DaemonDefaults,
    gateway: Option<String>,
)
    requires
        call_ensures(finish_launch_config, (config, &defaults, gateway), ()),
    ensures
        gateway matches Some(host) ==> final(config).messaging_host@ == host@
            && !final(config).discovery.gossip,
        gateway is None ==> final(config).messaging_host@ == old(config).messaging_host@ && (
        final(config).discovery.gossip <==> defaults.messaging_mode == Mode::Peer),
        final(config).discovery.organization_id matches Some(id) && id@
            == defaults.organization_namespace@,
        final(config).discovery.standard_buffer_size
            == defaults.peer_buffer.standard_buffer_size,
        final(config).discovery.high_throughput_buffer_size
            == defaults.peer_buffer.high_throughput_buffer_size,
        final(config).lifecycle.daemon_grace_secs == defaults.daemon_grace_secs,
        final(config).lifecycle.shutdown_grace_secs == defaults.shutdown_grace_secs,
{
}

/// Nodes meet directly only where the daemon runs them as peers, and never from within a
/// network namespace of a container's own; every other setting is the daemon's, and the
/// messaging host stays.
pub proof fn only_peers_meet_directly(
    config: &mut LaunchConfig,
    defaults: DaemonDefaults,
    container_separate_ns: bool,
)
    requires
        call_ensures(apply_daemon_defaults, (config, &defaults, container_separate_ns), ()),
    ensures
        final(config).discovery.gossip ==> defaults.messaging_mode == Mode::Peer
            && !container_separate_ns,
        defaults.messaging_mode == Mode::Peer && !container_separate_ns ==> final(config).discovery.gossip,
        final(config).messaging_host == old(config).messaging_host,
        final(config).lifecycle.daemon_grace_secs == defaults.daemon_grace_secs,
        final(config).lifecycle.shutdown_grace_secs == defaults.shutdown_grace_secs,
        final(config).discovery.standard_buffer_size == defaults.peer_buffer.standard_buffer_size,
        final(config).discovery.high_throughput_buffer_size
            == defaults.peer_buffer.high_throughput_buffer_size,
        final(config).discovery.organization_id matches Some(id) && id@
            == defaults.organization_namespace@,
{
}

/// A run is reported as it ended; a panic is a failure that says what it panicked with,
/// and the only one that is still to be written to the log.
pub proof fn a_panic_is_a_failed_run(end: TaskEnd, r: TaskReport)
    requires
        call_ensures(run_node_run, (end,), r),
    ensures
        r.unlogged <==> end is Panicked,
        end matches TaskEnd::Finished(result) ==> r.result == result,
        end matches TaskEnd::Panicked(payload) ==> (r.result matches Err(text) && mentions(
            text@,
            panic_text(payload),
        )),
{
    if let TaskEnd::Panicked(payload) = end {
        what_is_written_is_mentioned("node_run task panicked: "@, panic_text(payload), ""@);
    }
}

/// A run is aborted while it waits to be ready unless that passed, and a failure is the
/// reason as it is.
pub proof fn only_a_passed_wait_is_not_aborted(outcome: StartupOutcome, r: Option<String>)
    requires
        call_ensures(startup_abort_reason, (&outcome,), r),
    ensures
        r is None <==> outcome is Passed,
        outcome matches StartupOutcome::Failed(why) ==> (r matches Some(text) && text@ == why@),
{
}

/// A run takes no part in pairing only where nothing about it has to do with pairs.
pub proof fn any_slot_involves_pairing(
    deps: Vec<PairingDep>,
    requested: Vec<(String, PairTarget)>,
    deferred: Vec<String>,
    r: bool,
)
    requires
        call_ensures(involves_pairing, (&deps, &requested, &deferred), r),
    ensures
        !r <==> deps@.len() == 0 && requested@.len() == 0 && deferred@.len() == 0,
{
}

} // verus!
