//! Starting a built node: the checks before the spawn, the steps after it, and
//! how long the feedback stream is kept open for the node's first output.
pub mod machine;
pub mod output;
pub mod parameters;

use crate::common::{panic_message, panic_text};
use crate::env::{
    inject_node_runtime_env, inject_rust_build_env, is_fine_key, is_fine_value, sets,
    set_if_missing, validate_goal_env_vars, PEPPY_APPTAINER_BIN_ENV_VAR, PEPPY_NODE_NAME_ENV_VAR,
    PEPPY_NODE_TAG_ENV_VAR,
};
use crate::mounts::{
    first_problem, mounts_resolve, resolve_mounts, AnyType, MountError, MountProblem,
};
use crate::run::{
    env_passes, first_env_problem, lemma_env_passes, lemma_prepared_env, listed_mounts,
    prepared_env, runtime_refusal, runtime_text, serialize_refusal, uses_sccache, EntityFacts, Preparation, Prepared, RunGoal,
    RunHost, RunRefusal, RuntimeFailure, TaskEnd, TaskReport,
};
use crate::start::parameters::{
    is_given, leads_to_parameter, lemma_missing, lemma_missing_leads, missing_paths,
    validate_parameters,
};
use crate::text::{join, joined, mentions, texts, trimmed, what_is_written_is_mentioned};
use vstd::prelude::*;
use vstd::string::*;

verus! {

/// How a start service is set up. Spans are in milliseconds.
pub struct NodeStartServiceConfig {
    pub node_startup_timeout_millis: u64,
    pub node_start_health_timeout_millis: u64,
}

/// The text of a refused mount path.
pub open spec fn mount_text(problem: MountProblem) -> Seq<char> {
    match problem {
        MountProblem::Blocked { resolved, source } => "Resolved mount path `"@ + resolved
            + "` uses a blocked system directory `"@ + source
            + "` as source — use a subdirectory instead"@,
        other => crate::run::mount_text(other),
    }
}

/// The text of a refused mount path.
pub fn mount_refusal(e: &MountError) -> (r: String)
    ensures
        r@ == mount_text(e@),
{
    match e {
        MountError::Blocked { resolved, source } => {
            let mut text: String = "Resolved mount path `".to_owned();
            text.append(resolved.as_str());
            text.append("` uses a blocked system directory `");
            text.append(source.as_str());
            text.append("` as source — use a subdirectory instead");
            text
        },
        _ => crate::run::mount_refusal(e),
    }
}

/// Whether a refusal names the first mount path that cannot be used.
pub open spec fn first_bad_mount<F: Fn(&str) -> bool>(
    mount_paths: Seq<String>,
    arguments: Seq<(String, AnyType)>,
    is_blocked: F,
    text: Seq<char>,
) -> bool {
    exists|problem: MountProblem| #[trigger]
        first_problem(mount_paths, arguments, is_blocked, problem) && text == mount_text(problem)
}

/// Replaces `${parameters:..}` references in mount paths by the instance's
/// arguments. The first path that cannot be resolved, or whose host side may not
/// be mounted, is refused.
pub fn resolve_mount_path_parameters<F: Fn(&str) -> bool>(
    mount_paths: &Vec<String>,
    arguments: &Vec<(String, AnyType)>,
    is_blocked: &F,
) -> (r: Result<Vec<String>, String>)
    requires
        forall|source: &str| #[trigger] is_blocked.requires((source,)),
    ensures
        match r {
            Ok(paths) => mounts_resolve(mount_paths@, arguments@, *is_blocked, paths@),
            Err(text) => first_bad_mount(mount_paths@, arguments@, *is_blocked, text@),
        },
{
    match resolve_mounts(mount_paths, arguments, is_blocked) {
        Ok(paths) => Ok(paths),
        Err(e) => Err(mount_refusal(&e)),
    }
}

/// The refusal that the stack alone gives a start, where it gives one.
pub open spec fn stack_refusal(
    goal: RunGoal,
    name_problem: Option<String>,
    entity: Option<EntityFacts>,
) -> Option<Seq<char>> {
    match (name_problem, entity) {
        (Some(why), _) => Some("Invalid instance_id: "@ + why@),
        (None, None) => Some(
            "Node '"@ + goal.node_name@ + ":"@ + goal.tag@ + "' not found in node stack"@,
        ),
        (None, Some(facts)) => if !facts.built {
            Some(
                "Node '"@ + goal.node_name@ + ":"@ + goal.tag@
                    + "' has not been built yet (still in Added stage)"@,
            )
        } else {
            None
        },
    }
}

/// The lines of the feedback stream once the stack has let a start pass.
pub open spec fn feedback_texts(goal: RunGoal, host: RunHost, facts: EntityFacts) -> Seq<Seq<char>> {
    if uses_sccache(goal, host, facts) {
        seq!["Using sccache for Rust compilation"@]
    } else {
        Seq::empty()
    }
}

/// Whether preparing a start came to what goal, host and stack amount to: the
/// environment is checked first, then the stack's checks in their order, then
/// every parameter of the schema, then the mount paths.
pub open spec fn prepared_as<F: Fn(&str) -> bool>(
    goal: RunGoal,
    host: RunHost,
    name_problem: Option<String>,
    entity: Option<EntityFacts>,
    schema: Vec<(String, AnyType)>,
    is_blocked: F,
    r: Preparation,
) -> bool {
    if !env_passes(goal, host) {
        &&& r.feedback@.len() == 0
        &&& r.outcome matches Err(RunRefusal::Env(e)) && first_env_problem(goal, host, e@)
    } else {
        match (stack_refusal(goal, name_problem, entity), entity) {
            (Some(told), _) => {
                &&& r.feedback@.len() == 0
                &&& r.outcome matches Err(RunRefusal::Told(text)) && text@ == told
            },
            (None, Some(facts)) => {
                let missing = missing_paths(
                    schema,
                    facts.arguments@,
                    ""@,
                    schema@.len() as int,
                );
                &&& texts(r.feedback@) == feedback_texts(goal, host, facts)
                &&& if missing.len() > 0 {
                    r.outcome matches Err(RunRefusal::Told(text)) && text@
                        == "Missing required parameters: "@ + joined(missing, ", "@)
                } else {
                    match r.outcome {
                        Ok(prepared) => mounts_resolve(
                            listed_mounts(facts),
                            facts.arguments@,
                            is_blocked,
                            prepared.mounts@,
                        ) && prepared_env(goal, host, facts, prepared.env_vars@)
                            && prepared.is_container == facts.container is Some,
                        Err(RunRefusal::Told(text)) => first_bad_mount(
                            listed_mounts(facts),
                            facts.arguments@,
                            is_blocked,
                            text@,
                        ),
                        Err(RunRefusal::Env(_)) => false,
                    }
                }
            },
            (None, None) => false,
        }
    }
}

/// The refusal that the stack alone gives a start, where it gives one.
fn refuse_by_stack(
    goal: &RunGoal,
    name_problem: &Option<String>,
    entity: &Option<EntityFacts>,
) -> (r: Option<String>)
    ensures
        match r {
            Some(text) => stack_refusal(*goal, *name_problem, *entity) == Some(text@),
            None => stack_refusal(*goal, *name_problem, *entity) is None,
        },
{
    if let Some(why) = name_problem {
        let mut text: String = "Invalid instance_id: ".to_owned();
        text.append(why.as_str());
        return Some(text);
    }
    let mut text: String = "Node '".to_owned();
    text.append(goal.node_name.as_str());
    text.append(":");
    text.append(goal.tag.as_str());
    match entity {
        None => {
            text.append("' not found in node stack");
            Some(text)
        },
        Some(facts) => {
            if facts.built {
                return None;
            }
            text.append("' has not been built yet (still in Added stage)");
            Some(text)
        },
    }
}

/// Prepares a start: checks the goal against the host and the stack, and
/// gathers what the process is spawned with. `schema` are the parameters of
/// the node's manifest; `name_problem` says why the instance id is no valid
/// name, and `is_blocked` whether a directory may not be mounted.
pub fn prepare_start<F: Fn(&str) -> bool>(
    goal: &RunGoal,
    host: &RunHost,
    name_problem: &Option<String>,
    entity: &Option<EntityFacts>,
    schema: &Vec<(String, AnyType)>,
    is_blocked: &F,
) -> (r: Preparation)
    requires
        forall|source: &str| #[trigger] is_blocked.requires((source,)),
    ensures
        prepared_as(*goal, *host, *name_problem, *entity, *schema, *is_blocked, r),
{
    let mut feedback: Vec<String> = Vec::new();
    let mut env_vars = match validate_goal_env_vars(&goal.env_vars, &host.forbidden) {
        Ok(vars) => vars,
        Err(e) => {
            proof {
                assert(first_env_problem(*goal, *host, e@));
            }
            return Preparation { feedback, outcome: Err(RunRefusal::Env(e)) };
        },
    };
    let ghost checked = env_vars@;
    if let Some(text) = refuse_by_stack(goal, name_problem, entity) {
        return Preparation { feedback, outcome: Err(RunRefusal::Told(text)) };
    }
    let facts: &EntityFacts = match entity {
        Some(facts) => facts,
        None => {
            proof {
                assert(false);
            }
            return Preparation {
                feedback,
                outcome: Err(RunRefusal::Told(String::new())),
            };
        },
    };
    let injected = inject_rust_build_env(&mut env_vars, facts.language, host.sccache_available);
    proof {
        assert(injected == uses_sccache(*goal, *host, *facts)) by {
            if sets(checked, "RUSTC_WRAPPER"@) {
                let k = choose|k: int|
                    0 <= k < checked.len() && (#[trigger] checked[k]).0@ == "RUSTC_WRAPPER"@;
                assert(trimmed(goal.env_vars@[k].0@) == "RUSTC_WRAPPER"@);
            } else {
                assert forall|k: int| 0 <= k < goal.env_vars@.len() implies trimmed(
                    (#[trigger] goal.env_vars@[k]).0@,
                ) != "RUSTC_WRAPPER"@ by {
                    assert(checked[k].0@ != "RUSTC_WRAPPER"@);
                }
            }
        }
    }
    let ghost wrapped = env_vars@;
    if injected {
        feedback.push("Using sccache for Rust compilation".to_owned());
    }
    proof {
        assert(texts(feedback@) =~= feedback_texts(*goal, *host, *facts));
    }
    inject_node_runtime_env(
        &mut env_vars,
        host.apptainer_bin.clone(),
        facts.name.as_str(),
        facts.tag.as_str(),
    );
    let missing = validate_parameters(schema, &facts.arguments, "");
    if missing.len() > 0 {
        let mut text: String = "Missing required parameters: ".to_owned();
        text.append(join(&missing, ", ").as_str());
        return Preparation { feedback, outcome: Err(RunRefusal::Told(text)) };
    }
    let none: Vec<String> = Vec::new();
    let listed: &Vec<String> = match &facts.container {
        Some(paths) => paths,
        None => &none,
    };
    proof {
        assert(listed@ =~= listed_mounts(*facts));
    }
    match resolve_mount_path_parameters(listed, &facts.arguments, is_blocked) {
        Err(text) => Preparation { feedback, outcome: Err(RunRefusal::Told(text)) },
        Ok(mounts) => {
            proof {
                let (first, second) = choose|first: Seq<(String, String)>, second: Seq<(String, String)>|
                    #[trigger] set_if_missing(
                        wrapped,
                        first,
                        PEPPY_APPTAINER_BIN_ENV_VAR@,
                        host.apptainer_bin@,
                    ) && #[trigger] set_if_missing(
                        first,
                        second,
                        PEPPY_NODE_NAME_ENV_VAR@,
                        facts.name@,
                    ) && set_if_missing(
                        second,
                        env_vars@,
                        PEPPY_NODE_TAG_ENV_VAR@,
                        facts.tag@,
                    );
                assert(checked.len() == goal.env_vars@.len());
                assert(set_if_missing(second, env_vars@, PEPPY_NODE_TAG_ENV_VAR@, facts.tag@));
                assert(prepared_env(*goal, *host, *facts, env_vars@));
            }
            Preparation {
                feedback,
                outcome: Ok(Prepared { env_vars, mounts, is_container: facts.container.is_some() }),
            }
        },
    }
}

/// Whether this is an answer to how the launch configuration is written down with
/// another messaging host.
pub open spec fn writes<F: Fn(&str) -> Result<String, String>>(
    encode: F,
    host: Seq<char>,
    answer: Result<String, String>,
) -> bool {
    exists|asked: &str| asked@ == host && #[trigger] encode.ensures((asked,), answer)
}

/// The launch configuration that a started process receives: the one that was
/// `given`, unless its container reaches the daemon only through a gateway. Then
/// it is written down anew, by `encode`, with the gateway as messaging host.
pub fn start_config<F: Fn(&str) -> Result<String, String>>(
    is_container: bool,
    gateway: Result<Option<String>, RuntimeFailure>,
    given: String,
    encode: &F,
) -> (r: Result<String, String>)
    requires
        forall|host: &str| #[trigger] encode.requires((host,)),
    ensures
        match (is_container, gateway) {
            (true, Err(failure)) => r matches Err(text) && text@ == runtime_text(failure),
            (true, Ok(Some(host))) => exists|answer: Result<String, String>|
                #[trigger] writes(*encode, host@, answer) && match answer {
                    Ok(config) => r == Ok::<String, String>(config),
                    Err(why) => r matches Err(text) && text@
                        == "Failed to serialize runtime config: "@ + why@,
                },
            _ => r == Ok::<String, String>(given),
        },
{
    if !is_container {
        return Ok(given);
    }
    match gateway {
        Err(failure) => Err(runtime_refusal(&failure)),
        Ok(None) => Ok(given),
        Ok(Some(host)) => {
            let asked = host.as_str();
            let answer = encode(asked);
            proof {
                assert(asked@ == host@ && encode.ensures((asked,), answer));
                assert(writes(*encode, host@, answer));
            }
            match answer {
                Ok(config) => Ok(config),
                Err(why) => Err(serialize_refusal(why.as_str())),
            }
        },
    }
}

/// What is reported of a start: what it came to, and a panic as a failure that its
/// log does not hold yet.
pub fn run_node_start(end: TaskEnd) -> (r: TaskReport)
    ensures
        match end {
            TaskEnd::Finished(result) => r == (TaskReport { result, unlogged: false }),
            TaskEnd::Panicked(payload) => r.unlogged && (r.result matches Err(text) && text@
                == "node_start task panicked: "@ + panic_text(payload)),
        },
{
    match end {
        TaskEnd::Finished(result) => TaskReport { result, unlogged: false },
        TaskEnd::Panicked(payload) => {
            let mut text: String = "node_start task panicked: ".to_owned();
            text.append(panic_message(&payload).as_str());
            TaskReport { result: Err(text), unlogged: true }
        },
    }
}

/// Whether a goal and the stack let a start go ahead: every variable is fine, the
/// instance id is a name, the node is there and built, and the arguments give every
/// parameter of its schema.
pub open spec fn may_start(
    goal: RunGoal,
    host: RunHost,
    name_problem: Option<String>,
    entity: Option<EntityFacts>,
    schema: Seq<(String, AnyType)>,
) -> bool {
    &&& forall|k: int|
        0 <= k < goal.env_vars@.len() ==> is_fine_key(
            trimmed((#[trigger] goal.env_vars@[k]).0@),
            texts(host.forbidden@),
        ) && is_fine_value(goal.env_vars@[k].1@)
    &&& name_problem is None
    &&& entity matches Some(facts) && facts.built && forall|keys: Seq<Seq<char>>| #[trigger]
        leads_to_parameter(schema, keys) ==> is_given(facts.arguments@, keys)
}

/// A start is prepared only where goal and stack let it go ahead, and then with all
/// that it is asked for: the goal's variables in their order before those that the
/// daemon adds, and every mount path of a container resolved and allowed. Where
/// nothing is to be mounted, it is prepared wherever they let it.
pub proof fn only_a_start_that_may_go_ahead_is_prepared<F: Fn(&str) -> bool>(
    goal: RunGoal,
    host: RunHost,
    name_problem: Option<String>,
    entity: Option<EntityFacts>,
    schema: Vec<(String, AnyType)>,
    is_blocked: F,
    r: Preparation,
)
    requires
        call_ensures(
            prepare_start::<F>,
            (&goal, &host, &name_problem, &entity, &schema, &is_blocked),
            r,
        ),
    ensures
        r.outcome matches Ok(prepared) ==> {
            &&& may_start(goal, host, name_problem, entity, schema@)
            &&& entity matches Some(facts) && prepared.is_container == (facts.container is Some)
                && prepared.mounts@.len() == (match facts.container {
                Some(paths) => paths@.len(),
                None => 0,
            }) && mounts_resolve(
                listed_mounts(facts),
                facts.arguments@,
                is_blocked,
                prepared.mounts@,
            )
            &&& prepared.env_vars@.len() >= goal.env_vars@.len()
            &&& forall|k: int|
                0 <= k < goal.env_vars@.len() ==> (#[trigger] prepared.env_vars@[k]).0@ == trimmed(
                    goal.env_vars@[k].0@,
                ) && prepared.env_vars@[k].1@ == goal.env_vars@[k].1@
            &&& sets(prepared.env_vars@, PEPPY_APPTAINER_BIN_ENV_VAR@)
            &&& sets(prepared.env_vars@, PEPPY_NODE_NAME_ENV_VAR@)
            &&& sets(prepared.env_vars@, PEPPY_NODE_TAG_ENV_VAR@)
        },
        may_start(goal, host, name_problem, entity, schema@) && (entity matches Some(facts) && (
        facts.container matches Some(paths) ==> paths@.len() == 0)) ==> r.outcome is Ok,
{
    lemma_env_passes(goal, host);
    let n = schema@.len() as int;
    assert(schema@.take(n) =~= schema@);
    if let Some(facts) = entity {
        let missing = missing_paths(schema, facts.arguments@, ""@, n);
        reveal_strlit("");
        if missing.len() > 0 {
            assert(missing.contains(missing[0]));
            let keys = lemma_missing_leads(schema, facts.arguments@, ""@, n, missing[0]);
            assert(leads_to_parameter(schema@, keys) && !is_given(facts.arguments@, keys));
        } else {
            assert forall|keys: Seq<Seq<char>>| #[trigger]
                leads_to_parameter(schema@, keys) implies is_given(facts.arguments@, keys) by {
                if !is_given(facts.arguments@, keys) {
                    let told = lemma_missing(schema, facts.arguments@, ""@, n, keys);
                    assert(missing.contains(told));
                }
            }
        }
        if let Ok(prepared) = r.outcome {
            lemma_prepared_env(goal, host, facts, prepared.env_vars@);
        }
        if may_start(goal, host, name_problem, entity, schema@) && listed_mounts(facts).len() == 0 {
            if let Err(RunRefusal::Told(text)) = r.outcome {
                let problem = choose|problem: MountProblem| #[trigger]
                    first_problem(listed_mounts(facts), facts.arguments@, is_blocked, problem)
                        && text@ == mount_text(problem);
            }
        }
    }
}

/// A start that is refused by the stack is told what is wrong: why its id is no
/// name, or which node is not there or not built.
pub proof fn a_refused_start_is_told_what_is_wrong<F: Fn(&str) -> bool>(
    goal: RunGoal,
    host: RunHost,
    name_problem: Option<String>,
    entity: Option<EntityFacts>,
    schema: Vec<(String, AnyType)>,
    is_blocked: F,
    r: Preparation,
)
    requires
        env_passes(goal, host),
        call_ensures(
            prepare_start::<F>,
            (&goal, &host, &name_problem, &entity, &schema, &is_blocked),
            r,
        ),
    ensures
        !(r.outcome matches Err(RunRefusal::Env(_))),
        name_problem matches Some(why) ==> (r.outcome matches Err(RunRefusal::Told(text))
            && mentions(text@, why@)),
        name_problem is None && !(entity matches Some(facts) && facts.built) ==> (
        r.outcome matches Err(RunRefusal::Told(text)) && mentions(
            text@,
            goal.node_name@ + ":"@ + goal.tag@,
        )),
{
    if let Some(why) = name_problem {
        what_is_written_is_mentioned("Invalid instance_id: "@, why@, ""@);
    }
    let named = goal.node_name@ + ":"@ + goal.tag@;
    let missing = "' not found in node stack"@;
    let unbuilt = "' has not been built yet (still in Added stage)"@;
    what_is_written_is_mentioned("Node '"@, named, missing);
    what_is_written_is_mentioned("Node '"@, named, unbuilt);
    assert("Node '"@ + goal.node_name@ + ":"@ + goal.tag@ + missing =~= "Node '"@ + named
        + missing);
    assert("Node '"@ + goal.node_name@ + ":"@ + goal.tag@ + unbuilt =~= "Node '"@ + named
        + unbuilt);
}

/// A started process receives the configuration that was given, unless it is a container
/// with a gateway: then it receives what is written down for that gateway, and a failure
/// to find the gateway or to write is one of the start.
pub proof fn only_a_gateway_changes_the_configuration<F: Fn(&str) -> Result<String, String>>(
    is_container: bool,
    gateway: Result<Option<String>, RuntimeFailure>,
    given: String,
    encode: F,
    r: Result<String, String>,
)
    requires
        call_ensures(start_config::<F>, (is_container, gateway, given, &encode), r),
    ensures
        !is_container ==> r == Ok::<String, String>(given),
        is_container && gateway is Err ==> r is Err,
        is_container ==> (gateway matches Ok(found) ==> (found is None ==> r == Ok::<
            String,
            String,
        >(given))),
        is_container ==> (gateway matches Ok(Some(host)) ==> (r matches Ok(config) ==> writes(
            encode,
            host@,
            Ok(config),
        ))),
{
}

/// A start is reported as it ended; a panic is a failure that says what it panicked with,
/// and the only one that is still to be written to the log.
pub proof fn a_panic_is_a_failed_start(end: TaskEnd, r: TaskReport)
    requires
        call_ensures(run_node_start, (end,), r),
    ensures
        r.unlogged <==> end is Panicked,
        end matches TaskEnd::Finished(result) ==> r.result == result,
        end matches TaskEnd::Panicked(payload) ==> (r.result matches Err(text) && mentions(
            text@,
            panic_text(payload),
        )),
{
    if let TaskEnd::Panicked(payload) = end {
        what_is_written_is_mentioned("node_start task panicked: "@, panic_text(payload), ""@);
    }
}

} // verus!
