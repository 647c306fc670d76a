//! Building a node that the stack holds.
//!
//! A build detaches the node's staged working directory. From then on every way
//! out leaves the node built, back where it was with the directory attached
//! again, or out of the stack; never half built.
use crate::env::{
    env_problem, inject_node_runtime_env, inject_rust_build_env, is_fine_key, is_fine_value,
    lemma_env_problem, set_if_missing, sets, setting_if_missing_keeps_what_is_set,
    validate_goal_env_vars, EnvError, EnvProblem, PeppygenLanguage, PEPPY_APPTAINER_BIN_ENV_VAR,
    PEPPY_NODE_NAME_ENV_VAR, PEPPY_NODE_TAG_ENV_VAR,
};
use crate::text::{
    decimal, mentions, mentions_carry_over, texts, to_decimal, trimmed,
    what_is_written_is_mentioned,
};
use vstd::prelude::*;
use vstd::string::*;

verus! {

/// What the stack says about a node that is to be built.
pub struct BuildCandidate {
    /// The stage that the node is in, where it cannot be built there.
    pub wrong_stage: Option<String>,
    pub has_working_dir: bool,
    pub generation: u64,
}

/// The beginning of what is said about a node.
pub open spec fn node_text(name: Seq<char>, tag: Seq<char>) -> Seq<char> {
    "node `"@ + name + ":"@ + tag + "`"@
}

/// Why a node cannot be built, where it cannot. `hints` adds what to do about
/// it.
pub open spec fn build_refusal(
    name: Seq<char>,
    tag: Seq<char>,
    candidate: Option<BuildCandidate>,
    hints: bool,
) -> Option<Seq<char>> {
    match candidate {
        None => Some(
            node_text(name, tag) + " is not in the node stack"@ + (if hints {
                ": run `peppy node add` first"@
            } else {
                ""@
            }),
        ),
        Some(found) => match found.wrong_stage {
            Some(stage) => Some(
                node_text(name, tag) + " is in stage `"@ + stage@ + "`; cannot build"@,
            ),
            None => if found.has_working_dir {
                None
            } else {
                Some(
                    node_text(name, tag) + " has no staged working directory"@ + (if hints {
                        "; re-run `peppy node add` to stage one"@
                    } else {
                        ""@
                    }),
                )
            },
        },
    }
}

/// The beginning of what is said about a node.
fn node_words(name: &str, tag: &str) -> (r: String)
    ensures
        r@ == node_text(name@, tag@),
{
    let mut text: String = "node `".to_owned();
    text.append(name);
    text.append(":");
    text.append(tag);
    text.append("`");
    text
}

/// The generation of a node that can be built, or why it cannot be.
pub fn check_buildable(
    name: &str,
    tag: &str,
    candidate: &Option<BuildCandidate>,
    hints: bool,
) -> (r: Result<u64, String>)
    ensures
        match r {
            Ok(generation) => build_refusal(name@, tag@, *candidate, hints) is None && (
            *candidate matches Some(found) && found.generation == generation),
            Err(text) => build_refusal(name@, tag@, *candidate, hints) == Some(text@),
        },
{
    match candidate {
        None => {
            let mut text = node_words(name, tag);
            text.append(" is not in the node stack");
            text.append(if hints { ": run `peppy node add` first" } else { "" });
            Err(text)
        },
        Some(found) => {
            if let Some(stage) = &found.wrong_stage {
                let mut text = node_words(name, tag);
                text.append(" is in stage `");
                text.append(stage.as_str());
                text.append("`; cannot build");
                return Err(text);
            }
            if !found.has_working_dir {
                let mut text = node_words(name, tag);
                text.append(" has no staged working directory");
                text.append(if hints { "; re-run `peppy node add` to stage one" } else { "" });
                return Err(text);
            }
            Ok(found.generation)
        },
    }
}

/// What a build's environment is made of.
pub struct BuildGoal {
    pub node_name: String,
    pub node_tag: String,
    pub env_vars: Vec<(String, String)>,
}

/// What the machine and the node add to it.
pub struct BuildHost {
    /// The keys that no goal may set.
    pub forbidden: Vec<String>,
    pub language: PeppygenLanguage,
    pub sccache_available: bool,
    pub apptainer_bin: String,
}

/// The environment of a build, and the lines for the feedback stream.
pub struct BuildEnv {
    pub env_vars: Vec<(String, String)>,
    pub feedback: Vec<String>,
}

/// What is wrong with the goal's variable at `k`.
pub open spec fn problem_at(goal: BuildGoal, host: BuildHost, k: int) -> Option<EnvProblem> {
    env_problem(goal.env_vars@[k].0@, goal.env_vars@[k].1@, texts(host.forbidden@))
}

/// Whether the build's compiler is wrapped.
pub open spec fn uses_sccache(goal: BuildGoal, host: BuildHost) -> bool {
    host.language == PeppygenLanguage::Rust && host.sccache_available && forall|k: int|
        0 <= k < goal.env_vars@.len() ==> trimmed((#[trigger] goal.env_vars@[k]).0@)
            != "RUSTC_WRAPPER"@
}

/// Whether `checked` is the goal's environment with its keys trimmed.
pub open spec fn is_checked(goal: BuildGoal, checked: Seq<(String, String)>) -> bool {
    checked.len() == goal.env_vars@.len() && forall|k: int|
        0 <= k < checked.len() ==> (#[trigger] checked[k]).0@ == trimmed(goal.env_vars@[k].0@)
            && checked[k].1@ == goal.env_vars@[k].1@
}

/// Whether `env` is the goal's environment, keys trimmed, with what the daemon
/// adds behind it.
pub open spec fn is_build_env(goal: BuildGoal, host: BuildHost, env: Seq<(String, String)>) -> bool {
    exists|
        checked: Seq<(String, String)>,
        wrapped: Seq<(String, String)>,
        first: Seq<(String, String)>,
        second: Seq<(String, String)>,
    |
        #[trigger] is_checked(goal, checked) && (if uses_sccache(goal, host) {
            set_if_missing(checked, wrapped, "RUSTC_WRAPPER"@, "sccache"@)
        } else {
            wrapped == checked
        }) && #[trigger] set_if_missing(
            wrapped,
            first,
            PEPPY_APPTAINER_BIN_ENV_VAR@,
            host.apptainer_bin@,
        ) && #[trigger] set_if_missing(first, second, PEPPY_NODE_NAME_ENV_VAR@, goal.node_name@)
            && set_if_missing(second, env, PEPPY_NODE_TAG_ENV_VAR@, goal.node_tag@)
}

/// The environment of a build, or what is wrong with the first variable that
/// the goal may not set.
pub fn prepare_build(goal: &BuildGoal, host: &BuildHost) -> (r: Result<BuildEnv, EnvError>)
    ensures
        match r {
            Ok(made) => {
                &&& forall|k: int|
                    0 <= k < goal.env_vars@.len() ==> #[trigger] problem_at(*goal, *host, k) is None
                &&& is_build_env(*goal, *host, made.env_vars@)
                &&& texts(made.feedback@) == (if uses_sccache(*goal, *host) {
                    seq!["Using sccache for Rust compilation"@]
                } else {
                    Seq::empty()
                })
            },
            Err(e) => exists|i: int|
                0 <= i < goal.env_vars@.len() && #[trigger] problem_at(*goal, *host, i) == Some(e@)
                    && forall|k: int| 0 <= k < i ==> #[trigger] problem_at(*goal, *host, k) is None,
        },
{
    let mut env_vars = match validate_goal_env_vars(&goal.env_vars, &host.forbidden) {
        Ok(vars) => vars,
        Err(e) => {
            proof {
                let i = choose|i: int|
                    0 <= i < goal.env_vars@.len() && env_problem(
                        (#[trigger] goal.env_vars@[i]).0@,
                        goal.env_vars@[i].1@,
                        texts(host.forbidden@),
                    ) == Some(e@) && forall|k: int|
                        0 <= k < i ==> env_problem(
                            (#[trigger] goal.env_vars@[k]).0@,
                            goal.env_vars@[k].1@,
                            texts(host.forbidden@),
                        ) is None;
                assert(problem_at(*goal, *host, i) == Some(e@));
                assert forall|k: int| 0 <= k < i implies #[trigger] problem_at(*goal, *host, k) is None by {
                    assert(env_problem(
                        goal.env_vars@[k].0@,
                        goal.env_vars@[k].1@,
                        texts(host.forbidden@),
                    ) is None);
                }
            }
            return Err(e);
        },
    };
    let ghost checked = env_vars@;
    proof {
        assert forall|k: int| 0 <= k < goal.env_vars@.len() implies #[trigger] problem_at(
            *goal,
            *host,
            k,
        ) is None by {
            assert(env_problem(
                goal.env_vars@[k].0@,
                goal.env_vars@[k].1@,
                texts(host.forbidden@),
            ) is None);
        }
        assert forall|k: int| 0 <= k < checked.len() implies (#[trigger] checked[k]).0@ == trimmed(
            goal.env_vars@[k].0@,
        ) && checked[k].1@ == goal.env_vars@[k].1@ by {
            let given = goal.env_vars@[k];
        }
        assert(is_checked(*goal, checked));
    }
    let injected = inject_rust_build_env(&mut env_vars, host.language, host.sccache_available);
    proof {
        if sets(checked, "RUSTC_WRAPPER"@) {
            let k = choose|k: int|
                0 <= k < checked.len() && (#[trigger] checked[k]).0@ == "RUSTC_WRAPPER"@;
            assert(trimmed(goal.env_vars@[k].0@) == "RUSTC_WRAPPER"@);
            assert(!uses_sccache(*goal, *host));
        } else {
            assert forall|k: int| 0 <= k < goal.env_vars@.len() implies trimmed(
                (#[trigger] goal.env_vars@[k]).0@,
            ) != "RUSTC_WRAPPER"@ by {
                assert(checked[k].0@ != "RUSTC_WRAPPER"@);
            }
        }
        assert(injected == uses_sccache(*goal, *host));
    }
    let mut feedback: Vec<String> = Vec::new();
    if injected {
        feedback.push("Using sccache for Rust compilation".to_owned());
    }
    proof {
        if injected {
            assert(texts(feedback@) =~= seq!["Using sccache for Rust compilation"@]);
        } else {
            assert(texts(feedback@) =~= Seq::<Seq<char>>::empty());
        }
    }
    inject_node_runtime_env(
        &mut env_vars,
        host.apptainer_bin.clone(),
        goal.node_name.as_str(),
        goal.node_tag.as_str(),
    );
    Ok(BuildEnv { env_vars, feedback })
}

/// What a build waits for.
#[derive(Clone, Copy, Debug, PartialEq, Eq, Structural)]
pub enum BuildPhase {
    /// The detaching of the working directory.
    Detach,
    /// The build itself.
    Build,
    Over,
}

/// What came of the step that a build waits for.
pub enum BuildEvent {
    /// The working directory is detached, or the node's generation is another
    /// one now.
    Detached(Result<(), u64>),
    /// The path of what was built, or why nothing was; and whether the build
    /// was superseded.
    Built { result: Result<String, String>, cancelled: bool },
    /// The task panicked.
    Panicked(String),
}

/// What becomes of the node in the stack.
#[derive(Clone, Copy, Debug, PartialEq, Eq, Structural)]
pub enum Settlement {
    /// It is left as it is.
    Keep,
    /// It goes back to where it was, with its working directory.
    RollBack,
    /// It is taken out.
    Remove,
}

/// What a build does next.
pub enum BuildAction {
    Build,
    Succeed(String),
    /// Settle the node, write the text to the log where `logged` says so, and
    /// report it.
    Fail { settle: Settlement, logged: bool, text: String },
}

/// A build of one node, admitted at the node's `generation`.
pub struct NodeBuild {
    pub name: String,
    pub tag: String,
    pub generation: u64,
    pub phase: BuildPhase,
}

/// Whether an action is a failure with this text.
pub open spec fn fails(
    action: Option<BuildAction>,
    settle: Settlement,
    logged: bool,
    text: Seq<char>,
) -> bool {
    action matches Some(BuildAction::Fail { settle: s, logged: l, text: t }) && s == settle && l
        == logged && t@ == text
}

/// The refusal of a build whose node was replaced.
pub open spec fn replaced_text(build: NodeBuild, current: u64) -> Seq<char> {
    node_text(build.name@, build.tag@) + " was replaced by a concurrent push (generation "@
        + decimal(build.generation as nat) + " -> "@ + decimal(current as nat)
        + "); aborting build"@
}

/// Whether an event leads a build from one state to another, with this action.
pub open spec fn build_steps(
    before: NodeBuild,
    event: BuildEvent,
    after: NodeBuild,
    action: Option<BuildAction>,
) -> bool {
    &&& after == (NodeBuild { phase: after.phase, ..before })
    &&& match (before.phase, event) {
        (BuildPhase::Detach, BuildEvent::Detached(result)) => match result {
            Ok(_) => after.phase == BuildPhase::Build && action == Some(BuildAction::Build),
            Err(current) => after.phase == BuildPhase::Over && fails(
                action,
                Settlement::Keep,
                true,
                replaced_text(before, current),
            ),
        },
        (BuildPhase::Build, BuildEvent::Built { result, cancelled }) => after.phase
            == BuildPhase::Over && match result {
            Ok(path) => action matches Some(BuildAction::Succeed(built)) && built@ == path@,
            Err(why) => if cancelled {
                fails(action, Settlement::RollBack, false, "build cancelled by --force"@)
            } else {
                fails(action, Settlement::Remove, true, "Failed to build node: "@ + why@)
            },
        },
        (BuildPhase::Over, _) => after.phase == before.phase && action is None,
        (_, BuildEvent::Panicked(why)) => after.phase == BuildPhase::Over && fails(
            action,
            if before.phase == BuildPhase::Build {
                Settlement::Remove
            } else {
                Settlement::Keep
            },
            true,
            "node_build task panicked: "@ + why@,
        ),
        _ => after.phase == before.phase && action is None,
    }
}

impl NodeBuild {
    /// A build at its beginning.
    pub fn new(name: String, tag: String, generation: u64) -> (r: Self)
        ensures
            r == (NodeBuild { name, tag, generation, phase: BuildPhase::Detach }),
    {
        NodeBuild { name, tag, generation, phase: BuildPhase::Detach }
    }

    /// Takes what came of the last step and gives the next one; `None`, and no
    /// change, where the build waits for something else.
    pub fn step(&mut self, event: BuildEvent) -> (r: Option<BuildAction>)
        ensures
            build_steps(*old(self), event, *final(self), r),
    {
        match (self.phase, event) {
            (BuildPhase::Detach, BuildEvent::Detached(result)) => match result {
                Ok(_) => {
                    self.phase = BuildPhase::Build;
                    Some(BuildAction::Build)
                },
                Err(current) => {
                    let mut text = node_words(self.name.as_str(), self.tag.as_str());
                    text.append(" was replaced by a concurrent push (generation ");
                    text.append(to_decimal(self.generation).as_str());
                    text.append(" -> ");
                    text.append(to_decimal(current).as_str());
                    text.append("); aborting build");
                    self.phase = BuildPhase::Over;
                    Some(BuildAction::Fail { settle: Settlement::Keep, logged: true, text })
                },
            },
            (BuildPhase::Build, BuildEvent::Built { result, cancelled }) => {
                self.phase = BuildPhase::Over;
                match result {
                    Ok(path) => Some(BuildAction::Succeed(path)),
                    Err(why) => {
                        if cancelled {
                            return Some(
                                BuildAction::Fail {
                                    settle: Settlement::RollBack,
                                    logged: false,
                                    text: "build cancelled by --force".to_owned(),
                                },
                            );
                        }
                        let mut text: String = "Failed to build node: ".to_owned();
                        text.append(why.as_str());
                        Some(BuildAction::Fail { settle: Settlement::Remove, logged: true, text })
                    },
                }
            },
            (BuildPhase::Over, _) => None,
            (_, BuildEvent::Panicked(why)) => {
                let mut text: String = "node_build task panicked: ".to_owned();
                text.append(why.as_str());
                let settle = if self.phase == BuildPhase::Build {
                    Settlement::Remove
                } else {
                    Settlement::Keep
                };
                self.phase = BuildPhase::Over;
                Some(BuildAction::Fail { settle, logged: true, text })
            },
            _ => None,
        }
    }
}

/// Once a build has detached the working directory, it ends with the node built,
/// rolled back or taken out; before that, a failure leaves the node alone.
pub proof fn no_build_leaves_a_node_half_built(
    before: NodeBuild,
    event: BuildEvent,
    after: NodeBuild,
    action: Option<BuildAction>,
)
    requires
        build_steps(before, event, after, action),
        before.phase != BuildPhase::Over,
        after.phase == BuildPhase::Over,
    ensures
        action matches Some(BuildAction::Succeed(_)) ==> before.phase == BuildPhase::Build,
        action matches Some(BuildAction::Fail { settle, .. }) ==> (settle == Settlement::Keep <==>
            before.phase == BuildPhase::Detach),
        action is Some,
{
}

/// Only a build that was superseded rolls its node back, and one that fails of
/// its own takes the node out.
pub proof fn only_a_superseded_build_rolls_back(
    before: NodeBuild,
    event: BuildEvent,
    after: NodeBuild,
    action: Option<BuildAction>,
)
    requires
        build_steps(before, event, after, action),
        action matches Some(BuildAction::Fail { settle, .. }) && settle == Settlement::RollBack,
    ensures
        event matches BuildEvent::Built { result, cancelled } && cancelled && result is Err,
{
}

/// A call of `step` leads a build as `build_steps` says.
pub proof fn a_call_steps_the_build(build: &mut NodeBuild, event: BuildEvent, r: Option<BuildAction>)
    requires
        call_ensures(NodeBuild::step, (build, event), r),
    ensures
        build_steps(*old(build), event, *final(build), r),
{
}

/// A node is built only where the stack holds it, in a stage that it can be built
/// in and with a directory to build it from; the refusal names the node, and the
/// stage where that is the trouble.
pub proof fn only_a_staged_node_is_built(
    name: &str,
    tag: &str,
    candidate: Option<BuildCandidate>,
    hints: bool,
    r: Result<u64, String>,
)
    requires
        call_ensures(check_buildable, (name, tag, &candidate, hints), r),
    ensures
        r is Ok <==> (candidate matches Some(found) && found.wrong_stage is None
            && found.has_working_dir),
        r matches Ok(generation) ==> (candidate matches Some(found) && generation
            == found.generation),
        r matches Err(text) ==> mentions(text@, name@ + ":"@ + tag@),
        r matches Err(text) ==> (candidate matches Some(found) ==> (
        found.wrong_stage matches Some(stage) ==> mentions(text@, stage@))),
{
    if let Err(text) = r {
        let label = name@ + ":"@ + tag@;
        let node = node_text(name@, tag@);
        assert(node =~= "node `"@ + label + "`"@);
        what_is_written_is_mentioned("node `"@, label, "`"@);
        assert(exists|rest: Seq<char>| text@ == #[trigger] (node + rest)) by {
            match candidate {
                None => {
                    let rest = " is not in the node stack"@ + (if hints {
                        ": run `peppy node add` first"@
                    } else {
                        ""@
                    });
                    assert(text@ =~= node + rest);
                },
                Some(found) => match found.wrong_stage {
                    Some(stage) => {
                        let rest = " is in stage `"@ + stage@ + "`; cannot build"@;
                        assert(text@ =~= node + rest);
                    },
                    None => {
                        let rest = " has no staged working directory"@ + (if hints {
                            "; re-run `peppy node add` to stage one"@
                        } else {
                            ""@
                        });
                        assert(text@ =~= node + rest);
                    },
                },
            }
        }
        let rest = choose|rest: Seq<char>| text@ == #[trigger] (node + rest);
        what_is_written_is_mentioned(Seq::empty(), node, rest);
        assert(text@ =~= Seq::<char>::empty() + node + rest);
        mentions_carry_over(text@, node, label);
        if let Some(found) = candidate {
            if let Some(stage) = found.wrong_stage {
                what_is_written_is_mentioned(node + " is in stage `"@, stage@, "`; cannot build"@);
            }
        }
    }
}

/// A build goes ahead only with an environment whose every variable is fine. Its
/// environment begins with the goal's variables, keys trimmed, in their order, and
/// tells the build which node it is and where the container runtime is.
pub proof fn only_a_fine_environment_is_built_with(
    goal: BuildGoal,
    host: BuildHost,
    r: Result<BuildEnv, EnvError>,
)
    requires
        call_ensures(prepare_build, (&goal, &host), r),
    ensures
        r is Ok <==> forall|k: int|
            0 <= k < goal.env_vars@.len() ==> is_fine_key(
                trimmed((#[trigger] goal.env_vars@[k]).0@),
                texts(host.forbidden@),
            ) && is_fine_value(goal.env_vars@[k].1@),
        r matches Ok(made) ==> {
            &&& made.env_vars@.len() >= goal.env_vars@.len()
            &&& forall|k: int|
                0 <= k < goal.env_vars@.len() ==> (#[trigger] made.env_vars@[k]).0@ == trimmed(
                    goal.env_vars@[k].0@,
                ) && made.env_vars@[k].1@ == goal.env_vars@[k].1@
            &&& sets(made.env_vars@, PEPPY_APPTAINER_BIN_ENV_VAR@)
            &&& sets(made.env_vars@, PEPPY_NODE_NAME_ENV_VAR@)
            &&& sets(made.env_vars@, PEPPY_NODE_TAG_ENV_VAR@)
            &&& forall|k: int|
                goal.env_vars@.len() <= k < made.env_vars@.len() ==> {
                    let added = #[trigger] made.env_vars@[k];
                    ||| added.0@ == PEPPY_APPTAINER_BIN_ENV_VAR@ && added.1@ == host.apptainer_bin@
                    ||| added.0@ == PEPPY_NODE_NAME_ENV_VAR@ && added.1@ == goal.node_name@
                    ||| added.0@ == PEPPY_NODE_TAG_ENV_VAR@ && added.1@ == goal.node_tag@
                    ||| added.0@ == "RUSTC_WRAPPER"@ && added.1@ == "sccache"@
                        && host.sccache_available && host.language == PeppygenLanguage::Rust
                }
            &&& host.sccache_available && host.language == PeppygenLanguage::Rust ==> sets(
                made.env_vars@,
                "RUSTC_WRAPPER"@,
            )
        },
{
    assert forall|k: int| 0 <= k < goal.env_vars@.len() implies (#[trigger] problem_at(
        goal,
        host,
        k,
    ) is None <==> is_fine_key(trimmed(goal.env_vars@[k].0@), texts(host.forbidden@))
        && is_fine_value(goal.env_vars@[k].1@)) by {
        lemma_env_problem(goal.env_vars@[k].0@, goal.env_vars@[k].1@, texts(host.forbidden@));
    }
    match r {
        Err(_) => {},
        Ok(made) => {
            assert forall|k: int| 0 <= k < goal.env_vars@.len() implies is_fine_key(
                trimmed((#[trigger] goal.env_vars@[k]).0@),
                texts(host.forbidden@),
            ) && is_fine_value(goal.env_vars@[k].1@) by {
                assert(problem_at(goal, host, k) is None);
            }
            lemma_build_env(goal, host, made.env_vars@);
        },
    }
}

/// What a build's environment holds.
proof fn lemma_build_env(goal: BuildGoal, host: BuildHost, env: Seq<(String, String)>)
    requires
        is_build_env(goal, host, env),
    ensures
        env.len() >= goal.env_vars@.len(),
        forall|k: int|
            0 <= k < goal.env_vars@.len() ==> (#[trigger] env[k]).0@ == trimmed(
                goal.env_vars@[k].0@,
            ) && env[k].1@ == goal.env_vars@[k].1@,
        sets(env, PEPPY_APPTAINER_BIN_ENV_VAR@),
        sets(env, PEPPY_NODE_NAME_ENV_VAR@),
        sets(env, PEPPY_NODE_TAG_ENV_VAR@),
        forall|k: int|
            goal.env_vars@.len() <= k < env.len() ==> {
                let added = #[trigger] env[k];
                ||| added.0@ == PEPPY_APPTAINER_BIN_ENV_VAR@ && added.1@ == host.apptainer_bin@
                ||| added.0@ == PEPPY_NODE_NAME_ENV_VAR@ && added.1@ == goal.node_name@
                ||| added.0@ == PEPPY_NODE_TAG_ENV_VAR@ && added.1@ == goal.node_tag@
                ||| added.0@ == "RUSTC_WRAPPER"@ && added.1@ == "sccache"@
                    && host.sccache_available && host.language == PeppygenLanguage::Rust
            },
        host.sccache_available && host.language == PeppygenLanguage::Rust ==> sets(
            env,
            "RUSTC_WRAPPER"@,
        ),
{
    let (checked, wrapped, first, second) = choose|
        checked: Seq<(String, String)>,
        wrapped: Seq<(String, String)>,
        first: Seq<(String, String)>,
        second: Seq<(String, String)>,
    |
        #[trigger] is_checked(goal, checked) && (if uses_sccache(goal, host) {
            set_if_missing(checked, wrapped, "RUSTC_WRAPPER"@, "sccache"@)
        } else {
            wrapped == checked
        }) && #[trigger] set_if_missing(
            wrapped,
            first,
            PEPPY_APPTAINER_BIN_ENV_VAR@,
            host.apptainer_bin@,
        ) && #[trigger] set_if_missing(first, second, PEPPY_NODE_NAME_ENV_VAR@, goal.node_name@)
            && set_if_missing(second, env, PEPPY_NODE_TAG_ENV_VAR@, goal.node_tag@);
    if uses_sccache(goal, host) {
        setting_if_missing_keeps_what_is_set(checked, wrapped, "RUSTC_WRAPPER"@, "sccache"@);
    }
    setting_if_missing_keeps_what_is_set(
        wrapped,
        first,
        PEPPY_APPTAINER_BIN_ENV_VAR@,
        host.apptainer_bin@,
    );
    setting_if_missing_keeps_what_is_set(first, second, PEPPY_NODE_NAME_ENV_VAR@, goal.node_name@);
    setting_if_missing_keeps_what_is_set(second, env, PEPPY_NODE_TAG_ENV_VAR@, goal.node_tag@);
    if host.sccache_available && host.language == PeppygenLanguage::Rust {
        if !uses_sccache(goal, host) {
            let k = choose|k: int|
                0 <= k < goal.env_vars@.len() && trimmed((#[trigger] goal.env_vars@[k]).0@)
                    == "RUSTC_WRAPPER"@;
            assert(checked[k].0@ == "RUSTC_WRAPPER"@);
        }
        assert(sets(wrapped, "RUSTC_WRAPPER"@));
    }
    assert(sets(first, PEPPY_APPTAINER_BIN_ENV_VAR@));
    assert(sets(second, PEPPY_NODE_NAME_ENV_VAR@));
    assert(sets(env, PEPPY_NODE_TAG_ENV_VAR@));
    assert(sets(second, PEPPY_APPTAINER_BIN_ENV_VAR@));
    if host.sccache_available && host.language == PeppygenLanguage::Rust {
        assert(sets(first, "RUSTC_WRAPPER"@));
        assert(sets(second, "RUSTC_WRAPPER"@));
    }
    assert forall|k: int| 0 <= k < checked.len() implies (#[trigger] env[k]) == checked[k] by {
        assert(wrapped[k] == checked[k]);
        assert(first[k] == wrapped[k]);
        assert(second[k] == first[k]);
    }
    assert forall|k: int| checked.len() <= k < env.len() implies {
        let added = #[trigger] env[k];
        ||| added.0@ == PEPPY_APPTAINER_BIN_ENV_VAR@ && added.1@ == host.apptainer_bin@
        ||| added.0@ == PEPPY_NODE_NAME_ENV_VAR@ && added.1@ == goal.node_name@
        ||| added.0@ == PEPPY_NODE_TAG_ENV_VAR@ && added.1@ == goal.node_tag@
        ||| added.0@ == "RUSTC_WRAPPER"@ && added.1@ == "sccache"@ && host.sccache_available
            && host.language == PeppygenLanguage::Rust
    } by {
        if k < second.len() {
            assert(env[k] == second[k]);
            if k < first.len() {
                assert(second[k] == first[k]);
                if k < wrapped.len() {
                    assert(first[k] == wrapped[k]);
                }
            }
        }
    }
}

/// A build succeeds only with what was built, and builds only from a directory that
/// was detached.
pub proof fn only_what_was_built_is_a_success(
    before: NodeBuild,
    event: BuildEvent,
    after: NodeBuild,
    action: Option<BuildAction>,
)
    requires
        build_steps(before, event, after, action),
    ensures
        action matches Some(BuildAction::Succeed(path)) ==> (event matches BuildEvent::Built {
            result: Ok(built),
            ..
        } && path@ == built@ && before.phase == BuildPhase::Build),
        action == Some(BuildAction::Build) ==> before.phase == BuildPhase::Detach && (
        event matches BuildEvent::Detached(Ok(_))) && after.phase == BuildPhase::Build,
        before.phase == BuildPhase::Build && (event matches BuildEvent::Built {
            result: Ok(_),
            ..
        }) ==> (action matches Some(BuildAction::Succeed(_))) && after.phase == BuildPhase::Over,
        before.phase == BuildPhase::Detach && (event matches BuildEvent::Detached(Ok(_))) ==> action
            == Some(BuildAction::Build),
        after.name == before.name && after.tag == before.tag && after.generation
            == before.generation,
{
}

/// A failure ends a build, and says why: that the node was replaced, and since when;
/// what the build ran into; or what the task panicked with.
pub proof fn a_failed_build_says_why(
    before: NodeBuild,
    event: BuildEvent,
    after: NodeBuild,
    action: Option<BuildAction>,
)
    requires
        build_steps(before, event, after, action),
        match event {
            BuildEvent::Detached(result) => before.phase == BuildPhase::Detach && result is Err,
            BuildEvent::Built { result, .. } => before.phase == BuildPhase::Build && result is Err,
            BuildEvent::Panicked(_) => before.phase != BuildPhase::Over,
        },
    ensures
        after.phase == BuildPhase::Over,
        action matches Some(BuildAction::Fail { settle, logged, text }) && match event {
            BuildEvent::Detached(result) => settle == Settlement::Keep && logged && mentions(
                text@,
                before.name@ + ":"@ + before.tag@,
            ) && (result matches Err(current) && mentions(text@, decimal(current as nat)))
                && mentions(text@, decimal(before.generation as nat)),
            BuildEvent::Built { result, cancelled } => if cancelled {
                settle == Settlement::RollBack && !logged
            } else {
                settle == Settlement::Remove && logged && (result matches Err(why) && mentions(
                    text@,
                    why@,
                ))
            },
            BuildEvent::Panicked(why) => logged && mentions(text@, why@) && settle == (
            if before.phase == BuildPhase::Build {
                Settlement::Remove
            } else {
                Settlement::Keep
            }),
        },
{
    match event {
        BuildEvent::Detached(Err(current)) => {
            let label = before.name@ + ":"@ + before.tag@;
            let now = decimal(current as nat);
            let old_one = decimal(before.generation as nat);
            let head = node_text(before.name@, before.tag@)
                + " was replaced by a concurrent push (generation "@;
            let tail = "); aborting build"@;
            let text = replaced_text(before, current);
            what_is_written_is_mentioned(head + old_one + " -> "@, now, tail);
            what_is_written_is_mentioned(head, old_one, " -> "@ + now + tail);
            assert(text =~= head + old_one + (" -> "@ + now + tail));
            let rest = "`"@ + " was replaced by a concurrent push (generation "@ + old_one + " -> "@
                + now + tail;
            what_is_written_is_mentioned("node `"@, label, rest);
            assert(text =~= "node `"@ + label + rest);
        },
        BuildEvent::Built { result: Err(why), .. } => {
            what_is_written_is_mentioned("Failed to build node: "@, why@, ""@);
        },
        BuildEvent::Panicked(why) => {
            what_is_written_is_mentioned("node_build task panicked: "@, why@, ""@);
        },
        _ => {},
    }
}

} // verus!
