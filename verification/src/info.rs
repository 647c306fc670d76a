//! Answering questions about one node.
use crate::paths::{join_path, joined_path};
use crate::run::watch::InstanceState;
use vstd::prelude::*;
use vstd::string::*;

verus! {

/// Why a question is not answered.
pub enum InfoError {
    /// The question is no good.
    Invalid(String),
    /// The answer could not be made.
    Internal(String),
}

/// How the answering of a question went.
pub enum InfoRun {
    Answered,
    Failed(InfoError),
    TimedOut,
}

/// What a caller is told.
pub enum InfoOutcome {
    Answer,
    /// The caller's fault, under the caller's id.
    InvalidRequest { identifier: String, reason: String },
    /// The service's fault.
    ServiceError { instance_id: String, reason: String },
    Timeout,
}

/// What a caller is told: only a question that is no good is the caller's fault.
pub fn route_info(sender_instance_id: &str, run: InfoRun) -> (r: InfoOutcome)
    ensures
        match (run, r) {
            (InfoRun::Answered, InfoOutcome::Answer) => true,
            (InfoRun::Failed(InfoError::Invalid(why)), InfoOutcome::InvalidRequest {
                identifier,
                reason,
            }) => identifier@ == sender_instance_id@ && reason@ == why@,
            (InfoRun::Failed(InfoError::Internal(why)), InfoOutcome::ServiceError {
                instance_id,
                reason,
            }) => instance_id@ == sender_instance_id@ && reason@ == why@,
            (InfoRun::TimedOut, InfoOutcome::Timeout) => true,
            _ => false,
        },
{
    match run {
        InfoRun::Answered => InfoOutcome::Answer,
        InfoRun::Failed(InfoError::Invalid(reason)) => InfoOutcome::InvalidRequest {
            identifier: sender_instance_id.to_owned(),
            reason,
        },
        InfoRun::Failed(InfoError::Internal(reason)) => InfoOutcome::ServiceError {
            instance_id: sender_instance_id.to_owned(),
            reason,
        },
        InfoRun::TimedOut => InfoOutcome::Timeout,
    }
}

/// What the stack says of an instance. `B` is what its slots are bound to.
pub struct InstanceFacts<B> {
    pub instance_id: String,
    pub state: InstanceState,
    pub healthy: bool,
    pub slot_bindings: B,
}

/// What the stack says of a node. `C` is its declaration and `S` its stage.
pub struct NodeFacts<C, S, B> {
    pub config: C,
    pub stage: S,
    pub instances: Vec<InstanceFacts<B>>,
    /// The log of the add that brought it.
    pub add_log_path: Option<String>,
}

/// What a caller is told of an instance. `V` is what its pairing slots hold.
pub struct NodeInstanceInfo<B, V> {
    pub instance_id: String,
    pub state: InstanceState,
    pub healthy: bool,
    pub slot_bindings: B,
    pub pairing_slots: V,
}

/// What a caller is told of a node.
pub struct NodeInfo<C, S, B, V> {
    pub config: C,
    /// The fingerprint of the declaration.
    pub config_integrity: String,
    pub stage: S,
    pub instances: Vec<NodeInstanceInfo<B, V>>,
    pub add_log_path: Option<String>,
    /// The logs of the instances' runs, in the order of the instances.
    pub run_log_paths: Vec<String>,
}

/// What the answer to a question says.
pub enum InfoAnswer<C, S, B, V> {
    /// The stack does not hold the node. That is an answer, not an error.
    NotInStack,
    Found(NodeInfo<C, S, B, V>),
}

/// The log of an instance's run.
pub open spec fn log_path_text(run_log_dir: Seq<char>, instance_id: Seq<char>) -> Seq<char> {
    joined_path(run_log_dir, instance_id + ".log"@)
}

/// The log of an instance's run.
pub fn run_log_path(run_log_dir: &str, instance_id: &str) -> (r: String)
    ensures
        r@ == log_path_text(run_log_dir@, instance_id@),
{
    let mut name: String = instance_id.to_owned();
    name.append(".log");
    join_path(run_log_dir, name.as_str())
}

/// Whether a caller is told of an instance what the stack says of it, with what
/// `pairing_slots` answers for its id.
pub open spec fn tells_instance<B, V, F: Fn(&str) -> V>(
    facts: InstanceFacts<B>,
    info: NodeInstanceInfo<B, V>,
    pairing_slots: F,
) -> bool {
    &&& info.instance_id == facts.instance_id
    &&& info.state == facts.state
    &&& info.healthy == facts.healthy
    &&& info.slot_bindings == facts.slot_bindings
    &&& exists|id: &str|
        id@ == facts.instance_id@ && #[trigger] pairing_slots.ensures((id,), info.pairing_slots)
}

/// Whether a caller is told of a node what the stack says of it.
pub open spec fn tells_node<C, S, B, V, F: Fn(&str) -> V>(
    facts: NodeFacts<C, S, B>,
    fingerprint: Seq<char>,
    run_log_dir: Seq<char>,
    info: NodeInfo<C, S, B, V>,
    pairing_slots: F,
) -> bool {
    &&& info.config == facts.config
    &&& info.config_integrity@ == fingerprint
    &&& info.stage == facts.stage
    &&& info.add_log_path == facts.add_log_path
    &&& info.instances@.len() == facts.instances@.len()
    &&& forall|k: int|
        0 <= k < facts.instances@.len() ==> tells_instance(
            facts.instances@[k],
            #[trigger] info.instances@[k],
            pairing_slots,
        )
    &&& info.run_log_paths@.len() == facts.instances@.len()
    &&& forall|k: int|
        0 <= k < facts.instances@.len() ==> (#[trigger] info.run_log_paths@[k])@ == log_path_text(
            run_log_dir,
            facts.instances@[k].instance_id@,
        )
}

/// The answer to a question. `found` is what the stack says of the node, where it
/// holds it; `fingerprint` is that of its declaration, or why there is none;
/// `pairing_slots` tells what the pairing slots of an instance hold.
pub fn answer_info<C, S, B, V, F: Fn(&str) -> V>(
    decoded: Result<(), String>,
    found: Option<NodeFacts<C, S, B>>,
    fingerprint: Result<String, String>,
    run_log_dir: &str,
    pairing_slots: &F,
) -> (r: Result<InfoAnswer<C, S, B, V>, InfoError>)
    requires
        forall|id: &str| #[trigger] pairing_slots.requires((id,)),
    ensures
        match decoded {
            Err(why) => r matches Err(InfoError::Invalid(text)) && text == why,
            Ok(_) => match found {
                None => r matches Ok(InfoAnswer::NotInStack),
                Some(facts) => match fingerprint {
                    Err(why) => r matches Err(InfoError::Internal(text)) && text == why,
                    Ok(print) => r matches Ok(InfoAnswer::Found(info)) && tells_node(
                        facts,
                        print@,
                        run_log_dir@,
                        info,
                        *pairing_slots,
                    ),
                },
            },
        },
{
    if let Err(why) = decoded {
        return Err(InfoError::Invalid(why));
    }
    let facts = match found {
        None => {
            return Ok(InfoAnswer::NotInStack);
        },
        Some(facts) => facts,
    };
    let config_integrity = match fingerprint {
        Err(why) => {
            return Err(InfoError::Internal(why));
        },
        Ok(print) => print,
    };
    let ghost listed = facts.instances@;
    let mut instances: Vec<NodeInstanceInfo<B, V>> = Vec::new();
    let mut run_log_paths: Vec<String> = Vec::new();
    for instance in it: facts.instances
        invariant
            it.seq() == listed,
            instances@.len() == it.index(),
            run_log_paths@.len() == it.index(),
            forall|k: int|
                0 <= k < it.index() ==> tells_instance(
                    listed[k],
                    #[trigger] instances@[k],
                    *pairing_slots,
                ),
            forall|k: int|
                0 <= k < it.index() ==> (#[trigger] run_log_paths@[k])@ == log_path_text(
                    run_log_dir@,
                    listed[k].instance_id@,
                ),
            forall|id: &str| #[trigger] pairing_slots.requires((id,)),
    {
        run_log_paths.push(run_log_path(run_log_dir, instance.instance_id.as_str()));
        let id = instance.instance_id.as_str();
        let slots = pairing_slots(id);
        assert(id@ == instance.instance_id@ && pairing_slots.ensures((id,), slots));
        instances.push(
            NodeInstanceInfo {
                instance_id: instance.instance_id,
                state: instance.state,
                healthy: instance.healthy,
                slot_bindings: instance.slot_bindings,
                pairing_slots: slots,
            },
        );
        proof {
            let at = instances@.len() - 1;
            assert(instances@[at].pairing_slots == slots);
            assert(tells_instance(listed[at], instances@[at], *pairing_slots));
        }
    }
    Ok(
        InfoAnswer::Found(
            NodeInfo {
                config: facts.config,
                config_integrity,
                stage: facts.stage,
                instances,
                add_log_path: facts.add_log_path,
                run_log_paths,
            },
        ),
    )
}

/// The failure to encode an answer.
pub fn encoding_problem(why: &str) -> (r: InfoError)
    ensures
        r matches InfoError::Internal(text) && text@ == "failed to encode NodeInfoResponse: "@
            + why@,
{
    let mut text: String = "failed to encode NodeInfoResponse: ".to_owned();
    text.append(why);
    InfoError::Internal(text)
}

/// Only a question that is no good is the caller's fault, and whoever is at fault is told
/// why.
pub proof fn a_caller_is_told_whose_fault_it_is(
    sender_instance_id: &str,
    run: InfoRun,
    r: InfoOutcome,
)
    requires
        call_ensures(route_info, (sender_instance_id, run), r),
    ensures
        r is Answer <==> run is Answered,
        r is Timeout <==> run is TimedOut,
        r is InvalidRequest <==> (run matches InfoRun::Failed(problem) && problem is Invalid),
        r is ServiceError <==> (run matches InfoRun::Failed(problem) && problem is Internal),
        r matches InfoOutcome::InvalidRequest { reason, .. } ==> (
        run matches InfoRun::Failed(InfoError::Invalid(why)) && reason@ == why@),
        r matches InfoOutcome::ServiceError { reason, .. } ==> (
        run matches InfoRun::Failed(InfoError::Internal(why)) && reason@ == why@),
{
}

/// A node that the stack holds is told of as the stack has it, instance by instance; one
/// that it does not hold is no error. Only a question that cannot be read, or a
/// declaration without a fingerprint, is.
pub proof fn an_answer_says_what_the_stack_says<C, S, B, V, F: Fn(&str) -> V>(
    decoded: Result<(), String>,
    found: Option<NodeFacts<C, S, B>>,
    fingerprint: Result<String, String>,
    run_log_dir: &str,
    pairing_slots: F,
    r: Result<InfoAnswer<C, S, B, V>, InfoError>,
)
    requires
        call_ensures(
            answer_info::<C, S, B, V, F>,
            (decoded, found, fingerprint, run_log_dir, &pairing_slots),
            r,
        ),
    ensures
        r is Err <==> decoded is Err || (found is Some && fingerprint is Err),
        r matches Ok(answer) ==> (answer is NotInStack <==> found is None),
        r matches Ok(InfoAnswer::Found(info)) ==> (found matches Some(facts) && info.config
            == facts.config && info.stage == facts.stage && info.add_log_path == facts.add_log_path
            && info.instances@.len() == facts.instances@.len() && info.run_log_paths@.len()
            == facts.instances@.len() && forall|k: int|
            0 <= k < facts.instances@.len() ==> (#[trigger] info.instances@[k]).instance_id
                == facts.instances@[k].instance_id && info.instances@[k].state
                == facts.instances@[k].state && info.instances@[k].healthy
                == facts.instances@[k].healthy && info.instances@[k].slot_bindings
                == facts.instances@[k].slot_bindings),
        r matches Ok(InfoAnswer::Found(info)) ==> (fingerprint matches Ok(print)
            && info.config_integrity@ == print@),
{
    if let Ok(InfoAnswer::Found(info)) = r {
        if let Some(facts) = found {
            assert forall|k: int| 0 <= k < facts.instances@.len() implies (
            #[trigger] info.instances@[k]).instance_id == facts.instances@[k].instance_id
                && info.instances@[k].state == facts.instances@[k].state
                && info.instances@[k].healthy == facts.instances@[k].healthy
                && info.instances@[k].slot_bindings == facts.instances@[k].slot_bindings by {
                assert(tells_instance(
                    facts.instances@[k],
                    info.instances@[k],
                    pairing_slots,
                ));
            }
        }
    }
}

} // verus!
