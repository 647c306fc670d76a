//! Removing a node from the stack: its instances are probed, stopped where the
//! request asks for that, cleared, and the node is taken out.
use crate::order::{
    lemma_picked_next, lemma_picked_none, picked, picked_lists_hold_what_is_wanted,
};
use crate::run::watch::InstanceState;
use crate::text::{copy_all, mentions, str_eq, texts, what_is_written_is_mentioned};
use vstd::prelude::*;
use vstd::string::*;

verus! {

/// An instance of the node.
pub struct TrackedInstance {
    pub instance_id: String,
    pub state: InstanceState,
}

/// Whether an instance has a live process that can be asked to stop. One that
/// is starting is left to its own start.
pub open spec fn is_live(state: InstanceState) -> bool {
    state == InstanceState::Running
}

/// Whether an instance has exited of its own and is still tracked.
pub open spec fn is_ended(state: InstanceState) -> bool {
    state == InstanceState::Finished || state == InstanceState::Failed
}

/// The ids of the live instances, in order.
pub open spec fn live_ids(instances: Seq<TrackedInstance>) -> Seq<Seq<char>>
    decreases instances.len(),
{
    if instances.len() == 0 {
        Seq::empty()
    } else {
        let before = live_ids(instances.drop_last());
        if is_live(instances.last().state) {
            before.push(instances.last().instance_id@)
        } else {
            before
        }
    }
}

/// The ids of the ended instances, in order.
pub open spec fn ended_ids(instances: Seq<TrackedInstance>) -> Seq<Seq<char>>
    decreases instances.len(),
{
    if instances.len() == 0 {
        Seq::empty()
    } else {
        let before = ended_ids(instances.drop_last());
        if is_ended(instances.last().state) {
            before.push(instances.last().instance_id@)
        } else {
            before
        }
    }
}

/// The first `n` ids whose probe answered as `reachable` says, in order.
pub open spec fn probed_as(
    ids: Seq<Seq<char>>,
    probes: Seq<Result<bool, String>>,
    reachable: bool,
    n: int,
) -> Seq<Seq<char>>
    decreases n,
{
    if n <= 0 || n > ids.len() || n > probes.len() {
        Seq::empty()
    } else {
        let before = probed_as(ids, probes, reachable, n - 1);
        if probes[n - 1] == Ok::<bool, String>(reachable) {
            before.push(ids[n - 1])
        } else {
            before
        }
    }
}

/// How many of two lists stand side by side.
pub open spec fn paired_len(a: nat, b: nat) -> int {
    if a <= b {
        a as int
    } else {
        b as int
    }
}

/// The first failure among the results for a list of ids, with its id.
pub open spec fn first_failure<T>(
    ids: Seq<Seq<char>>,
    results: Seq<Result<T, String>>,
    id: Seq<char>,
    why: Seq<char>,
) -> bool {
    exists|i: int|
        0 <= i < paired_len(ids.len(), results.len()) && id == ids[i] && ((#[trigger] results[i])
            matches Err(text) && why == text@) && forall|k: int|
            0 <= k < i ==> (#[trigger] results[k]) is Ok
}

/// Whether no result for a list of ids is a failure.
pub open spec fn no_failure<T>(ids: Seq<Seq<char>>, results: Seq<Result<T, String>>) -> bool {
    forall|k: int|
        0 <= k < paired_len(ids.len(), results.len()) ==> (#[trigger] results[k]) is Ok
}

/// The first failure among the results for a list of ids.
fn find_failure<T>(ids: &Vec<String>, results: &Vec<Result<T, String>>) -> (r: Option<(
    String,
    String,
)>)
    ensures
        match r {
            Some(found) => first_failure(texts(ids@), results@, found.0@, found.1@) && !no_failure(
                texts(ids@),
                results@,
            ),
            None => no_failure(texts(ids@), results@),
        },
{
    let mut i: usize = 0;
    while i < ids.len() && i < results.len()
        invariant
            i <= ids@.len(),
            i <= results@.len(),
            forall|k: int| 0 <= k < i ==> (#[trigger] results@[k]) is Ok,
        decreases ids.len() - i,
    {
        if let Err(why) = &results[i] {
            proof {
                assert(texts(ids@)[i as int] == ids@[i as int]@);
                assert(!(results@[i as int] is Ok));
            }
            return Some((ids[i].clone(), why.clone()));
        }
        i += 1;
    }
    None
}

/// What a removal waits for.
#[derive(Clone, Copy, Debug, PartialEq, Eq, Structural)]
pub enum RemovePhase {
    Lookup,
    Probe,
    Shutdown,
    Remove,
    Done,
}

/// What came of the action that a removal waits for.
pub enum RemoveEvent {
    /// The core node's identity, and the instances of the node that the
    /// request names, where the stack holds it.
    Looked { root_name: String, root_tag: String, instances: Option<Vec<TrackedInstance>> },
    /// Whether each live instance can be reached, in order.
    Probed(Vec<Result<bool, String>>),
    /// What came of asking each reachable instance to stop, in order.
    ShutDown(Vec<Result<(), String>>),
    /// Whether the node could be taken out of the stack.
    Removed(Option<String>),
}

/// What a removal does next.
pub enum RemoveAction {
    /// Probe these instances.
    Probe(Vec<String>),
    /// Ask these instances to stop.
    Shutdown(Vec<String>),
    /// Clear these instances from the stack, dissolve what relates to them,
    /// and take the node out.
    Remove(Vec<String>),
    Succeed,
    Fail(String),
}

/// One removal.
pub struct NodeRemove {
    pub node_name: String,
    pub tag: String,
    pub stop_instances: bool,
    pub phase: RemovePhase,
    /// The instances with a live process.
    pub live: Vec<String>,
    /// The instances that have exited of their own.
    pub ended: Vec<String>,
    /// The live instances that can be reached.
    pub reachable: Vec<String>,
}

/// Whether an action fails a removal with this text.
pub open spec fn refuses(action: Option<RemoveAction>, text: Seq<char>) -> bool {
    action matches Some(RemoveAction::Fail(told)) && told@ == text
}

/// Whether a removal is over and nothing else of it has changed.
pub open spec fn ends(before: NodeRemove, after: NodeRemove) -> bool {
    after == (NodeRemove { phase: RemovePhase::Done, ..before })
}

/// The instance that the refusal of a removal names: a reachable one, else an
/// unreachable one, else an ended one.
pub open spec fn example(
    reachable: Seq<Seq<char>>,
    unreachable: Seq<Seq<char>>,
    ended: Seq<Seq<char>>,
) -> Seq<char> {
    if reachable.len() > 0 {
        reachable[0]
    } else if unreachable.len() > 0 {
        unreachable[0]
    } else {
        ended[0]
    }
}

/// The refusal of a removal that would leave instances behind.
pub open spec fn tracked_text(node_name: Seq<char>, id: Seq<char>) -> Seq<char> {
    "Node '"@ + node_name + "' has tracked instances (e.g. '"@ + id
        + "'); set stop_instances=true to clear them before removing"@
}

/// Whether an event leads a removal from one state to another, with this
/// action.
pub open spec fn remove_steps(
    before: NodeRemove,
    event: RemoveEvent,
    after: NodeRemove,
    action: Option<RemoveAction>,
) -> bool {
    &&& after.node_name == before.node_name
    &&& after.tag == before.tag
    &&& after.stop_instances == before.stop_instances
    &&& match (before.phase, event) {
        (RemovePhase::Lookup, RemoveEvent::Looked { root_name, root_tag, instances }) => if root_name@
            == before.node_name@ && root_tag@ == before.tag@ {
            ends(before, after) && refuses(
                action,
                "Cannot remove the core node from the node stack"@,
            )
        } else {
            match instances {
                None => ends(before, after) && refuses(
                    action,
                    "Node '"@ + before.node_name@ + ":"@ + before.tag@
                        + "' not found in node stack"@,
                ),
                Some(list) => {
                    &&& after.phase == RemovePhase::Probe
                    &&& texts(after.live@) == live_ids(list@)
                    &&& texts(after.ended@) == ended_ids(list@)
                    &&& after.reachable == before.reachable
                    &&& action matches Some(RemoveAction::Probe(ids)) && texts(ids@) == live_ids(
                        list@,
                    )
                },
            }
        },
        (RemovePhase::Probe, RemoveEvent::Probed(probes)) => {
            let ids = texts(before.live@);
            let n = paired_len(ids.len(), probes@.len());
            let reachable = probed_as(ids, probes@, true, n);
            let unreachable = probed_as(ids, probes@, false, n);
            let ended = texts(before.ended@);
            if !no_failure(ids, probes@) {
                ends(before, after) && exists|id: Seq<char>, why: Seq<char>|
                    #[trigger] first_failure(ids, probes@, id, why) && refuses(
                        action,
                        "Failed to check shutdown service for instance '"@ + id + "': "@ + why,
                    )
            } else if before.stop_instances {
                &&& after.live == before.live && after.ended == before.ended
                &&& after.phase == RemovePhase::Shutdown
                &&& texts(after.reachable@) == reachable
                &&& action matches Some(RemoveAction::Shutdown(list)) && texts(list@) == reachable
            } else if reachable.len() > 0 || unreachable.len() > 0 || ended.len() > 0 {
                ends(before, after) && refuses(
                    action,
                    tracked_text(before.node_name@, example(reachable, unreachable, ended)),
                )
            } else {
                &&& after == (NodeRemove { phase: RemovePhase::Remove, ..before })
                &&& action matches Some(RemoveAction::Remove(list)) && texts(list@) == ids + ended
            }
        },
        (RemovePhase::Shutdown, RemoveEvent::ShutDown(results)) => {
            if !no_failure(texts(before.reachable@), results@) {
                ends(before, after) && exists|id: Seq<char>, why: Seq<char>|
                    #[trigger] first_failure(texts(before.reachable@), results@, id, why)
                        && refuses(
                        action,
                        "Failed to stop node instance '"@ + id + "': "@ + why,
                    )
            } else {
                &&& after == (NodeRemove { phase: RemovePhase::Remove, ..before })
                &&& action matches Some(RemoveAction::Remove(list)) && texts(list@) == texts(
                    before.live@,
                ) + texts(before.ended@)
            }
        },
        (RemovePhase::Remove, RemoveEvent::Removed(failure)) => ends(before, after)
            && match failure {
            None => action matches Some(RemoveAction::Succeed),
            Some(why) => refuses(
                action,
                "Failed to remove node config '"@ + before.node_name@ + ":"@ + before.tag@
                    + "': "@ + why@,
            ),
        },
        _ => action is None && after == before,
    }
}

/// Sorts a node's instances into live and ended ones.
fn sort_instances(instances: &Vec<TrackedInstance>) -> (r: (Vec<String>, Vec<String>))
    ensures
        texts(r.0@) == live_ids(instances@),
        texts(r.1@) == ended_ids(instances@),
{
    let mut live: Vec<String> = Vec::new();
    let mut ended: Vec<String> = Vec::new();
    let mut i: usize = 0;
    proof {
        assert(texts(live@) =~= live_ids(instances@.take(0)));
        assert(texts(ended@) =~= ended_ids(instances@.take(0)));
    }
    while i < instances.len()
        invariant
            i <= instances@.len(),
            texts(live@) == live_ids(instances@.take(i as int)),
            texts(ended@) == ended_ids(instances@.take(i as int)),
        decreases instances.len() - i,
    {
        let ghost was_live = texts(live@);
        let ghost was_ended = texts(ended@);
        proof {
            assert(instances@.take(i + 1).drop_last() =~= instances@.take(i as int));
        }
        match instances[i].state {
            InstanceState::Starting => {},
            InstanceState::Running => {
                live.push(instances[i].instance_id.clone());
                proof {
                    assert(texts(live@) =~= was_live.push(instances@[i as int].instance_id@));
                }
            },
            InstanceState::Finished | InstanceState::Failed => {
                ended.push(instances[i].instance_id.clone());
                proof {
                    assert(texts(ended@) =~= was_ended.push(instances@[i as int].instance_id@));
                }
            },
        }
        i += 1;
    }
    proof {
        assert(instances@.take(instances@.len() as int) =~= instances@);
    }
    (live, ended)
}

/// The ids whose probe answered as `reachable` says, in order.
fn select_probed(ids: &Vec<String>, probes: &Vec<Result<bool, String>>, reachable: bool) -> (r: Vec<
    String,
>)
    ensures
        texts(r@) == probed_as(
            texts(ids@),
            probes@,
            reachable,
            paired_len(texts(ids@).len(), probes@.len()),
        ),
{
    let mut out: Vec<String> = Vec::new();
    let mut i: usize = 0;
    proof {
        assert(texts(out@) =~= Seq::<Seq<char>>::empty());
    }
    while i < ids.len() && i < probes.len()
        invariant
            i <= ids@.len(),
            i <= probes@.len(),
            texts(out@) == probed_as(texts(ids@), probes@, reachable, i as int),
        decreases ids.len() - i,
    {
        let ghost before = texts(out@);
        if let Ok(answer) = &probes[i] {
            if *answer == reachable {
                out.push(ids[i].clone());
                proof {
                    assert(texts(out@) =~= before.push(texts(ids@)[i as int]));
                }
            }
        }
        i += 1;
    }
    out
}

impl NodeRemove {
    /// A removal at its beginning.
    pub fn new(node_name: String, tag: String, stop_instances: bool) -> (r: Self)
        ensures
            r.node_name == node_name,
            r.tag == tag,
            r.stop_instances == stop_instances,
            r.phase == RemovePhase::Lookup,
            r.live@.len() == 0,
            r.ended@.len() == 0,
            r.reachable@.len() == 0,
    {
        NodeRemove {
            node_name,
            tag,
            stop_instances,
            phase: RemovePhase::Lookup,
            live: Vec::new(),
            ended: Vec::new(),
            reachable: Vec::new(),
        }
    }

    /// Every instance that is cleared with the node.
    fn all_ids(&self) -> (r: Vec<String>)
        ensures
            texts(r@) == texts(self.live@) + texts(self.ended@),
    {
        let mut all = copy_all(&self.live);
        let mut ended = copy_all(&self.ended);
        let ghost first = texts(all@);
        let ghost second = texts(ended@);
        all.append(&mut ended);
        proof {
            assert(texts(all@) =~= first + second);
        }
        all
    }

    /// Takes what came of the last action and gives the next one; `None`, and
    /// no change, where the removal waits for something else.
    #[verifier::rlimit(60)]
    pub fn step(&mut self, event: RemoveEvent) -> (r: Option<RemoveAction>)
        ensures
            remove_steps(*old(self), event, *final(self), r),
    {
        match (self.phase, event) {
            (RemovePhase::Lookup, RemoveEvent::Looked { root_name, root_tag, instances }) => {
                if str_eq(root_name.as_str(), self.node_name.as_str()) && str_eq(
                    root_tag.as_str(),
                    self.tag.as_str(),
                ) {
                    self.phase = RemovePhase::Done;
                    return Some(
                        RemoveAction::Fail(
                            "Cannot remove the core node from the node stack".to_owned(),
                        ),
                    );
                }
                match instances {
                    None => {
                        let mut text: String = "Node '".to_owned();
                        text.append(self.node_name.as_str());
                        text.append(":");
                        text.append(self.tag.as_str());
                        text.append("' not found in node stack");
                        self.phase = RemovePhase::Done;
                        Some(RemoveAction::Fail(text))
                    },
                    Some(list) => {
                        let sorted = sort_instances(&list);
                        self.live = sorted.0;
                        self.ended = sorted.1;
                        self.phase = RemovePhase::Probe;
                        Some(RemoveAction::Probe(copy_all(&self.live)))
                    },
                }
            },
            (RemovePhase::Probe, RemoveEvent::Probed(probes)) => {
                if let Some(found) = find_failure(&self.live, &probes) {
                    let mut text: String = "Failed to check shutdown service for instance '".to_owned();
                    text.append(found.0.as_str());
                    text.append("': ");
                    text.append(found.1.as_str());
                    self.phase = RemovePhase::Done;
                    proof {
                        assert(first_failure(texts(self.live@), probes@, found.0@, found.1@));
                    }
                    return Some(RemoveAction::Fail(text));
                }
                let reachable = select_probed(&self.live, &probes, true);
                if self.stop_instances {
                    let asked = copy_all(&reachable);
                    self.reachable = reachable;
                    self.phase = RemovePhase::Shutdown;
                    return Some(RemoveAction::Shutdown(asked));
                }
                let unreachable = select_probed(&self.live, &probes, false);
                proof {
                    assert(texts(reachable@).len() == reachable@.len());
                    assert(texts(unreachable@).len() == unreachable@.len());
                    assert(texts(self.ended@).len() == self.ended@.len());
                }
                if reachable.len() > 0 || unreachable.len() > 0 || self.ended.len() > 0 {
                    let named: &String = if reachable.len() > 0 {
                        &reachable[0]
                    } else if unreachable.len() > 0 {
                        &unreachable[0]
                    } else {
                        &self.ended[0]
                    };
                    let mut text: String = "Node '".to_owned();
                    text.append(self.node_name.as_str());
                    text.append("' has tracked instances (e.g. '");
                    text.append(named.as_str());
                    text.append("'); set stop_instances=true to clear them before removing");
                    self.phase = RemovePhase::Done;
                    return Some(RemoveAction::Fail(text));
                }
                self.phase = RemovePhase::Remove;
                Some(RemoveAction::Remove(self.all_ids()))
            },
            (RemovePhase::Shutdown, RemoveEvent::ShutDown(results)) => {
                if let Some(found) = find_failure(&self.reachable, &results) {
                    let mut text: String = "Failed to stop node instance '".to_owned();
                    text.append(found.0.as_str());
                    text.append("': ");
                    text.append(found.1.as_str());
                    self.phase = RemovePhase::Done;
                    proof {
                        assert(first_failure(
                            texts(self.reachable@),
                            results@,
                            found.0@,
                            found.1@,
                        ));
                    }
                    return Some(RemoveAction::Fail(text));
                }
                self.phase = RemovePhase::Remove;
                Some(RemoveAction::Remove(self.all_ids()))
            },
            (RemovePhase::Remove, RemoveEvent::Removed(failure)) => {
                self.phase = RemovePhase::Done;
                match failure {
                    None => Some(RemoveAction::Succeed),
                    Some(why) => {
                        let mut text: String = "Failed to remove node config '".to_owned();
                        text.append(self.node_name.as_str());
                        text.append(":");
                        text.append(self.tag.as_str());
                        text.append("': ");
                        text.append(why.as_str());
                        Some(RemoveAction::Fail(text))
                    },
                }
            },
            _ => None,
        }
    }
}

/// Every probe that did not fail answered one way or the other: the reachable
/// and the unreachable instances together are as many as were probed.
proof fn lemma_probes_answer(ids: Seq<Seq<char>>, probes: Seq<Result<bool, String>>, n: int)
    requires
        0 <= n <= ids.len(),
        n <= probes.len(),
        forall|k: int| 0 <= k < n ==> (#[trigger] probes[k]) is Ok,
    ensures
        probed_as(ids, probes, true, n).len() + probed_as(ids, probes, false, n).len() == n,
    decreases n,
{
    if n > 0 {
        lemma_probes_answer(ids, probes, n - 1);
        let answer = probes[n - 1]->Ok_0;
        assert(probes[n - 1] is Ok);
        assert(probes[n - 1] == Ok::<bool, String>(answer));
        assert(answer == true || answer == false);
    }
}

/// Unless the request asks for it, nothing is shut down, and a node that still
/// has an instance is not removed, as long as every live instance was probed.
pub proof fn instances_block_a_removal_unless_it_stops_them(
    before: NodeRemove,
    event: RemoveEvent,
    after: NodeRemove,
    action: Option<RemoveAction>,
)
    requires
        remove_steps(before, event, after, action),
        !before.stop_instances,
        before.phase == RemovePhase::Lookup || before.phase == RemovePhase::Probe,
        event matches RemoveEvent::Probed(probes) ==> probes@.len() == before.live@.len(),
    ensures
        !(action matches Some(RemoveAction::Shutdown(_))),
        action matches Some(RemoveAction::Remove(list)) ==> list@.len() == 0 && before.live@.len()
            == 0 && before.ended@.len() == 0,
{
    if let RemoveEvent::Probed(probes) = event {
        if before.phase == RemovePhase::Probe && no_failure(texts(before.live@), probes@) {
            let ids = texts(before.live@);
            lemma_probes_answer(ids, probes@, paired_len(ids.len(), probes@.len()));
            if let Some(RemoveAction::Remove(list)) = action {
                assert(texts(list@).len() == list@.len());
            }
        }
    }
}

/// The core node is never removed: the request is refused before anything
/// else.
pub proof fn the_core_node_is_never_removed(
    before: NodeRemove,
    event: RemoveEvent,
    after: NodeRemove,
    action: Option<RemoveAction>,
)
    requires
        remove_steps(before, event, after, action),
        before.phase == RemovePhase::Lookup,
        event matches RemoveEvent::Looked { root_name, root_tag, .. } && root_name@
            == before.node_name@ && root_tag@ == before.tag@,
    ensures
        after.phase == RemovePhase::Done,
        action matches Some(RemoveAction::Fail(_)),
{
}

/// A call of `step` leads a removal as `remove_steps` says.
pub proof fn a_call_steps_the_removal(
    removal: &mut NodeRemove,
    event: RemoveEvent,
    action: Option<RemoveAction>,
)
    requires
        call_ensures(NodeRemove::step, (removal, event), action),
    ensures
        remove_steps(*old(removal), event, *final(removal), action),
{
}

/// Whether the instance at a place runs.
pub open spec fn runs_at(instances: Seq<TrackedInstance>) -> spec_fn(int) -> bool {
    |k: int| instances[k].state == InstanceState::Running
}

/// Whether the instance at a place has exited.
pub open spec fn exited_at(instances: Seq<TrackedInstance>) -> spec_fn(int) -> bool {
    |k: int|
        instances[k].state == InstanceState::Finished || instances[k].state == InstanceState::Failed
}

/// The id of the instance at a place.
pub open spec fn tracked_id(instances: Seq<TrackedInstance>) -> spec_fn(int) -> Seq<char> {
    |k: int| instances[k].instance_id@
}

/// Whether the probe at a place said this.
pub open spec fn answered(probes: Seq<Result<bool, String>>, reachable: bool) -> spec_fn(
    int,
) -> bool {
    |k: int| probes[k] matches Ok(answer) && answer == reachable
}

/// The id at a place.
pub open spec fn id_of(ids: Seq<Seq<char>>) -> spec_fn(int) -> Seq<char> {
    |k: int| ids[k]
}

/// The live ids are those of the instances that run, the ended ones those of the
/// instances that have exited.
proof fn lemma_sorted_instances(instances: Seq<TrackedInstance>, n: int)
    requires
        0 <= n <= instances.len(),
    ensures
        picked(n, runs_at(instances), tracked_id(instances), live_ids(instances.take(n))),
        picked(n, exited_at(instances), tracked_id(instances), ended_ids(instances.take(n))),
    decreases n,
{
    let told = tracked_id(instances);
    if n == 0 {
        lemma_picked_none(runs_at(instances), told);
        lemma_picked_none(exited_at(instances), told);
    } else {
        lemma_sorted_instances(instances, n - 1);
        assert(instances.take(n).drop_last() =~= instances.take(n - 1));
        lemma_picked_next(n - 1, runs_at(instances), told, live_ids(instances.take(n - 1)));
        lemma_picked_next(n - 1, exited_at(instances), told, ended_ids(instances.take(n - 1)));
    }
}

/// The ids that were probed as reachable, or not, are those whose probe said so.
proof fn lemma_probed(
    ids: Seq<Seq<char>>,
    probes: Seq<Result<bool, String>>,
    reachable: bool,
    n: int,
)
    requires
        0 <= n <= ids.len(),
        n <= probes.len(),
    ensures
        picked(n, answered(probes, reachable), id_of(ids), probed_as(ids, probes, reachable, n)),
    decreases n,
{
    let wanted = answered(probes, reachable);
    if n == 0 {
        lemma_picked_none(wanted, id_of(ids));
    } else {
        lemma_probed(ids, probes, reachable, n - 1);
        lemma_picked_next(n - 1, wanted, id_of(ids), probed_as(ids, probes, reachable, n - 1));
    }
}

/// A node that the stack holds, and that is not the core node, has its running
/// instances probed, all of them and no other; a node that it does not hold is
/// refused by name.
pub proof fn the_running_instances_are_probed(
    before: NodeRemove,
    root_name: String,
    root_tag: String,
    instances: Option<Vec<TrackedInstance>>,
    after: NodeRemove,
    action: Option<RemoveAction>,
)
    requires
        before.phase == RemovePhase::Lookup,
        root_name@ != before.node_name@ || root_tag@ != before.tag@,
        remove_steps(
            before,
            RemoveEvent::Looked { root_name, root_tag, instances },
            after,
            action,
        ),
    ensures
        match instances {
            Some(list) => {
                &&& after.phase == RemovePhase::Probe
                &&& picked(
                    list@.len() as int,
                    runs_at(list@),
                    tracked_id(list@),
                    texts(after.live@),
                )
                &&& picked(
                    list@.len() as int,
                    exited_at(list@),
                    tracked_id(list@),
                    texts(after.ended@),
                )
                &&& action matches Some(RemoveAction::Probe(ids)) && texts(ids@) == texts(
                    after.live@,
                )
            },
            None => after.phase == RemovePhase::Done && (action matches Some(
                RemoveAction::Fail(text),
            ) && mentions(text@, before.node_name@ + ":"@ + before.tag@)),
        },
{
    match instances {
        Some(list) => {
            lemma_sorted_instances(list@, list@.len() as int);
            assert(list@.take(list@.len() as int) =~= list@);
        },
        None => {
            let named = before.node_name@ + ":"@ + before.tag@;
            what_is_written_is_mentioned("Node '"@, named, "' not found in node stack"@);
            assert("Node '"@ + before.node_name@ + ":"@ + before.tag@
                + "' not found in node stack"@ =~= "Node '"@ + named
                + "' not found in node stack"@);
        },
    }
}

/// An instance that could not be probed ends a removal before anything is stopped
/// or taken out: the first such failure is reported with its instance.
pub proof fn a_failed_probe_ends_a_removal(
    before: NodeRemove,
    probes: Vec<Result<bool, String>>,
    after: NodeRemove,
    action: Option<RemoveAction>,
    at: int,
)
    requires
        before.phase == RemovePhase::Probe,
        remove_steps(before, RemoveEvent::Probed(probes), after, action),
        0 <= at < probes@.len(),
        at < before.live@.len(),
        probes@[at] is Err,
        forall|k: int| 0 <= k < at ==> (#[trigger] probes@[k]) is Ok,
    ensures
        after.phase == RemovePhase::Done,
        action matches Some(RemoveAction::Fail(text)) && mentions(text@, before.live@[at]@)
            && mentions(text@, probes@[at]->Err_0@),
{
    let ids = texts(before.live@);
    assert(!no_failure(ids, probes@)) by {
        assert(!(probes@[at] is Ok));
    }
    let prefix = "Failed to check shutdown service for instance '"@;
    let (id, why) = choose|id: Seq<char>, why: Seq<char>|
        #[trigger] first_failure(ids, probes@, id, why) && refuses(
            action,
            prefix + id + "': "@ + why,
        );
    lemma_first(ids, probes@, id, why, at);
    lemma_named_failure(prefix, id, why);
}

/// There is one first failure.
proof fn lemma_first<T>(
    ids: Seq<Seq<char>>,
    results: Seq<Result<T, String>>,
    id: Seq<char>,
    why: Seq<char>,
    at: int,
)
    requires
        first_failure(ids, results, id, why),
        0 <= at < ids.len(),
        at < results.len(),
        results[at] is Err,
        forall|k: int| 0 <= k < at ==> (#[trigger] results[k]) is Ok,
    ensures
        id == ids[at],
        why == results[at]->Err_0@,
{
    let i = choose|i: int|
        0 <= i < paired_len(ids.len(), results.len()) && id == ids[i] && ((#[trigger] results[i])
            matches Err(text) && why == text@) && forall|k: int|
            0 <= k < i ==> (#[trigger] results[k]) is Ok;
    if i < at {
        assert(results[i] is Ok);
    }
    if at < i {
        assert(results[at] is Ok);
    }
}

/// A failure that is reported with its instance mentions both.
proof fn lemma_named_failure(prefix: Seq<char>, id: Seq<char>, why: Seq<char>)
    ensures
        mentions(prefix + id + "': "@ + why, id),
        mentions(prefix + id + "': "@ + why, why),
{
    what_is_written_is_mentioned(prefix, id, "': "@ + why);
    assert(prefix + id + "': "@ + why =~= prefix + id + ("': "@ + why));
    what_is_written_is_mentioned(prefix + id + "': "@, why, ""@);
}

/// A removal that stops instances asks exactly those of them that can be reached,
/// once every live one was probed.
pub proof fn reachable_instances_are_asked_to_stop(
    before: NodeRemove,
    probes: Vec<Result<bool, String>>,
    after: NodeRemove,
    action: Option<RemoveAction>,
)
    requires
        before.phase == RemovePhase::Probe,
        before.stop_instances,
        probes@.len() == before.live@.len(),
        forall|k: int| 0 <= k < probes@.len() ==> (#[trigger] probes@[k]) is Ok,
        remove_steps(before, RemoveEvent::Probed(probes), after, action),
    ensures
        after.phase == RemovePhase::Shutdown,
        after.live == before.live,
        after.ended == before.ended,
        picked(
            before.live@.len() as int,
            answered(probes@, true),
            id_of(texts(before.live@)),
            texts(after.reachable@),
        ),
        action matches Some(RemoveAction::Shutdown(ids)) && texts(ids@) == texts(after.reachable@),
{
    lemma_probed(texts(before.live@), probes@, true, before.live@.len() as int);
}

/// A removal that does not stop instances is refused where the node has one, live
/// or exited, and the refusal names one of them. Otherwise the node is taken out.
pub proof fn a_removal_that_stops_nothing_leaves_nothing_behind(
    before: NodeRemove,
    probes: Vec<Result<bool, String>>,
    after: NodeRemove,
    action: Option<RemoveAction>,
)
    requires
        before.phase == RemovePhase::Probe,
        !before.stop_instances,
        probes@.len() == before.live@.len(),
        forall|k: int| 0 <= k < probes@.len() ==> (#[trigger] probes@[k]) is Ok,
        remove_steps(before, RemoveEvent::Probed(probes), after, action),
    ensures
        if before.live@.len() == 0 && before.ended@.len() == 0 {
            after.phase == RemovePhase::Remove && (action matches Some(RemoveAction::Remove(ids))
                && ids@.len() == 0)
        } else {
            after.phase == RemovePhase::Done && (action matches Some(RemoveAction::Fail(text))
                && exists|id: Seq<char>|
                #[trigger] (texts(before.live@) + texts(before.ended@)).contains(id) && mentions(
                    text@,
                    id,
                ))
        },
{
    let ids = texts(before.live@);
    let ended = texts(before.ended@);
    let n = before.live@.len() as int;
    let reachable = probed_as(ids, probes@, true, n);
    let unreachable = probed_as(ids, probes@, false, n);
    lemma_probes_answer(ids, probes@, n);
    lemma_probed(ids, probes@, true, n);
    lemma_probed(ids, probes@, false, n);
    if before.live@.len() == 0 && before.ended@.len() == 0 {
        if let Some(RemoveAction::Remove(list)) = action {
            assert(texts(list@).len() == list@.len());
        }
    } else {
        let id = example(reachable, unreachable, ended);
        let all = ids + ended;
        if reachable.len() > 0 || unreachable.len() > 0 {
            let answer = reachable.len() > 0;
            let list = if answer {
                reachable
            } else {
                unreachable
            };
            assert(list[0] == id);
            assert(list.contains(id));
            picked_lists_hold_what_is_wanted(n, answered(probes@, answer), id_of(ids), list, id);
            let j = choose|j: int|
                0 <= j < n && #[trigger] answered(probes@, answer)(j) && id_of(ids)(j) == id;
            assert(all[j] == id);
        } else {
            assert(all[ids.len() as int] == id);
        }
        assert(all.contains(id));
        let first = "Node '"@ + before.node_name@ + "' has tracked instances (e.g. '"@;
        let rest = "'); set stop_instances=true to clear them before removing"@;
        what_is_written_is_mentioned(first, id, rest);
        assert(tracked_text(before.node_name@, id) =~= first + id + rest);
    }
}

/// A removal that stops instances takes the node out only once each of those that
/// were asked has stopped, and then clears every live and every exited instance
/// with it.
pub proof fn a_node_is_taken_out_only_once_its_instances_stopped(
    before: NodeRemove,
    results: Vec<Result<(), String>>,
    after: NodeRemove,
    action: Option<RemoveAction>,
)
    requires
        before.phase == RemovePhase::Shutdown,
        remove_steps(before, RemoveEvent::ShutDown(results), after, action),
    ensures
        action matches Some(RemoveAction::Remove(ids)) ==> {
            &&& after.phase == RemovePhase::Remove
            &&& texts(ids@) == texts(before.live@) + texts(before.ended@)
            &&& forall|k: int|
                0 <= k < before.reachable@.len() && k < results@.len() ==> (
                #[trigger] results@[k]) is Ok
        },
        (forall|k: int|
            0 <= k < before.reachable@.len() && k < results@.len() ==> (#[trigger] results@[k])
                is Ok) ==> action is Some && action->0 is Remove,
{
    assert(texts(before.reachable@).len() == before.reachable@.len());
}

/// An instance that was asked and did not stop ends a removal: the node stays, and
/// the first such failure is reported with its instance.
pub proof fn an_instance_that_does_not_stop_ends_a_removal(
    before: NodeRemove,
    results: Vec<Result<(), String>>,
    after: NodeRemove,
    action: Option<RemoveAction>,
    at: int,
)
    requires
        before.phase == RemovePhase::Shutdown,
        remove_steps(before, RemoveEvent::ShutDown(results), after, action),
        0 <= at < results@.len(),
        at < before.reachable@.len(),
        results@[at] is Err,
        forall|k: int| 0 <= k < at ==> (#[trigger] results@[k]) is Ok,
    ensures
        after.phase == RemovePhase::Done,
        action matches Some(RemoveAction::Fail(text)) && mentions(text@, before.reachable@[at]@)
            && mentions(text@, results@[at]->Err_0@),
{
    let ids = texts(before.reachable@);
    assert(!no_failure(ids, results@)) by {
        assert(!(results@[at] is Ok));
    }
    let prefix = "Failed to stop node instance '"@;
    let (id, why) = choose|id: Seq<char>, why: Seq<char>|
        #[trigger] first_failure(ids, results@, id, why) && refuses(
            action,
            prefix + id + "': "@ + why,
        );
    lemma_first(ids, results@, id, why, at);
    lemma_named_failure(prefix, id, why);
}

/// A removal succeeds exactly when the stack says that the node is out; else the
/// reason is reported with the node. Either way it is over, and nothing else is an
/// answer in its last phase.
pub proof fn a_removal_succeeds_when_the_node_is_out(
    before: NodeRemove,
    event: RemoveEvent,
    after: NodeRemove,
    action: Option<RemoveAction>,
)
    requires
        remove_steps(before, event, after, action),
    ensures
        action matches Some(RemoveAction::Succeed) <==> before.phase == RemovePhase::Remove
            && event == RemoveEvent::Removed(None),
        before.phase == RemovePhase::Remove && event is Removed ==> after.phase
            == RemovePhase::Done,
        before.phase == RemovePhase::Remove ==> (event matches RemoveEvent::Removed(Some(why))
            ==> (action matches Some(RemoveAction::Fail(text)) && mentions(text@, why@)
            && mentions(text@, before.node_name@))),
        before.phase == RemovePhase::Remove && !(event is Removed) ==> action is None && after
            == before,
        before.phase == RemovePhase::Done ==> action is None && after == before,
{
    if let RemoveEvent::Removed(Some(why)) = event {
        let first = "Failed to remove node config '"@;
        let rest = ":"@ + before.tag@ + "': "@ + why@;
        what_is_written_is_mentioned(first, before.node_name@, rest);
        let whole = first + before.node_name@ + ":"@ + before.tag@ + "': "@ + why@;
        assert(whole =~= first + before.node_name@ + rest);
        what_is_written_is_mentioned(
            first + before.node_name@ + ":"@ + before.tag@ + "': "@,
            why@,
            ""@,
        );
    }
}

} // verus!
