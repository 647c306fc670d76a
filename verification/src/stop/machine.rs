//! The stop of a batch of instances, step by step.
//!
//! Every instance is asked to shut down. A container that could not be asked is
//! signalled instead. Then the processes are waited for, up to a deadline that
//! the asking counts against, and whatever process group is known is killed.
use super::{
    container_keys, failed_containers, force_kill_deadline, force_plan, has_pid, is_guest,
    is_unreached, key_at, known_pids, lemma_container_keys, lemma_known_pids, lemma_unreached,
    outcome_of, pid_at, span_limit, the_place, unreached_containers, DoomedInstance, ForcePlan,
    StopOutcome,
};
use crate::order::{lemma_picked_next, lemma_picked_none, picked, picked_at};
use crate::text::{decimal, mentions, texts, to_decimal, what_is_written_is_mentioned};
use crate::time::Span;
use vstd::prelude::*;
use vstd::string::*;

verus! {

/// What a stop waits for.
#[derive(Clone, Copy, Debug, PartialEq, Eq, Structural)]
pub enum StopPhase {
    /// The answers to the shutdown requests.
    Ask,
    /// The signals inside the virtual machine.
    SignalGuests,
    /// The signals to process groups.
    SignalGroups,
    /// The end of the processes.
    Await,
    /// The look at which processes still run.
    Look,
    /// The kill.
    Kill,
    /// The end of what was killed.
    Reap,
    Over,
}

/// What came of the step that a stop waits for.
pub enum StopEvent {
    /// Every request is answered or has failed; `true` marks a failure.
    Asked(Vec<bool>),
    /// Whether the containers were signalled inside a virtual machine.
    GuestsSignalled(bool),
    GroupsSignalled,
    AllGone,
    /// The deadline for the cooperative part has passed.
    DeadlinePassed,
    /// Of each instance, whether its process runs.
    Looked(Vec<bool>),
    /// The groups are killed, and the kill inside the virtual machine is over or
    /// was given up on.
    Killed,
    /// The killed groups are gone, or were waited for long enough.
    Reaped,
}

/// What a stop does next.
pub enum StopAction {
    /// Terminate these containers inside their virtual machine.
    SignalGuests(Vec<String>),
    /// Terminate the process groups of these processes.
    SignalGroups(Vec<u32>),
    AwaitExit,
    Look,
    /// Kill these process groups, then these containers inside their virtual
    /// machine, and report these warnings.
    Kill { plan: ForcePlan, warnings: Vec<String> },
    AwaitReap,
    Finish,
}

/// One stop of a batch of instances.
pub struct ForceStop {
    pub doomed: Vec<DoomedInstance>,
    /// The hooks' grace.
    pub grace: Span,
    /// How long the cooperative part may take.
    pub deadline: Span,
    pub phase: StopPhase,
    /// The containers that could not be asked, by their places.
    pub unreached: Vec<usize>,
    /// How each instance ended.
    pub outcomes: Vec<StopOutcome>,
}

/// The ids of the instances at these places.
pub open spec fn ids_at(doomed: Seq<DoomedInstance>, places: Seq<usize>) -> Seq<Seq<char>> {
    places.map_values(|place: usize| doomed[place as int].instance_id@)
}

/// The processes of the instances at these places.
pub open spec fn pids_at(doomed: Seq<DoomedInstance>, places: Seq<usize>) -> Seq<u32> {
    places.map_values(|place: usize| doomed[place as int].pid->0)
}

/// Whether a list of places is another list of whole numbers.
pub open spec fn same_places(places: Seq<usize>, numbers: Seq<int>) -> bool {
    places.map_values(|place: usize| place as int) == numbers
}

/// The warning that an instance is killed.
pub open spec fn kill_warning(
    id: Seq<char>,
    deadline_secs: nat,
    grace_secs: nat,
    pid: nat,
) -> Seq<char> {
    "Node instance '"@ + id + "' did not exit within its "@ + decimal(deadline_secs)
        + "s cooperative shutdown window ("@ + decimal(grace_secs)
        + "s grace + runtime teardown); force-killing its process group (pid "@ + decimal(pid)
        + ")"@
}

/// The whole seconds of a span, up to the most that are counted.
pub open spec fn secs_of(span: Span) -> nat {
    if span.nanos / 1_000_000_000 <= u64::MAX {
        (span.nanos / 1_000_000_000) as nat
    } else {
        u64::MAX as nat
    }
}

/// The warnings about the first `n` instances: one for each that still runs.
pub open spec fn kill_warnings(stop: ForceStop, running: Seq<bool>, n: int) -> Seq<Seq<char>>
    decreases n,
{
    if n <= 0 || n > stop.doomed@.len() {
        Seq::empty()
    } else {
        let before = kill_warnings(stop, running, n - 1);
        match stop.doomed@[n - 1].pid {
            Some(pid) if running[n - 1] => before.push(
                kill_warning(
                    stop.doomed@[n - 1].instance_id@,
                    secs_of(stop.deadline),
                    secs_of(stop.grace),
                    pid as nat,
                ),
            ),
            _ => before,
        }
    }
}

/// Whether a plan is what the forced part does to these instances.
pub open spec fn is_force_plan(
    plan: ForcePlan,
    doomed: Seq<DoomedInstance>,
    running: Seq<bool>,
) -> bool {
    &&& plan.kill@ == known_pids(doomed, doomed.len() as int)
    &&& texts(plan.guest_keys@) == container_keys(doomed, doomed.len() as int)
    &&& plan.outcomes@ == outcomes_of(doomed, running)
}

/// How each instance ended.
pub open spec fn outcomes_of(doomed: Seq<DoomedInstance>, running: Seq<bool>) -> Seq<StopOutcome> {
    Seq::new(doomed.len(), |k: int| outcome_of(doomed[k].pid, running[k]))
}

/// Whether the cooperative part is going on.
pub open spec fn is_cooperative(phase: StopPhase) -> bool {
    phase == StopPhase::Ask || phase == StopPhase::SignalGuests || phase == StopPhase::SignalGroups
        || phase == StopPhase::Await
}

/// How a stop goes on.
pub open spec fn stop_steps(
    before: ForceStop,
    event: StopEvent,
    after: ForceStop,
    step: Option<StopAction>,
) -> bool {
    &&& after.doomed == before.doomed
    &&& after.grace == before.grace
    &&& after.deadline == before.deadline
    &&& match (before.phase, event) {
        (StopPhase::Ask, StopEvent::Asked(failed)) if failed@.len() == before.doomed@.len() => {
            let unreached = unreached_containers(
                before.doomed@,
                failed@,
                before.doomed@.len() as int,
            );
            &&& after.outcomes == before.outcomes
            &&& same_places(after.unreached@, unreached)
            &&& if unreached.len() == 0 {
                after.phase == StopPhase::Await && step == Some(StopAction::AwaitExit)
            } else {
                &&& after.phase == StopPhase::SignalGuests
                &&& step matches Some(StopAction::SignalGuests(keys)) && texts(keys@) == ids_at(
                    before.doomed@,
                    after.unreached@,
                )
            }
        },
        (StopPhase::SignalGuests, StopEvent::GuestsSignalled(signalled)) => {
            &&& after.outcomes == before.outcomes
            &&& after.unreached == before.unreached
            &&& if signalled {
                after.phase == StopPhase::Await && step == Some(StopAction::AwaitExit)
            } else {
                &&& after.phase == StopPhase::SignalGroups
                &&& step matches Some(StopAction::SignalGroups(pids)) && pids@ == pids_at(
                    before.doomed@,
                    before.unreached@,
                )
            }
        },
        (StopPhase::SignalGroups, StopEvent::GroupsSignalled) => {
            &&& after.outcomes == before.outcomes
            &&& after.unreached == before.unreached
            &&& after.phase == StopPhase::Await
            &&& step == Some(StopAction::AwaitExit)
        },
        (StopPhase::Await, StopEvent::AllGone) => {
            &&& after.outcomes == before.outcomes
            &&& after.unreached == before.unreached
            &&& after.phase == StopPhase::Look
            &&& step == Some(StopAction::Look)
        },
        (phase, StopEvent::DeadlinePassed) if is_cooperative(phase) => {
            &&& after.outcomes == before.outcomes
            &&& after.unreached == before.unreached
            &&& after.phase == StopPhase::Look
            &&& step == Some(StopAction::Look)
        },
        (StopPhase::Look, StopEvent::Looked(running)) if running@.len() == before.doomed@.len() => {
            &&& after.unreached == before.unreached
            &&& after.phase == StopPhase::Kill
            &&& after.outcomes@ == outcomes_of(before.doomed@, running@)
            &&& step matches Some(StopAction::Kill { plan, warnings }) && is_force_plan(
                plan,
                before.doomed@,
                running@,
            ) && texts(warnings@) == kill_warnings(before, running@, before.doomed@.len() as int)
        },
        (StopPhase::Kill, StopEvent::Killed) => {
            &&& after.outcomes == before.outcomes
            &&& after.unreached == before.unreached
            &&& after.phase == StopPhase::Reap
            &&& step == Some(StopAction::AwaitReap)
        },
        (StopPhase::Reap, StopEvent::Reaped) => {
            &&& after.outcomes == before.outcomes
            &&& after.unreached == before.unreached
            &&& after.phase == StopPhase::Over
            &&& step == Some(StopAction::Finish)
        },
        _ => after == before && step is None,
    }
}

/// Copies a list of outcomes.
fn copy_outcomes(list: &Vec<StopOutcome>) -> (r: Vec<StopOutcome>)
    ensures
        r@ == list@,
{
    let mut out: Vec<StopOutcome> = Vec::new();
    let mut i: usize = 0;
    while i < list.len()
        invariant
            i <= list@.len(),
            out@ == list@.take(i as int),
        decreases list.len() - i,
    {
        out.push(list[i]);
        proof {
            assert(out@ =~= list@.take(i + 1));
        }
        i += 1;
    }
    proof {
        assert(list@.take(list@.len() as int) =~= list@);
    }
    out
}

impl ForceStop {
    /// Whether what the stop remembers of its instances fits them.
    pub open spec fn valid(self) -> bool {
        forall|k: int|
            0 <= k < self.unreached@.len() ==> (#[trigger] self.unreached@[k])
                < self.doomed@.len() && self.doomed@[self.unreached@[k] as int].pid is Some
    }

    /// A stop of these instances, which begins with a request to each of them.
    pub fn new(
        doomed: Vec<DoomedInstance>,
        grace: Span,
        event_loop_join_secs: u64,
        runtime_finalize_secs: u64,
    ) -> (r: Self)
        requires
            event_loop_join_secs + runtime_finalize_secs <= u64::MAX,
            grace.nanos + (event_loop_join_secs + runtime_finalize_secs) * 1_000_000_000
                < span_limit(),
        ensures
            r.valid(),
            r.doomed == doomed,
            r.grace == grace,
            r.deadline.nanos == super::exit_cost(
                grace.nanos as int,
                event_loop_join_secs as int,
                runtime_finalize_secs as int,
            ),
            r.phase == StopPhase::Ask,
            r.outcomes@.len() == 0,
    {
        let deadline = force_kill_deadline(grace, event_loop_join_secs, runtime_finalize_secs);
        ForceStop {
            doomed,
            grace,
            deadline,
            phase: StopPhase::Ask,
            unreached: Vec::new(),
            outcomes: Vec::new(),
        }
    }

    /// The ids of the containers that could not be asked.
    fn unreached_ids(&self) -> (r: Vec<String>)
        requires
            self.valid(),
        ensures
            texts(r@) == ids_at(self.doomed@, self.unreached@),
    {
        let mut out: Vec<String> = Vec::new();
        let mut i: usize = 0;
        while i < self.unreached.len()
            invariant
                self.valid(),
                i <= self.unreached@.len(),
                out@.len() == i,
                forall|k: int|
                    0 <= k < i ==> (#[trigger] out@[k])@ == ids_at(
                        self.doomed@,
                        self.unreached@,
                    )[k],
            decreases self.unreached.len() - i,
        {
            let place: usize = self.unreached[i];
            out.push(self.doomed[place].instance_id.clone());
            i += 1;
        }
        proof {
            assert(texts(out@) =~= ids_at(self.doomed@, self.unreached@));
        }
        out
    }

    /// The processes of the containers that could not be asked.
    fn unreached_pids(&self) -> (r: Vec<u32>)
        requires
            self.valid(),
        ensures
            r@ == pids_at(self.doomed@, self.unreached@),
    {
        let mut out: Vec<u32> = Vec::new();
        let mut i: usize = 0;
        while i < self.unreached.len()
            invariant
                self.valid(),
                i <= self.unreached@.len(),
                out@.len() == i,
                forall|k: int|
                    0 <= k < i ==> #[trigger] out@[k] == pids_at(self.doomed@, self.unreached@)[k],
            decreases self.unreached.len() - i,
        {
            let place: usize = self.unreached[i];
            if let Some(pid) = self.doomed[place].pid {
                out.push(pid);
            }
            i += 1;
        }
        proof {
            assert(out@ =~= pids_at(self.doomed@, self.unreached@));
        }
        out
    }

    /// The warnings about the instances that still run.
    fn warnings(&self, running: &Vec<bool>) -> (r: Vec<String>)
        requires
            running@.len() == self.doomed@.len(),
        ensures
            texts(r@) == kill_warnings(*self, running@, self.doomed@.len() as int),
    {
        let mut out: Vec<String> = Vec::new();
        let mut i: usize = 0;
        proof {
            assert(texts(out@) =~= kill_warnings(*self, running@, 0));
        }
        while i < self.doomed.len()
            invariant
                i <= self.doomed@.len(),
                running@.len() == self.doomed@.len(),
                texts(out@) == kill_warnings(*self, running@, i as int),
            decreases self.doomed.len() - i,
        {
            if let Some(pid) = self.doomed[i].pid {
                if running[i] {
                    let ghost before = texts(out@);
                    let mut text: String = "Node instance '".to_owned();
                    text.append(self.doomed[i].instance_id.as_str());
                    text.append("' did not exit within its ");
                    text.append(to_decimal(self.deadline.as_secs()).as_str());
                    text.append("s cooperative shutdown window (");
                    text.append(to_decimal(self.grace.as_secs()).as_str());
                    text.append("s grace + runtime teardown); force-killing its process group (pid ");
                    text.append(to_decimal(pid as u64).as_str());
                    text.append(")");
                    let ghost added = text@;
                    out.push(text);
                    proof {
                        assert(texts(out@) =~= before.push(added));
                    }
                }
            }
            i += 1;
        }
        out
    }

    /// Goes on after an event. An event that does not answer what the stop waits
    /// for changes nothing.
    #[verifier::rlimit(60)]
    pub fn step(&mut self, event: StopEvent) -> (r: Option<StopAction>)
        requires
            old(self).valid(),
        ensures
            final(self).valid(),
            stop_steps(*old(self), event, *final(self), r),
    {
        match (self.phase, event) {
            (StopPhase::Ask, StopEvent::Asked(failed)) => {
                if failed.len() != self.doomed.len() {
                    return None;
                }
                self.unreached = failed_containers(&self.doomed, &failed);
                proof {
                    assert(self.unreached@.map_values(|place: usize| place as int)
                        =~= unreached_containers(
                        self.doomed@,
                        failed@,
                        self.doomed@.len() as int,
                    ));
                }
                if self.unreached.len() == 0 {
                    self.phase = StopPhase::Await;
                    return Some(StopAction::AwaitExit);
                }
                self.phase = StopPhase::SignalGuests;
                Some(StopAction::SignalGuests(self.unreached_ids()))
            },
            (StopPhase::SignalGuests, StopEvent::GuestsSignalled(signalled)) => {
                if signalled {
                    self.phase = StopPhase::Await;
                    return Some(StopAction::AwaitExit);
                }
                self.phase = StopPhase::SignalGroups;
                Some(StopAction::SignalGroups(self.unreached_pids()))
            },
            (StopPhase::SignalGroups, StopEvent::GroupsSignalled) => {
                self.phase = StopPhase::Await;
                Some(StopAction::AwaitExit)
            },
            (StopPhase::Await, StopEvent::AllGone) => {
                self.phase = StopPhase::Look;
                Some(StopAction::Look)
            },
            (
                StopPhase::Ask
                | StopPhase::SignalGuests
                | StopPhase::SignalGroups
                | StopPhase::Await,
                StopEvent::DeadlinePassed,
            ) => {
                self.phase = StopPhase::Look;
                Some(StopAction::Look)
            },
            (StopPhase::Look, StopEvent::Looked(running)) => {
                if running.len() != self.doomed.len() {
                    return None;
                }
                let plan = force_plan(&self.doomed, &running);
                let warnings = self.warnings(&running);
                proof {
                    assert(plan.outcomes@ =~= outcomes_of(self.doomed@, running@));
                }
                self.outcomes = copy_outcomes(&plan.outcomes);
                self.phase = StopPhase::Kill;
                Some(StopAction::Kill { plan, warnings })
            },
            (StopPhase::Kill, StopEvent::Killed) => {
                self.phase = StopPhase::Reap;
                Some(StopAction::AwaitReap)
            },
            (StopPhase::Reap, StopEvent::Reaped) => {
                self.phase = StopPhase::Over;
                Some(StopAction::Finish)
            },
            _ => None,
        }
    }
}

/// Whether these states, events and steps are a stop from its beginning on.
pub open spec fn is_stop(
    states: Seq<ForceStop>,
    events: Seq<StopEvent>,
    steps: Seq<Option<StopAction>>,
) -> bool {
    &&& states.len() == events.len() + 1
    &&& steps.len() == events.len()
    &&& states[0].phase == StopPhase::Ask
    &&& forall|k: int|
        0 <= k < events.len() ==> stop_steps(
            states[k],
            #[trigger] events[k],
            states[k + 1],
            steps[k],
        )
}

/// Whether a step kills the process groups of these instances.
pub open spec fn kills_all(step: Option<StopAction>, doomed: Seq<DoomedInstance>) -> bool {
    step matches Some(StopAction::Kill { plan, .. }) && plan.kill@ == known_pids(
        doomed,
        doomed.len() as int,
    ) && texts(plan.guest_keys@) == container_keys(doomed, doomed.len() as int)
}

/// No stop is over before every known process group was killed, whatever was
/// answered and whatever failed on the way; and it then knows how each instance
/// ended.
pub proof fn no_stop_ends_without_the_kill(
    states: Seq<ForceStop>,
    events: Seq<StopEvent>,
    steps: Seq<Option<StopAction>>,
)
    requires
        is_stop(states, events, steps),
        states.last().phase == StopPhase::Over,
    ensures
        exists|k: int| 0 <= k < steps.len() && kills_all(#[trigger] steps[k], states[0].doomed@),
        states.last().outcomes@.len() == states[0].doomed@.len(),
{
    lemma_killed(states, events, steps, events.len() as int);
}

/// Once a stop is past its look, the kill is behind it.
proof fn lemma_killed(
    states: Seq<ForceStop>,
    events: Seq<StopEvent>,
    steps: Seq<Option<StopAction>>,
    n: int,
)
    requires
        is_stop(states, events, steps),
        0 <= n <= events.len(),
    ensures
        states[n].doomed == states[0].doomed,
        !is_cooperative(states[n].phase) && states[n].phase != StopPhase::Look ==> (exists|k: int|
            0 <= k < n && kills_all(#[trigger] steps[k], states[0].doomed@))
            && states[n].outcomes@.len() == states[0].doomed@.len(),
    decreases n,
{
    if n > 0 {
        lemma_killed(states, events, steps, n - 1);
        let event = events[n - 1];
        assert(stop_steps(states[n - 1], event, states[n], steps[n - 1]));
        if states[n - 1].phase == StopPhase::Look && states[n].phase == StopPhase::Kill {
            assert(kills_all(steps[n - 1], states[0].doomed@));
        }
    }
}

/// What the answer to a stop request waits for.
#[derive(Clone, Copy, Debug, PartialEq, Eq, Structural)]
pub enum NodeStopPhase {
    Claim,
    Stop,
    Remove,
    TearDown,
    Over,
}

/// What came of the step that a stop request waits for.
#[derive(Clone, Copy, Debug, PartialEq, Eq, Structural)]
pub enum NodeStopEvent {
    Claimed,
    Stopped(StopOutcome),
    Removed,
    TornDown,
}

/// What a stop request does next.
#[derive(Clone, Copy, Debug, PartialEq, Eq, Structural)]
pub enum NodeStopAction {
    /// Stop the instance and wait until its process is gone.
    Stop,
    /// Take the instance out of its node's list.
    Remove,
    /// Dissolve its pairs and drop its observations.
    TearDown,
    /// Answer that it is stopped.
    Answer { force_killed: bool },
}

/// One stop request that was not refused. It begins with the claim of the
/// instance, so that its exit is not taken for one of its own.
pub struct NodeStop {
    pub phase: NodeStopPhase,
    pub outcome: Option<StopOutcome>,
}

/// How a stop request goes on.
pub open spec fn node_stop_steps(
    before: NodeStop,
    event: NodeStopEvent,
    after: NodeStop,
    step: Option<NodeStopAction>,
) -> bool {
    match (before.phase, event) {
        (NodeStopPhase::Claim, NodeStopEvent::Claimed) => after == (NodeStop {
            phase: NodeStopPhase::Stop,
            ..before
        }) && step == Some(NodeStopAction::Stop),
        (NodeStopPhase::Stop, NodeStopEvent::Stopped(outcome)) => after == (NodeStop {
            phase: NodeStopPhase::Remove,
            outcome: Some(outcome),
        }) && step == Some(NodeStopAction::Remove),
        (NodeStopPhase::Remove, NodeStopEvent::Removed) => after == (NodeStop {
            phase: NodeStopPhase::TearDown,
            ..before
        }) && step == Some(NodeStopAction::TearDown),
        (NodeStopPhase::TearDown, NodeStopEvent::TornDown) => after == (NodeStop {
            phase: NodeStopPhase::Over,
            ..before
        }) && step == Some(
            NodeStopAction::Answer {
                force_killed: before.outcome == Some(StopOutcome::ForceKilled),
            },
        ),
        _ => after == before && step is None,
    }
}

impl NodeStop {
    pub fn new() -> (r: Self)
        ensures
            r == (NodeStop { phase: NodeStopPhase::Claim, outcome: None }),
    {
        NodeStop { phase: NodeStopPhase::Claim, outcome: None }
    }

    /// Goes on after an event. An event that does not answer what the request
    /// waits for changes nothing.
    #[verifier::rlimit(60)]
    pub fn step(&mut self, event: NodeStopEvent) -> (r: Option<NodeStopAction>)
        ensures
            node_stop_steps(*old(self), event, *final(self), r),
    {
        match (self.phase, event) {
            (NodeStopPhase::Claim, NodeStopEvent::Claimed) => {
                self.phase = NodeStopPhase::Stop;
                Some(NodeStopAction::Stop)
            },
            (NodeStopPhase::Stop, NodeStopEvent::Stopped(outcome)) => {
                self.phase = NodeStopPhase::Remove;
                self.outcome = Some(outcome);
                Some(NodeStopAction::Remove)
            },
            (NodeStopPhase::Remove, NodeStopEvent::Removed) => {
                self.phase = NodeStopPhase::TearDown;
                Some(NodeStopAction::TearDown)
            },
            (NodeStopPhase::TearDown, NodeStopEvent::TornDown) => {
                self.phase = NodeStopPhase::Over;
                let force_killed = match self.outcome {
                    Some(StopOutcome::ForceKilled) => true,
                    _ => false,
                };
                Some(NodeStopAction::Answer { force_killed })
            },
            _ => None,
        }
    }
}

/// An instance stays in its node's list until its process is gone: it is taken
/// out only in answer to the end of the stop.
pub proof fn an_instance_is_listed_until_it_is_gone(
    before: NodeStop,
    event: NodeStopEvent,
    after: NodeStop,
    step: Option<NodeStopAction>,
)
    requires
        node_stop_steps(before, event, after, step),
    ensures
        step == Some(NodeStopAction::Remove) <==> before.phase == NodeStopPhase::Stop
            && event is Stopped,
        step is Some && step->0 is Answer ==> before.phase == NodeStopPhase::TearDown,
{
}

/// A call of `step` leads a stop as `stop_steps` says.
pub proof fn a_call_steps_the_stop(stop: &mut ForceStop, event: StopEvent, step: Option<StopAction>)
    requires
        call_ensures(ForceStop::step, (stop, event), step),
    ensures
        stop_steps(*old(stop), event, *final(stop), step),
        final(stop).valid(),
{
}

/// What is picked by place is picked by what stands there.
proof fn lemma_picked_through<B>(
    n: int,
    wanted: spec_fn(int) -> bool,
    told: spec_fn(int) -> B,
    places: Seq<int>,
    list: Seq<B>,
)
    requires
        picked(n, wanted, the_place(), places),
        list.len() == places.len(),
        forall|k: int| 0 <= k < list.len() ==> #[trigger] list[k] == told(places[k]),
    ensures
        picked(n, wanted, told, list),
{
    let at = choose|at: Seq<int>| #[trigger] picked_at(n, wanted, the_place(), places, at);
    assert forall|k: int| 0 <= k < at.len() implies 0 <= #[trigger] at[k] < n && wanted(at[k])
        && list[k] == told(at[k]) by {
        assert(places[k] == the_place()(at[k]));
    }
    assert(picked_at(n, wanted, told, list, at));
}

/// Exactly the containers with a known process that could not be asked are
/// signalled, all of them, before the wait: inside their virtual machine, and
/// where there is none, by their process groups. Where every one could be asked,
/// the wait begins at once.
pub proof fn who_could_not_be_asked_is_signalled(
    before: ForceStop,
    failed: Vec<bool>,
    between: ForceStop,
    asked: Option<StopAction>,
    after: ForceStop,
    signalled: Option<StopAction>,
)
    requires
        before.phase == StopPhase::Ask,
        failed@.len() == before.doomed@.len(),
        stop_steps(before, StopEvent::Asked(failed), between, asked),
        stop_steps(between, StopEvent::GuestsSignalled(false), after, signalled),
    ensures
        match asked {
            Some(StopAction::SignalGuests(keys)) => keys@.len() > 0 && picked(
                before.doomed@.len() as int,
                is_unreached(before.doomed@, failed@),
                key_at(before.doomed@),
                texts(keys@),
            ) && (signalled matches Some(StopAction::SignalGroups(pids)) && picked(
                before.doomed@.len() as int,
                is_unreached(before.doomed@, failed@),
                pid_at(before.doomed@),
                pids@,
            )),
            Some(StopAction::AwaitExit) => forall|k: int|
                0 <= k < before.doomed@.len() ==> !(#[trigger] failed@[k]
                    && before.doomed@[k].is_container && before.doomed@[k].pid is Some),
            _ => false,
        },
{
    let doomed = before.doomed@;
    let n = doomed.len() as int;
    let wanted = is_unreached(doomed, failed@);
    let places = unreached_containers(doomed, failed@, n);
    lemma_unreached(doomed, failed@, n);
    let told = between.unreached@.map_values(|place: usize| place as int);
    assert(told == places);
    assert(told.len() == between.unreached@.len());
    assert forall|k: int| 0 <= k < places.len() implies places[k]
        == #[trigger] between.unreached@[k] as int by {
        assert(told[k] == between.unreached@[k] as int);
    }
    match asked {
        Some(StopAction::SignalGuests(keys)) => {
            assert(texts(keys@).len() == keys@.len());
            let ids = ids_at(doomed, between.unreached@);
            assert forall|k: int| 0 <= k < ids.len() implies #[trigger] ids[k] == key_at(doomed)(
                places[k],
            ) by {
                assert(places[k] == between.unreached@[k] as int);
            }
            lemma_picked_through(n, wanted, key_at(doomed), places, ids);
            let pids = pids_at(doomed, between.unreached@);
            assert forall|k: int| 0 <= k < pids.len() implies #[trigger] pids[k] == pid_at(doomed)(
                places[k],
            ) by {
                assert(places[k] == between.unreached@[k] as int);
            }
            lemma_picked_through(n, wanted, pid_at(doomed), places, pids);
        },
        _ => {
            let at = choose|at: Seq<int>| #[trigger] picked_at(n, wanted, the_place(), places, at);
            assert forall|k: int| 0 <= k < n implies !(#[trigger] failed@[k]
                && doomed[k].is_container && doomed[k].pid is Some) by {
                if wanted(k) {
                    assert(at.contains(k));
                }
            }
        },
    }
}

/// Whether the instance at a place still runs.
pub open spec fn still_runs(doomed: Seq<DoomedInstance>, running: Seq<bool>) -> spec_fn(
    int,
) -> bool {
    |k: int| doomed[k].pid is Some && running[k]
}

/// The warning about the instance at a place.
pub open spec fn warning_at(stop: ForceStop) -> spec_fn(int) -> Seq<char> {
    |k: int|
        kill_warning(
            stop.doomed@[k].instance_id@,
            secs_of(stop.deadline),
            secs_of(stop.grace),
            (stop.doomed@[k].pid->0) as nat,
        )
}

/// The warnings are about the instances that still run.
proof fn lemma_warnings(stop: ForceStop, running: Seq<bool>, n: int)
    requires
        0 <= n <= stop.doomed@.len(),
    ensures
        picked(
            n,
            still_runs(stop.doomed@, running),
            warning_at(stop),
            kill_warnings(stop, running, n),
        ),
    decreases n,
{
    let wanted = still_runs(stop.doomed@, running);
    if n == 0 {
        lemma_picked_none(wanted, warning_at(stop));
    } else {
        lemma_warnings(stop, running, n - 1);
        lemma_picked_next(n - 1, wanted, warning_at(stop), kill_warnings(stop, running, n - 1));
    }
}

/// Once the wait is over every known process group is killed, and every container
/// inside its virtual machine. The stop reports of each instance whether its
/// process had to be killed, and warns of exactly those.
pub proof fn the_kill_reaches_every_instance(
    before: ForceStop,
    running: Vec<bool>,
    after: ForceStop,
    step: Option<StopAction>,
)
    requires
        before.phase == StopPhase::Look,
        running@.len() == before.doomed@.len(),
        stop_steps(before, StopEvent::Looked(running), after, step),
    ensures
        after.phase == StopPhase::Kill,
        step matches Some(StopAction::Kill { plan, warnings }) && {
            let n = before.doomed@.len() as int;
            &&& picked(n, has_pid(before.doomed@), pid_at(before.doomed@), plan.kill@)
            &&& picked(n, is_guest(before.doomed@), key_at(before.doomed@), texts(plan.guest_keys@))
            &&& picked(
                n,
                still_runs(before.doomed@, running@),
                warning_at(before),
                texts(warnings@),
            )
        },
        after.outcomes@.len() == before.doomed@.len(),
        forall|k: int|
            0 <= k < before.doomed@.len() ==> {
                &&& #[trigger] after.outcomes@[k] == StopOutcome::NoProcess
                    <==> before.doomed@[k].pid is None
                &&& after.outcomes@[k] == StopOutcome::ForceKilled <==> before.doomed@[k].pid is Some
                    && running@[k]
                &&& mentions(warning_at(before)(k), before.doomed@[k].instance_id@)
            },
{
    let n = before.doomed@.len() as int;
    lemma_known_pids(before.doomed@, n);
    lemma_container_keys(before.doomed@, n);
    lemma_warnings(before, running@, n);
    assert forall|k: int| 0 <= k < n implies mentions(
        warning_at(before)(k),
        before.doomed@[k].instance_id@,
    ) by {
        let id = before.doomed@[k].instance_id@;
        let rest = "' did not exit within its "@ + decimal(secs_of(before.deadline))
            + "s cooperative shutdown window ("@ + decimal(secs_of(before.grace))
            + "s grace + runtime teardown); force-killing its process group (pid "@ + decimal(
            (before.doomed@[k].pid->0) as nat,
        ) + ")"@;
        what_is_written_is_mentioned("Node instance '"@, id, rest);
        assert(warning_at(before)(k) =~= "Node instance '"@ + id + rest);
    }
}

/// The deadline ends whatever of the cooperative part is going on, and nothing
/// but the deadline or the end of all processes leads to the kill.
pub proof fn the_cooperative_part_ends_with_its_deadline(
    before: ForceStop,
    event: StopEvent,
    after: ForceStop,
    step: Option<StopAction>,
)
    requires
        stop_steps(before, event, after, step),
        before.phase == StopPhase::Ask || before.phase == StopPhase::SignalGuests || before.phase
            == StopPhase::SignalGroups || before.phase == StopPhase::Await,
    ensures
        event is DeadlinePassed ==> after.phase == StopPhase::Look && step == Some(
            StopAction::Look,
        ),
        after.phase == StopPhase::Look ==> event is DeadlinePassed || (event is AllGone
            && before.phase == StopPhase::Await),
        after.phase == StopPhase::Look || after.phase == StopPhase::Ask || after.phase
            == StopPhase::SignalGuests || after.phase == StopPhase::SignalGroups || after.phase
            == StopPhase::Await,
        before.phase == StopPhase::Await && event is AllGone ==> after.phase == StopPhase::Look,
        before.phase == StopPhase::SignalGroups && event is GroupsSignalled ==> after.phase
            == StopPhase::Await && step == Some(StopAction::AwaitExit),
        before.phase == StopPhase::SignalGuests && event == StopEvent::GuestsSignalled(true)
            ==> after.phase == StopPhase::Await && step == Some(StopAction::AwaitExit),
{
}

/// After the kill what was killed is waited for, and then the stop is over.
pub proof fn a_killed_batch_is_reaped(
    killing: ForceStop,
    reaping: ForceStop,
    awaited: Option<StopAction>,
    over: ForceStop,
    finished: Option<StopAction>,
)
    requires
        killing.phase == StopPhase::Kill,
        stop_steps(killing, StopEvent::Killed, reaping, awaited),
        stop_steps(reaping, StopEvent::Reaped, over, finished),
    ensures
        awaited == Some(StopAction::AwaitReap),
        finished == Some(StopAction::Finish),
        over.phase == StopPhase::Over,
        over.outcomes == killing.outcomes,
{
}

/// A call of `step` leads a stop request as `node_stop_steps` says.
pub proof fn a_call_steps_the_request(
    stop: &mut NodeStop,
    event: NodeStopEvent,
    step: Option<NodeStopAction>,
)
    requires
        call_ensures(NodeStop::step, (stop, event), step),
    ensures
        node_stop_steps(*old(stop), event, *final(stop), step),
{
}

/// A stop request stops the instance, takes it out, tears down what relates to it
/// and answers, each once and in that order; the answer tells of force exactly
/// where the stop needed it.
pub proof fn a_stop_request_is_carried_out(
    start: NodeStop,
    stopping: NodeStop,
    removing: NodeStop,
    tearing: NodeStop,
    over: NodeStop,
    outcome: StopOutcome,
    first: Option<NodeStopAction>,
    second: Option<NodeStopAction>,
    third: Option<NodeStopAction>,
    last: Option<NodeStopAction>,
)
    requires
        start.phase == NodeStopPhase::Claim,
        node_stop_steps(start, NodeStopEvent::Claimed, stopping, first),
        node_stop_steps(stopping, NodeStopEvent::Stopped(outcome), removing, second),
        node_stop_steps(removing, NodeStopEvent::Removed, tearing, third),
        node_stop_steps(tearing, NodeStopEvent::TornDown, over, last),
    ensures
        first == Some(NodeStopAction::Stop),
        second == Some(NodeStopAction::Remove),
        third == Some(NodeStopAction::TearDown),
        last == Some(NodeStopAction::Answer { force_killed: outcome == StopOutcome::ForceKilled }),
        over.phase == NodeStopPhase::Over,
{
}

} // verus!
