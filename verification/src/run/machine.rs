//! The steps of a run from the spawn on, and what is undone when one fails.
//!
//! The daemon performs one action at a time and reports what came of it. A
//! failure before the instance is committed kills the process and dissolves
//! the pairs reserved for it; a failure afterwards leaves the process to the
//! watchers that are running by then, and dissolves the pairs.
use super::{startup_abort_reason, StartupOutcome};
use crate::pairing::{slot_text, PlannedPair};
use crate::text::{mentions, texts, what_is_written_is_mentioned};
use vstd::prelude::*;
use vstd::string::*;

verus! {

/// What a run waits for.
#[derive(Clone, Copy, Debug, PartialEq, Eq, Structural)]
pub enum RunPhase {
    /// Whether the run was cancelled before anything was spawned.
    Entry,
    /// The spawn.
    Spawn,
    /// The reservation of the planned pair of this index.
    Reserve(usize),
    /// The ready signal.
    Ready,
    /// The health check.
    Health,
    /// The commit to the stack.
    Commit,
    /// The start of the exit watcher and the health monitor.
    Watch,
    /// The delivery of the pins.
    Deliver,
    Succeeded,
    Failed,
}

/// What came of the action that a run waits for.
pub enum RunEvent {
    Entered { cancelled: bool },
    Spawned(Result<(), String>),
    Reserved(Result<(), String>),
    Ready(StartupOutcome),
    /// `cancelled` says whether the run was cancelled once the check had
    /// passed.
    Health { outcome: StartupOutcome, cancelled: bool },
    /// The process id of the committed instance, or why it is not committed.
    Committed(Result<u32, String>),
    Watching,
    Delivered(Result<(), String>),
}

/// What is undone after a failure, in this order: the instance's pairs are
/// dissolved, the process is killed for the reason `text`, the failure is
/// logged, the feedback stream is drained without waiting for standard output
/// and closed. The run's failure is `text`, or what the kill reports.
pub struct Unwind {
    pub dissolve: bool,
    pub kill: bool,
    pub log: bool,
    pub text: String,
}

/// What a run does next.
pub enum RunAction {
    Spawn,
    /// Reserve the planned pair of this index.
    Reserve(usize),
    AwaitReady,
    CheckHealth,
    Commit,
    /// Start the exit watcher and the health monitor.
    StartWatching,
    /// Deliver the pins of the planned pairs.
    Deliver,
    /// Publish the lines, drain the feedback stream and close it, and report
    /// the process id.
    Succeed { pid: u32, lines: Vec<String>, require_stdout: bool },
    Unwind(Unwind),
}

/// A startup outcome's contents.
pub enum OutcomeView {
    Passed,
    Cancelled,
    Failed(Seq<char>),
}

impl View for StartupOutcome {
    type V = OutcomeView;

    open spec fn view(&self) -> OutcomeView {
        match self {
            StartupOutcome::Passed => OutcomeView::Passed,
            StartupOutcome::Cancelled => OutcomeView::Cancelled,
            StartupOutcome::Failed(why) => OutcomeView::Failed(why@),
        }
    }
}

/// Why something failed, where it did.
pub open spec fn failure_of<T>(result: Result<T, String>) -> Option<Seq<char>> {
    match result {
        Ok(_) => None,
        Err(why) => Some(why@),
    }
}

/// An event's contents: failures as texts.
pub enum EventView {
    Entered { cancelled: bool },
    Spawned(Option<Seq<char>>),
    Reserved(Option<Seq<char>>),
    Ready(OutcomeView),
    Health { outcome: OutcomeView, cancelled: bool },
    Committed(Result<u32, Seq<char>>),
    Watching,
    Delivered(Option<Seq<char>>),
}

impl View for RunEvent {
    type V = EventView;

    open spec fn view(&self) -> EventView {
        match self {
            RunEvent::Entered { cancelled } => EventView::Entered { cancelled: *cancelled },
            RunEvent::Spawned(result) => EventView::Spawned(failure_of(*result)),
            RunEvent::Reserved(result) => EventView::Reserved(failure_of(*result)),
            RunEvent::Ready(outcome) => EventView::Ready(outcome@),
            RunEvent::Health { outcome, cancelled } => EventView::Health {
                outcome: outcome@,
                cancelled: *cancelled,
            },
            RunEvent::Committed(result) => EventView::Committed(
                match result {
                    Ok(pid) => Ok(*pid),
                    Err(why) => Err(why@),
                },
            ),
            RunEvent::Watching => EventView::Watching,
            RunEvent::Delivered(result) => EventView::Delivered(failure_of(*result)),
        }
    }
}

/// An action's contents.
pub enum ActionView {
    Spawn,
    Reserve(usize),
    AwaitReady,
    CheckHealth,
    Commit,
    StartWatching,
    Deliver,
    Succeed { pid: u32, lines: Seq<Seq<char>>, require_stdout: bool },
    Unwind { dissolve: bool, kill: bool, log: bool, text: Seq<char> },
}

impl View for RunAction {
    type V = ActionView;

    open spec fn view(&self) -> ActionView {
        match self {
            RunAction::Spawn => ActionView::Spawn,
            RunAction::Reserve(index) => ActionView::Reserve(*index),
            RunAction::AwaitReady => ActionView::AwaitReady,
            RunAction::CheckHealth => ActionView::CheckHealth,
            RunAction::Commit => ActionView::Commit,
            RunAction::StartWatching => ActionView::StartWatching,
            RunAction::Deliver => ActionView::Deliver,
            RunAction::Succeed { pid, lines, require_stdout } => ActionView::Succeed {
                pid: *pid,
                lines: texts(lines@),
                require_stdout: *require_stdout,
            },
            RunAction::Unwind(unwind) => ActionView::Unwind {
                dissolve: unwind.dissolve,
                kill: unwind.kill,
                log: unwind.log,
                text: unwind.text@,
            },
        }
    }
}

/// A planned pair's slots: the instance's own, then the peer's.
pub type PairView = ((Seq<char>, Seq<char>), (Seq<char>, Seq<char>));

/// One run.
pub struct NodeRun {
    pub instance_id: String,
    pub is_container: bool,
    pub pairs: Vec<PlannedPair>,
    pub phase: RunPhase,
    /// The process id, once the instance is committed.
    pub pid: u32,
}

/// One run, its texts as sequences.
pub struct RunModel {
    pub instance_id: Seq<char>,
    pub is_container: bool,
    pub pairs: Seq<PairView>,
    pub phase: RunPhase,
    pub pid: u32,
}

impl View for NodeRun {
    type V = RunModel;

    open spec fn view(&self) -> RunModel {
        RunModel {
            instance_id: self.instance_id@,
            is_container: self.is_container,
            pairs: self.pairs@.map_values(|pair: PlannedPair| pair@),
            phase: self.phase,
            pid: self.pid,
        }
    }
}

/// The line that announces a delivered pair.
pub open spec fn paired_text(pair: PairView) -> Seq<char> {
    "paired: "@ + slot_text(pair.0) + " ⇌ "@ + slot_text(pair.1)
}

/// The lines that announce the delivered pairs.
pub open spec fn paired_texts(pairs: Seq<PairView>) -> Seq<Seq<char>> {
    pairs.map_values(|pair: PairView| paired_text(pair))
}

/// The failure of a run whose pins could not be delivered.
pub open spec fn undelivered_text(instance_id: Seq<char>, why: Seq<char>) -> Seq<char> {
    "node instance '"@ + instance_id + "' started but pairing delivery failed: "@ + why
        + ". The instance was left running with its pairing slots unpaired; stop it with `peppy node stop "@
        + instance_id + "`"@
}

/// A failure before anything was spawned.
pub open spec fn not_spawned(text: Seq<char>) -> ActionView {
    ActionView::Unwind { dissolve: false, kill: false, log: true, text }
}

/// A failure of a spawned process that is not committed yet.
pub open spec fn aborted(text: Seq<char>, log: bool) -> ActionView {
    ActionView::Unwind { dissolve: true, kill: true, log, text }
}

/// A failure after the stack took over the process.
pub open spec fn given_up(text: Seq<char>) -> ActionView {
    ActionView::Unwind { dissolve: true, kill: false, log: true, text }
}

/// What follows once the pairs from `index` on are left to reserve.
pub open spec fn reserve_from(model: RunModel, index: int) -> (RunPhase, ActionView) {
    if index < model.pairs.len() {
        (RunPhase::Reserve(index as usize), ActionView::Reserve(index as usize))
    } else {
        (RunPhase::Ready, ActionView::AwaitReady)
    }
}

/// The success of a run.
pub open spec fn succeeded(model: RunModel) -> ActionView {
    ActionView::Succeed {
        pid: model.pid,
        lines: paired_texts(model.pairs),
        require_stdout: model.is_container,
    }
}

/// The phase that an event leads a run to, and the action to perform then;
/// `None` where the run waits for something else.
pub open spec fn run_next(model: RunModel, event: EventView) -> Option<(RunPhase, ActionView)> {
    match (model.phase, event) {
        (RunPhase::Entry, EventView::Entered { cancelled }) => Some(
            if cancelled {
                (RunPhase::Failed, not_spawned("cancelled before node process spawn"@))
            } else {
                (RunPhase::Spawn, ActionView::Spawn)
            },
        ),
        (RunPhase::Spawn, EventView::Spawned(failure)) => Some(
            match failure {
                Some(why) => (RunPhase::Failed, not_spawned(why)),
                None => reserve_from(model, 0),
            },
        ),
        (RunPhase::Reserve(index), EventView::Reserved(failure)) => Some(
            match failure {
                Some(why) => (
                    RunPhase::Failed,
                    aborted(
                        "failed to reserve pair for slot `"@ + model.pairs[index as int].0.1
                            + "`: "@ + why,
                        true,
                    ),
                ),
                None => reserve_from(model, index + 1),
            },
        ),
        (RunPhase::Ready, EventView::Ready(outcome)) => Some(
            match outcome {
                OutcomeView::Passed => (RunPhase::Health, ActionView::CheckHealth),
                OutcomeView::Cancelled => (
                    RunPhase::Failed,
                    aborted("cancelled during ready-signal wait"@, false),
                ),
                OutcomeView::Failed(why) => (RunPhase::Failed, aborted(why, false)),
            },
        ),
        (RunPhase::Health, EventView::Health { outcome, cancelled }) => Some(
            match outcome {
                OutcomeView::Passed => if cancelled {
                    (RunPhase::Failed, aborted("cancelled before commit"@, false))
                } else {
                    (RunPhase::Commit, ActionView::Commit)
                },
                OutcomeView::Cancelled => (
                    RunPhase::Failed,
                    aborted("cancelled during health check"@, false),
                ),
                OutcomeView::Failed(why) => (RunPhase::Failed, aborted(why, false)),
            },
        ),
        (RunPhase::Commit, EventView::Committed(result)) => Some(
            match result {
                Ok(_) => (RunPhase::Watch, ActionView::StartWatching),
                Err(why) => (RunPhase::Failed, given_up("Failed to register instance: "@ + why)),
            },
        ),
        (RunPhase::Watch, EventView::Watching) => Some(
            if model.pairs.len() > 0 {
                (RunPhase::Deliver, ActionView::Deliver)
            } else {
                (RunPhase::Succeeded, succeeded(model))
            },
        ),
        (RunPhase::Deliver, EventView::Delivered(failure)) => Some(
            match failure {
                Some(why) => (
                    RunPhase::Failed,
                    given_up(undelivered_text(model.instance_id, why)),
                ),
                None => (RunPhase::Succeeded, succeeded(model)),
            },
        ),
        _ => None,
    }
}

/// A run after an event: the process id is that of a successful commit.
pub open spec fn run_after(model: RunModel, event: EventView) -> RunModel {
    match run_next(model, event) {
        Some((phase, _)) => RunModel {
            phase,
            pid: match event {
                EventView::Committed(Ok(pid)) => pid,
                _ => model.pid,
            },
            ..model
        },
        None => model,
    }
}

/// A run after a sequence of events.
pub open spec fn run_trace(model: RunModel, events: Seq<EventView>) -> RunModel
    decreases events.len(),
{
    if events.len() == 0 {
        model
    } else {
        run_after(run_trace(model, events.drop_last()), events.last())
    }
}

impl NodeRun {
    /// Whether a run that reserves pairs reserves one that is planned.
    pub open spec fn valid(self) -> bool {
        self.phase matches RunPhase::Reserve(index) ==> index < self.pairs.len()
    }

    /// A run at its beginning.
    pub fn new(instance_id: String, is_container: bool, pairs: Vec<PlannedPair>) -> (r: Self)
        ensures
            r.valid(),
            r@.instance_id == instance_id@,
            r@.is_container == is_container,
            r.pairs@ == pairs@,
            r@.phase == RunPhase::Entry,
            r@.pid == 0,
    {
        NodeRun { instance_id, is_container, pairs, phase: RunPhase::Entry, pid: 0 }
    }

    /// The action that reserves the planned pair of this index, or what
    /// follows the last one.
    fn reserve_next(&mut self, index: usize) -> (r: RunAction)
        requires
            index <= old(self).pairs@.len(),
        ensures
            final(self).valid(),
            final(self)@ == (RunModel { phase: reserve_from(old(self)@, index as int).0, ..old(self)@ }),
            r@ == reserve_from(old(self)@, index as int).1,
    {
        if index < self.pairs.len() {
            self.phase = RunPhase::Reserve(index);
            RunAction::Reserve(index)
        } else {
            self.phase = RunPhase::Ready;
            RunAction::AwaitReady
        }
    }

    /// The lines that announce the delivered pairs.
    fn paired_lines(&self) -> (r: Vec<String>)
        ensures
            texts(r@) == paired_texts(self@.pairs),
    {
        let mut lines: Vec<String> = Vec::new();
        let mut i: usize = 0;
        while i < self.pairs.len()
            invariant
                i <= self.pairs@.len(),
                lines@.len() == i,
                forall|k: int| 0 <= k < i ==> (#[trigger] lines@[k])@ == paired_text(self.pairs@[k]@),
            decreases self.pairs.len() - i,
        {
            let mut line: String = "paired: ".to_owned();
            line.append(self.pairs[i].own.label().as_str());
            line.append(" ⇌ ");
            line.append(self.pairs[i].peer.label().as_str());
            lines.push(line);
            i += 1;
        }
        proof {
            assert(texts(lines@) =~= paired_texts(self@.pairs));
        }
        lines
    }

    /// Ends the run with success.
    fn succeed(&mut self) -> (r: RunAction)
        ensures
            final(self).valid(),
            final(self)@ == (RunModel { phase: RunPhase::Succeeded, ..old(self)@ }),
            r@ == succeeded(old(self)@),
    {
        let lines = self.paired_lines();
        self.phase = RunPhase::Succeeded;
        RunAction::Succeed { pid: self.pid, lines, require_stdout: self.is_container }
    }

    /// Ends the run with a failure.
    fn fail(&mut self, dissolve: bool, kill: bool, log: bool, text: String) -> (r: RunAction)
        ensures
            final(self).valid(),
            final(self)@ == (RunModel { phase: RunPhase::Failed, ..old(self)@ }),
            r@ == (ActionView::Unwind { dissolve, kill, log, text: text@ }),
    {
        self.phase = RunPhase::Failed;
        RunAction::Unwind(Unwind { dissolve, kill, log, text })
    }

    /// Takes what came of the last action and gives the next one; `None`, and
    /// no change, where the run waits for something else.
    #[verifier::rlimit(60)]
    pub fn step(&mut self, event: RunEvent) -> (r: Option<RunAction>)
        requires
            old(self).valid(),
        ensures
            final(self).valid(),
            final(self)@ == run_after(old(self)@, event@),
            match (r, run_next(old(self)@, event@)) {
                (Some(action), Some(next)) => action@ == next.1,
                (None, None) => true,
                _ => false,
            },
    {
        match (self.phase, event) {
            (RunPhase::Entry, RunEvent::Entered { cancelled }) => if cancelled {
                Some(
                    self.fail(
                        false,
                        false,
                        true,
                        "cancelled before node process spawn".to_owned(),
                    ),
                )
            } else {
                self.phase = RunPhase::Spawn;
                Some(RunAction::Spawn)
            },
            (RunPhase::Spawn, RunEvent::Spawned(result)) => match result {
                Err(why) => Some(self.fail(false, false, true, why)),
                Ok(_) => Some(self.reserve_next(0)),
            },
            (RunPhase::Reserve(index), RunEvent::Reserved(result)) => match result {
                Err(why) => {
                    let mut text: String = "failed to reserve pair for slot `".to_owned();
                    text.append(self.pairs[index].own.link_id.as_str());
                    text.append("`: ");
                    text.append(why.as_str());
                    Some(self.fail(true, true, true, text))
                },
                Ok(_) => Some(self.reserve_next(index + 1)),
            },
            (RunPhase::Ready, RunEvent::Ready(outcome)) => match startup_abort_reason(&outcome) {
                Some(reason) => Some(self.fail(true, true, false, reason)),
                None => {
                    self.phase = RunPhase::Health;
                    Some(RunAction::CheckHealth)
                },
            },
            (RunPhase::Health, RunEvent::Health { outcome, cancelled }) => match outcome {
                StartupOutcome::Passed => if cancelled {
                    Some(self.fail(true, true, false, "cancelled before commit".to_owned()))
                } else {
                    self.phase = RunPhase::Commit;
                    Some(RunAction::Commit)
                },
                StartupOutcome::Cancelled => Some(
                    self.fail(true, true, false, "cancelled during health check".to_owned()),
                ),
                StartupOutcome::Failed(why) => Some(self.fail(true, true, false, why)),
            },
            (RunPhase::Commit, RunEvent::Committed(result)) => match result {
                Ok(pid) => {
                    self.pid = pid;
                    self.phase = RunPhase::Watch;
                    Some(RunAction::StartWatching)
                },
                Err(why) => {
                    let mut text: String = "Failed to register instance: ".to_owned();
                    text.append(why.as_str());
                    Some(self.fail(true, false, true, text))
                },
            },
            (RunPhase::Watch, RunEvent::Watching) => if self.pairs.len() > 0 {
                self.phase = RunPhase::Deliver;
                Some(RunAction::Deliver)
            } else {
                Some(self.succeed())
            },
            (RunPhase::Deliver, RunEvent::Delivered(result)) => match result {
                Ok(_) => Some(self.succeed()),
                Err(why) => {
                    let mut text: String = "node instance '".to_owned();
                    text.append(self.instance_id.as_str());
                    text.append("' started but pairing delivery failed: ");
                    text.append(why.as_str());
                    text.append(
                        ". The instance was left running with its pairing slots unpaired; stop it with `peppy node stop ",
                    );
                    text.append(self.instance_id.as_str());
                    text.append("`");
                    Some(self.fail(true, false, true, text))
                },
            },
            _ => None,
        }
    }
}

/// How many of the events are successful reservations.
pub open spec fn reservations(events: Seq<EventView>) -> nat
    decreases events.len(),
{
    if events.len() == 0 {
        0
    } else {
        reservations(events.drop_last()) + if events.last() == EventView::Reserved(None) {
            1nat
        } else {
            0nat
        }
    }
}

/// A process that was spawned and is not committed is killed, and its pairs
/// are dissolved, whatever ends the run; a process that the stack has taken
/// over is never killed; and before the spawn there is nothing to undo.
pub proof fn failures_undo_what_was_done(model: RunModel, event: EventView)
    ensures
        run_next(model, event) matches Some((phase, ActionView::Unwind { dissolve, kill, .. }))
            ==> phase == RunPhase::Failed && match model.phase {
            RunPhase::Entry | RunPhase::Spawn => !dissolve && !kill,
            RunPhase::Reserve(_) | RunPhase::Ready | RunPhase::Health => dissolve && kill,
            RunPhase::Commit | RunPhase::Watch | RunPhase::Deliver => dissolve && !kill,
            RunPhase::Succeeded | RunPhase::Failed => false,
        },
{
}

/// Nothing moves a run that has ended.
pub proof fn an_ended_run_stays_ended(model: RunModel, event: EventView)
    requires
        model.phase == RunPhase::Succeeded || model.phase == RunPhase::Failed,
    ensures
        run_next(model, event) is None,
        run_after(model, event) == model,
{
}

/// A cancellation that is seen before the commit never leads to one.
pub proof fn a_cancelled_run_is_not_committed(model: RunModel, event: EventView)
    requires
        match event {
            EventView::Entered { cancelled } => cancelled,
            EventView::Ready(outcome) => outcome == OutcomeView::Cancelled,
            EventView::Health { outcome, cancelled } => cancelled || outcome
                == OutcomeView::Cancelled,
            _ => false,
        },
        run_next(model, event) is Some,
    ensures
        run_after(model, event).phase == RunPhase::Failed,
        run_next(model, event).unwrap().1 is Unwind,
{
}

/// Standard output is waited for only when a container's run succeeds.
pub proof fn only_a_container_waits_for_output(model: RunModel, event: EventView)
    ensures
        run_next(model, event) matches Some((_, ActionView::Succeed { require_stdout, .. }))
            ==> require_stdout == model.is_container,
{
}

/// Whatever the events: a run that has succeeded was spawned, reserved every
/// planned pair, was committed under the process id it reports and, where it
/// plans pairs, delivered them.
pub proof fn success_means_every_step_succeeded(start: RunModel, events: Seq<EventView>)
    requires
        start.phase == RunPhase::Entry,
        start.pairs.len() <= usize::MAX,
    ensures
        ({
            let now = run_trace(start, events);
            &&& now.pairs == start.pairs
            &&& now.instance_id == start.instance_id
            &&& now.is_container == start.is_container
            &&& now.phase == RunPhase::Succeeded ==> {
                &&& events.contains(EventView::Spawned(None))
                &&& events.contains(EventView::Committed(Ok(now.pid)))
                &&& reservations(events) >= start.pairs.len()
                &&& start.pairs.len() > 0 ==> events.contains(EventView::Delivered(None))
            }
        }),
{
    lemma_trace(start, events);
}

/// What the phase of a run says of the events that led there.
proof fn lemma_trace(start: RunModel, events: Seq<EventView>)
    requires
        start.phase == RunPhase::Entry,
        start.pairs.len() <= usize::MAX,
    ensures
        ({
            let now = run_trace(start, events);
            &&& now.pairs == start.pairs
            &&& now.instance_id == start.instance_id
            &&& now.is_container == start.is_container
            &&& match now.phase {
                RunPhase::Entry | RunPhase::Spawn | RunPhase::Failed => true,
                RunPhase::Reserve(index) => index < start.pairs.len() && reservations(events)
                    >= index && events.contains(EventView::Spawned(None)),
                RunPhase::Ready | RunPhase::Health | RunPhase::Commit => reservations(events)
                    >= start.pairs.len() && events.contains(EventView::Spawned(None)),
                RunPhase::Watch | RunPhase::Deliver => reservations(events) >= start.pairs.len()
                    && events.contains(EventView::Spawned(None)) && events.contains(
                    EventView::Committed(Ok(now.pid)),
                ),
                RunPhase::Succeeded => reservations(events) >= start.pairs.len()
                    && events.contains(EventView::Spawned(None)) && events.contains(
                    EventView::Committed(Ok(now.pid)),
                ) && (start.pairs.len() > 0 ==> events.contains(EventView::Delivered(None))),
            }
        }),
    decreases events.len(),
{
    if events.len() > 0 {
        let before = events.drop_last();
        lemma_trace(start, before);
        assert(events.contains(events.last()));
        assert forall|e: EventView| before.contains(e) implies events.contains(e) by {
            let k = choose|k: int| 0 <= k < before.len() && before[k] == e;
            assert(events[k] == e);
        }
    }
}

/// Whether an event is the one that a run in this phase waits for.
pub open spec fn is_awaited(phase: RunPhase, event: EventView) -> bool {
    match event {
        EventView::Entered { .. } => phase == RunPhase::Entry,
        EventView::Spawned(_) => phase == RunPhase::Spawn,
        EventView::Reserved(_) => phase is Reserve,
        EventView::Ready(_) => phase == RunPhase::Ready,
        EventView::Health { .. } => phase == RunPhase::Health,
        EventView::Committed(_) => phase == RunPhase::Commit,
        EventView::Watching => phase == RunPhase::Watch,
        EventView::Delivered(_) => phase == RunPhase::Deliver,
    }
}

/// Whether an event says that what was waited for went well.
pub open spec fn is_good(event: EventView) -> bool {
    match event {
        EventView::Entered { cancelled } => !cancelled,
        EventView::Spawned(failure) => failure is None,
        EventView::Reserved(failure) => failure is None,
        EventView::Ready(outcome) => outcome == OutcomeView::Passed,
        EventView::Health { outcome, cancelled } => outcome == OutcomeView::Passed && !cancelled,
        EventView::Committed(result) => result is Ok,
        EventView::Watching => true,
        EventView::Delivered(failure) => failure is None,
    }
}

/// The failure that an event tells of, where it tells of one in words.
pub open spec fn told_failure(event: EventView) -> Option<Seq<char>> {
    match event {
        EventView::Spawned(failure) => failure,
        EventView::Reserved(failure) => failure,
        EventView::Ready(OutcomeView::Failed(why)) => Some(why),
        EventView::Health { outcome: OutcomeView::Failed(why), .. } => Some(why),
        EventView::Committed(Err(why)) => Some(why),
        EventView::Delivered(failure) => failure,
        _ => None,
    }
}

/// A run moves exactly when it is told what it waits for.
pub proof fn a_run_moves_when_it_is_told_what_it_waits_for(model: RunModel, event: EventView)
    ensures
        run_next(model, event) is Some <==> is_awaited(model.phase, event),
        !is_awaited(model.phase, event) ==> run_after(model, event) == model,
{
}

/// Bad news always ends a run as failed, with an unwind that mentions the failure
/// it was told of. What was spawned and is not committed is killed. A startup
/// that failed is reported in its own words.
pub proof fn bad_news_ends_a_run(model: RunModel, event: EventView)
    requires
        is_awaited(model.phase, event),
        !is_good(event),
    ensures
        run_after(model, event).phase == RunPhase::Failed,
        run_next(model, event) matches Some((_, ActionView::Unwind { dissolve, kill, log, text }))
            && {
            &&& kill == (event is Reserved || event is Ready || event is Health)
            &&& dissolve == !(event is Entered || event is Spawned)
            &&& log == !(event is Ready || event is Health)
            &&& told_failure(event) matches Some(why) ==> mentions(text, why)
            &&& (event is Spawned || event is Ready || event is Health) ==> (told_failure(
                event,
            ) matches Some(why) ==> text == why)
        },
{
    if let Some(why) = told_failure(event) {
        if let Some((_, ActionView::Unwind { text, .. })) = run_next(model, event) {
            match event {
                EventView::Reserved(_) => {
                    let slot = model.pairs[(model.phase->Reserve_0) as int].0.1;
                    let before = "failed to reserve pair for slot `"@ + slot + "`: "@;
                    what_is_written_is_mentioned(before, why, ""@);
                    assert(text =~= before + why);
                },
                EventView::Committed(_) => {
                    what_is_written_is_mentioned("Failed to register instance: "@, why, ""@);
                },
                EventView::Delivered(_) => {
                    let before = "node instance '"@ + model.instance_id
                        + "' started but pairing delivery failed: "@;
                    let after =
                        ". The instance was left running with its pairing slots unpaired; stop it with `peppy node stop "@
                        + model.instance_id + "`"@;
                    what_is_written_is_mentioned(before, why, after);
                    assert(text =~= before + why + after);
                },
                _ => {
                    what_is_written_is_mentioned(""@, why, ""@);
                },
            }
        }
    }
}

/// Good news never ends a run as failed, and never undoes anything.
pub proof fn good_news_takes_a_run_on(model: RunModel, event: EventView)
    requires
        is_awaited(model.phase, event),
        is_good(event),
    ensures
        run_after(model, event).phase != RunPhase::Failed,
        run_after(model, event).phase != model.phase || model.phase is Reserve,
        run_next(model, event) matches Some((_, action)) && !(action is Unwind),
{
}

/// Whether an event holds among these of each sort what a committed run needs.
pub open spec fn started_well(events: Seq<EventView>) -> bool {
    &&& events.contains(EventView::Entered { cancelled: false })
    &&& events.contains(EventView::Spawned(None))
    &&& events.contains(EventView::Ready(OutcomeView::Passed))
    &&& events.contains(EventView::Health { outcome: OutcomeView::Passed, cancelled: false })
}

/// Whatever the events: a run is committed, and all that follows happens, only
/// after the process was spawned, gave its ready signal and passed its health
/// check, uncancelled.
pub proof fn only_a_ready_and_healthy_run_is_committed(start: RunModel, events: Seq<EventView>)
    requires
        start.phase == RunPhase::Entry,
    ensures
        match run_trace(start, events).phase {
            RunPhase::Commit | RunPhase::Watch | RunPhase::Deliver | RunPhase::Succeeded =>
                started_well(events),
            RunPhase::Health => events.contains(EventView::Ready(OutcomeView::Passed))
                && events.contains(EventView::Spawned(None)),
            RunPhase::Ready | RunPhase::Reserve(_) => events.contains(EventView::Spawned(None)),
            _ => true,
        },
{
    lemma_started(start, events);
}

/// What the phase of a run says of how it started.
proof fn lemma_started(start: RunModel, events: Seq<EventView>)
    requires
        start.phase == RunPhase::Entry,
    ensures
        match run_trace(start, events).phase {
            RunPhase::Entry | RunPhase::Failed => true,
            RunPhase::Spawn => events.contains(EventView::Entered { cancelled: false }),
            RunPhase::Reserve(_) | RunPhase::Ready => events.contains(
                EventView::Entered { cancelled: false },
            ) && events.contains(EventView::Spawned(None)),
            RunPhase::Health => events.contains(EventView::Entered { cancelled: false })
                && events.contains(EventView::Spawned(None)) && events.contains(
                EventView::Ready(OutcomeView::Passed),
            ),
            RunPhase::Commit | RunPhase::Watch | RunPhase::Deliver | RunPhase::Succeeded =>
                started_well(events),
        },
    decreases events.len(),
{
    if events.len() > 0 {
        let before = events.drop_last();
        lemma_started(start, before);
        assert(events.contains(events.last()));
        assert forall|e: EventView| before.contains(e) implies events.contains(e) by {
            let k = choose|k: int| 0 <= k < before.len() && before[k] == e;
            assert(events[k] == e);
        }
    }
}

/// The actions that a run performs over a sequence of events, in order.
pub open spec fn run_actions(model: RunModel, events: Seq<EventView>) -> Seq<ActionView>
    decreases events.len(),
{
    if events.len() == 0 {
        Seq::empty()
    } else {
        let before = run_actions(model, events.drop_last());
        match run_next(run_trace(model, events.drop_last()), events.last()) {
            Some((_, action)) => before.push(action),
            None => before,
        }
    }
}

/// The action that a run with this many planned pairs performs as its `k`-th,
/// unless it fails first.
pub open spec fn planned_action(pairs: int, k: int) -> ActionView {
    if k == 0 {
        ActionView::Spawn
    } else if k <= pairs {
        ActionView::Reserve((k - 1) as usize)
    } else if k == pairs + 1 {
        ActionView::AwaitReady
    } else if k == pairs + 2 {
        ActionView::CheckHealth
    } else if k == pairs + 3 {
        ActionView::Commit
    } else if k == pairs + 4 {
        ActionView::StartWatching
    } else {
        ActionView::Deliver
    }
}

/// How many actions a run has performed when it is in a phase that is not over.
pub open spec fn actions_until(pairs: int, phase: RunPhase) -> int {
    match phase {
        RunPhase::Entry => 0,
        RunPhase::Spawn => 1,
        RunPhase::Reserve(index) => index + 2,
        RunPhase::Ready => pairs + 2,
        RunPhase::Health => pairs + 3,
        RunPhase::Commit => pairs + 4,
        RunPhase::Watch => pairs + 5,
        RunPhase::Deliver => pairs + 6,
        RunPhase::Succeeded | RunPhase::Failed => 0,
    }
}

/// Whatever the events: a run performs its actions in one order, each once. It
/// spawns, reserves the planned pairs from the first to the last, awaits the ready
/// signal, checks the health, commits, watches and delivers; a run that succeeds
/// has performed all of them and ends with its report.
pub proof fn a_run_performs_its_actions_in_order(start: RunModel, events: Seq<EventView>)
    requires
        start.phase == RunPhase::Entry,
        start.pairs.len() <= usize::MAX,
    ensures
        ({
            let actions = run_actions(start, events);
            let now = run_trace(start, events);
            let pairs = start.pairs.len() as int;
            &&& now.phase != RunPhase::Succeeded && now.phase != RunPhase::Failed
                ==> actions.len() == actions_until(pairs, now.phase) && forall|k: int|
                0 <= k < actions.len() ==> #[trigger] actions[k] == planned_action(pairs, k)
            &&& now.phase == RunPhase::Deliver ==> pairs > 0
            &&& now.phase == RunPhase::Succeeded ==> {
                &&& actions.len() == pairs + 6 + if pairs > 0 {
                    1int
                } else {
                    0int
                }
                &&& forall|k: int|
                    0 <= k < actions.len() - 1 ==> #[trigger] actions[k] == planned_action(pairs, k)
                &&& actions.last() matches ActionView::Succeed { pid, lines, require_stdout }
                    && events.contains(EventView::Committed(Ok(pid))) && lines.len() == pairs
                    && require_stdout == start.is_container
            }
            &&& now.phase == RunPhase::Failed ==> {
                &&& actions.len() > 0 && actions.last() is Unwind
                &&& forall|k: int|
                    0 <= k < actions.len() - 1 ==> #[trigger] actions[k] == planned_action(pairs, k)
            }
        }),
    decreases events.len(),
{
    lemma_trace(start, events);
    if events.len() > 0 {
        let before = events.drop_last();
        a_run_performs_its_actions_in_order(start, before);
        lemma_trace(start, before);
        assert(events.contains(events.last()));
        assert forall|e: EventView| before.contains(e) implies events.contains(e) by {
            let k = choose|k: int| 0 <= k < before.len() && before[k] == e;
            assert(events[k] == e);
        }
    }
}

/// A call of `step` leads a run as `run_after` and `run_next` say.
pub proof fn a_call_steps_the_run(run: &mut NodeRun, event: RunEvent, action: Option<RunAction>)
    requires
        call_ensures(NodeRun::step, (run, event), action),
    ensures
        final(run).valid(),
        final(run)@ == run_after(old(run)@, event@),
        action is Some <==> run_next(old(run)@, event@) is Some,
        action matches Some(told) ==> (run_next(old(run)@, event@) matches Some((_, next))
            && told@ == next),
{
}

} // verus!
