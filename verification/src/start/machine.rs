//! The steps of a start from the spawn on, and what is undone when one fails.
use crate::text::{mentions, opt_text, what_is_written_is_mentioned};
use vstd::prelude::*;
use vstd::string::*;

verus! {

/// What a start waits for.
#[derive(Clone, Copy, Debug, PartialEq, Eq, Structural)]
pub enum StartPhase {
    Spawn,
    Ready,
    Health,
    Commit,
    Succeeded,
    Failed,
}

/// What came of the action that a start waits for: nothing, or why it failed.
pub enum StartEvent {
    Spawned(Option<String>),
    Ready(Option<String>),
    Health(Option<String>),
    /// The process id of the committed instance, or why it is not committed.
    Committed(Result<u32, String>),
}

/// What a start does next.
pub enum StartAction {
    AwaitReady,
    CheckHealth,
    Commit,
    /// Wait for the node's first output, flush and close the feedback stream,
    /// and report the process id.
    Succeed { pid: u32, require_stdout: bool },
    /// Kill the process for this reason, flush and close the feedback stream,
    /// and fail with what the kill reports.
    Kill(String),
    /// Log the failure, flush and close the feedback stream, and fail with it.
    Fail(String),
}

/// An event's contents.
pub enum StartEventView {
    Spawned(Option<Seq<char>>),
    Ready(Option<Seq<char>>),
    Health(Option<Seq<char>>),
    Committed(Result<u32, Seq<char>>),
}

impl View for StartEvent {
    type V = StartEventView;

    open spec fn view(&self) -> StartEventView {
        match self {
            StartEvent::Spawned(failure) => StartEventView::Spawned(opt_text(*failure)),
            StartEvent::Ready(failure) => StartEventView::Ready(opt_text(*failure)),
            StartEvent::Health(failure) => StartEventView::Health(opt_text(*failure)),
            StartEvent::Committed(result) => StartEventView::Committed(
                match result {
                    Ok(pid) => Ok(*pid),
                    Err(why) => Err(why@),
                },
            ),
        }
    }
}

/// An action's contents.
pub enum StartActionView {
    AwaitReady,
    CheckHealth,
    Commit,
    Succeed { pid: u32, require_stdout: bool },
    Kill(Seq<char>),
    Fail(Seq<char>),
}

impl View for StartAction {
    type V = StartActionView;

    open spec fn view(&self) -> StartActionView {
        match self {
            StartAction::AwaitReady => StartActionView::AwaitReady,
            StartAction::CheckHealth => StartActionView::CheckHealth,
            StartAction::Commit => StartActionView::Commit,
            StartAction::Succeed { pid, require_stdout } => StartActionView::Succeed {
                pid: *pid,
                require_stdout: *require_stdout,
            },
            StartAction::Kill(reason) => StartActionView::Kill(reason@),
            StartAction::Fail(text) => StartActionView::Fail(text@),
        }
    }
}

/// The phase that an event leads a start to, and the action to perform then;
/// `None` where the start waits for something else.
pub open spec fn start_next(
    phase: StartPhase,
    is_container: bool,
    event: StartEventView,
) -> Option<(StartPhase, StartActionView)> {
    match (phase, event) {
        (StartPhase::Spawn, StartEventView::Spawned(failure)) => Some(
            match failure {
                None => (StartPhase::Ready, StartActionView::AwaitReady),
                Some(why) => (StartPhase::Failed, StartActionView::Fail(why)),
            },
        ),
        (StartPhase::Ready, StartEventView::Ready(failure)) => Some(
            match failure {
                None => (StartPhase::Health, StartActionView::CheckHealth),
                Some(why) => (StartPhase::Failed, StartActionView::Kill(why)),
            },
        ),
        (StartPhase::Health, StartEventView::Health(failure)) => Some(
            match failure {
                None => (StartPhase::Commit, StartActionView::Commit),
                Some(why) => (StartPhase::Failed, StartActionView::Kill(why)),
            },
        ),
        (StartPhase::Commit, StartEventView::Committed(result)) => Some(
            match result {
                Ok(pid) => (
                    StartPhase::Succeeded,
                    StartActionView::Succeed { pid, require_stdout: is_container },
                ),
                Err(why) => (
                    StartPhase::Failed,
                    StartActionView::Fail("Failed to register instance: "@ + why),
                ),
            },
        ),
        _ => None,
    }
}

/// One start.
#[derive(Clone, Copy, Debug)]
pub struct NodeStart {
    pub is_container: bool,
    pub phase: StartPhase,
}

impl NodeStart {
    /// A start about to spawn.
    pub fn new(is_container: bool) -> (r: Self)
        ensures
            r == (NodeStart { is_container, phase: StartPhase::Spawn }),
    {
        NodeStart { is_container, phase: StartPhase::Spawn }
    }

    /// Takes what came of the last action and gives the next one; `None`, and
    /// no change, where the start waits for something else.
    pub fn step(&mut self, event: StartEvent) -> (r: Option<StartAction>)
        ensures
            final(self).is_container == old(self).is_container,
            match (r, start_next(old(self).phase, old(self).is_container, event@)) {
                (Some(action), Some(next)) => action@ == next.1 && final(self).phase == next.0,
                (None, None) => final(self).phase == old(self).phase,
                _ => false,
            },
    {
        match (self.phase, event) {
            (StartPhase::Spawn, StartEvent::Spawned(failure)) => match failure {
                None => {
                    self.phase = StartPhase::Ready;
                    Some(StartAction::AwaitReady)
                },
                Some(why) => {
                    self.phase = StartPhase::Failed;
                    Some(StartAction::Fail(why))
                },
            },
            (StartPhase::Ready, StartEvent::Ready(failure)) => match failure {
                None => {
                    self.phase = StartPhase::Health;
                    Some(StartAction::CheckHealth)
                },
                Some(why) => {
                    self.phase = StartPhase::Failed;
                    Some(StartAction::Kill(why))
                },
            },
            (StartPhase::Health, StartEvent::Health(failure)) => match failure {
                None => {
                    self.phase = StartPhase::Commit;
                    Some(StartAction::Commit)
                },
                Some(why) => {
                    self.phase = StartPhase::Failed;
                    Some(StartAction::Kill(why))
                },
            },
            (StartPhase::Commit, StartEvent::Committed(result)) => match result {
                Ok(pid) => {
                    self.phase = StartPhase::Succeeded;
                    Some(StartAction::Succeed { pid, require_stdout: self.is_container })
                },
                Err(why) => {
                    let mut text: String = "Failed to register instance: ".to_owned();
                    text.append(why.as_str());
                    self.phase = StartPhase::Failed;
                    Some(StartAction::Fail(text))
                },
            },
            _ => None,
        }
    }
}

/// A process that was spawned and is not committed is killed when the start
/// fails; one that the stack has taken over is not.
pub proof fn failed_starts_leave_no_process(
    phase: StartPhase,
    is_container: bool,
    event: StartEventView,
)
    ensures
        start_next(phase, is_container, event) matches Some((StartPhase::Failed, action)) ==> (
        action is Kill <==> (phase == StartPhase::Ready || phase == StartPhase::Health)),
{
}

/// A call of `step` leads a start as `start_next` says.
pub proof fn a_call_steps_the_start(
    start: &mut NodeStart,
    event: StartEvent,
    action: Option<StartAction>,
)
    requires
        call_ensures(NodeStart::step, (start, event), action),
    ensures
        final(start).is_container == old(start).is_container,
        match start_next(old(start).phase, old(start).is_container, event@) {
            Some((phase, next)) => final(start).phase == phase && (action matches Some(told)
                && told@ == next),
            None => final(start).phase == old(start).phase && action is None,
        },
{
}

/// Whether an event is the one that a start in this phase waits for.
pub open spec fn is_awaited(phase: StartPhase, event: StartEventView) -> bool {
    match event {
        StartEventView::Spawned(_) => phase == StartPhase::Spawn,
        StartEventView::Ready(_) => phase == StartPhase::Ready,
        StartEventView::Health(_) => phase == StartPhase::Health,
        StartEventView::Committed(_) => phase == StartPhase::Commit,
    }
}

/// Why what was waited for failed, where it did.
pub open spec fn failure_in(event: StartEventView) -> Option<Seq<char>> {
    match event {
        StartEventView::Spawned(failure) => failure,
        StartEventView::Ready(failure) => failure,
        StartEventView::Health(failure) => failure,
        StartEventView::Committed(Ok(_)) => None,
        StartEventView::Committed(Err(why)) => Some(why),
    }
}

/// A start moves exactly when it is told what it waits for. A failure ends it,
/// mentioned, and kills a process that was spawned and not committed; anything else
/// takes it on.
pub proof fn a_failed_step_ends_a_start(
    phase: StartPhase,
    is_container: bool,
    event: StartEventView,
)
    ensures
        start_next(phase, is_container, event) is Some <==> is_awaited(phase, event),
        is_awaited(phase, event) ==> match failure_in(event) {
            Some(why) => start_next(phase, is_container, event) matches Some((next, action))
                && next == StartPhase::Failed && match action {
                StartActionView::Kill(text) => text == why && (event is Ready || event is Health),
                StartActionView::Fail(text) => mentions(text, why) && (event is Spawned
                    || event is Committed),
                _ => false,
            },
            None => start_next(phase, is_container, event) matches Some((next, action)) && next
                != StartPhase::Failed && !(action is Kill) && !(action is Fail),
        },
{
    if let Some(why) = failure_in(event) {
        what_is_written_is_mentioned("Failed to register instance: "@, why, ""@);
    }
}

/// The phase of a start after a sequence of events.
pub open spec fn start_trace(is_container: bool, events: Seq<StartEventView>) -> StartPhase
    decreases events.len(),
{
    if events.len() == 0 {
        StartPhase::Spawn
    } else {
        let before = start_trace(is_container, events.drop_last());
        match start_next(before, is_container, events.last()) {
            Some((phase, _)) => phase,
            None => before,
        }
    }
}

/// Whatever the events: a start is committed only after it was spawned, ready and
/// healthy, and succeeds only once it was committed, under that process id.
pub proof fn only_a_healthy_start_is_committed(is_container: bool, events: Seq<StartEventView>)
    ensures
        match start_trace(is_container, events) {
            StartPhase::Spawn | StartPhase::Failed => true,
            StartPhase::Ready => events.contains(StartEventView::Spawned(None)),
            StartPhase::Health => events.contains(StartEventView::Spawned(None))
                && events.contains(StartEventView::Ready(None)),
            StartPhase::Commit => events.contains(StartEventView::Spawned(None))
                && events.contains(StartEventView::Ready(None)) && events.contains(
                StartEventView::Health(None),
            ),
            StartPhase::Succeeded => events.contains(StartEventView::Spawned(None))
                && events.contains(StartEventView::Ready(None)) && events.contains(
                StartEventView::Health(None),
            ) && exists|pid: u32| #[trigger] events.contains(StartEventView::Committed(Ok(pid))),
        },
    decreases events.len(),
{
    if events.len() > 0 {
        let before = events.drop_last();
        only_a_healthy_start_is_committed(is_container, before);
        assert(events.contains(events.last()));
        assert forall|e: StartEventView| before.contains(e) implies events.contains(e) by {
            let k = choose|k: int| 0 <= k < before.len() && before[k] == e;
            assert(events[k] == e);
        }
        if start_trace(is_container, before) == StartPhase::Succeeded {
            let pid = choose|pid: u32| #[trigger] before.contains(StartEventView::Committed(Ok(pid)));
            assert(events.contains(StartEventView::Committed(Ok(pid))));
        } else if let StartEventView::Committed(Ok(pid)) = events.last() {
            assert(events.contains(StartEventView::Committed(Ok(pid))));
        }
    }
}

/// A start that is told only good news succeeds, with the process id of its commit,
/// and waits for standard output exactly where it is a container's.
pub proof fn a_healthy_start_succeeds(is_container: bool, pid: u32)
    ensures
        start_next(StartPhase::Spawn, is_container, StartEventView::Spawned(None)) == Some(
            (StartPhase::Ready, StartActionView::AwaitReady),
        ),
        start_next(StartPhase::Ready, is_container, StartEventView::Ready(None)) == Some(
            (StartPhase::Health, StartActionView::CheckHealth),
        ),
        start_next(StartPhase::Health, is_container, StartEventView::Health(None)) == Some(
            (StartPhase::Commit, StartActionView::Commit),
        ),
        start_next(StartPhase::Commit, is_container, StartEventView::Committed(Ok(pid))) == Some(
            (StartPhase::Succeeded, StartActionView::Succeed { pid, require_stdout: is_container }),
        ),
{
}

} // verus!
