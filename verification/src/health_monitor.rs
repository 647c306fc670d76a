//! The health of running instances.
//!
//! Every running instance is probed again and again. It counts as unhealthy
//! after several misses in a row, and as healthy again after one pass.
use crate::text::{
    a_longer_text_mentions_as_much, decimal, mentions, to_decimal, what_is_written_is_mentioned,
};
use crate::time::Span;
use vstd::prelude::*;
use vstd::string::*;

verus! {

/// How an instance is probed.
#[derive(Clone, Copy, Debug)]
pub struct HealthMonitorPolicy {
    /// The pause between two probes.
    pub interval: Span,
    /// How long a probe may take; one without an answer by then is a miss.
    pub timeout: Span,
    /// How many misses in a row make an instance unhealthy: one at least.
    pub failure_threshold: u32,
}

/// A change of an instance's health.
#[derive(Clone, Copy, Debug, PartialEq, Eq, Structural)]
pub enum HealthEdge {
    /// The miss that reached the threshold.
    Down,
    /// The first pass of an unhealthy instance.
    Up,
}

/// The health of one instance, from the outcomes of its probes.
#[derive(Debug)]
pub struct HealthTracker {
    pub failure_threshold: u32,
    pub consecutive_misses: u32,
    pub healthy: bool,
}

/// What a pass or a miss makes of a tracker.
pub open spec fn recorded(before: HealthTracker, passed: bool) -> HealthTracker {
    let misses: u32 = if passed {
        0
    } else if before.consecutive_misses == u32::MAX {
        u32::MAX
    } else {
        (before.consecutive_misses + 1) as u32
    };
    HealthTracker {
        failure_threshold: before.failure_threshold,
        consecutive_misses: misses,
        healthy: passed || (before.healthy && misses < before.failure_threshold),
    }
}

/// The change that lies between two states.
pub open spec fn edge_between(before: HealthTracker, after: HealthTracker) -> Option<HealthEdge> {
    if before.healthy && !after.healthy {
        Some(HealthEdge::Down)
    } else if !before.healthy && after.healthy {
        Some(HealthEdge::Up)
    } else {
        None
    }
}

impl HealthTracker {
    /// Whether the threshold is one at all, and the health is what the misses
    /// say.
    pub open spec fn valid(self) -> bool {
        &&& self.failure_threshold > 0
        &&& self.healthy <==> self.consecutive_misses < self.failure_threshold
    }

    /// A tracker of an instance that is healthy to begin with.
    pub fn new(failure_threshold: u32) -> (r: Self)
        requires
            failure_threshold > 0,
        ensures
            r == (HealthTracker { failure_threshold, consecutive_misses: 0, healthy: true }),
            r.valid(),
    {
        HealthTracker { failure_threshold, consecutive_misses: 0, healthy: true }
    }

    /// Whether the instance is healthy.
    pub fn healthy(&self) -> (r: bool)
        ensures
            r == self.healthy,
    {
        self.healthy
    }

    /// The misses since the last pass.
    pub fn consecutive_misses(&self) -> (r: u32)
        ensures
            r == self.consecutive_misses,
    {
        self.consecutive_misses
    }

    /// Takes the outcome of a probe, and tells the change that it caused.
    pub fn record(&mut self, probe_passed: bool) -> (r: Option<HealthEdge>)
        ensures
            *final(self) == recorded(*old(self), probe_passed),
            r == edge_between(*old(self), *final(self)),
            old(self).valid() ==> final(self).valid(),
    {
        if probe_passed {
            self.consecutive_misses = 0;
            if self.healthy {
                return None;
            }
            self.healthy = true;
            return Some(HealthEdge::Up);
        }
        self.consecutive_misses = self.consecutive_misses.saturating_add(1);
        if !self.healthy || self.consecutive_misses < self.failure_threshold {
            return None;
        }
        self.healthy = false;
        Some(HealthEdge::Down)
    }
}

/// A tracker after the outcomes of several probes.
pub open spec fn after_probes(threshold: u32, outcomes: Seq<bool>) -> HealthTracker
    decreases outcomes.len(),
{
    if outcomes.len() == 0 {
        HealthTracker { failure_threshold: threshold, consecutive_misses: 0, healthy: true }
    } else {
        recorded(after_probes(threshold, outcomes.drop_last()), outcomes.last())
    }
}

/// How many of the last outcomes are misses.
pub open spec fn misses_at_end(outcomes: Seq<bool>) -> nat
    decreases outcomes.len(),
{
    if outcomes.len() == 0 || outcomes.last() {
        0
    } else {
        1 + misses_at_end(outcomes.drop_last())
    }
}

/// An instance is unhealthy exactly where its last probes, as many as the
/// threshold at least, were all misses. A lone miss below that changes nothing,
/// and one pass is enough to recover.
pub proof fn health_is_the_run_of_misses(threshold: u32, outcomes: Seq<bool>)
    requires
        threshold > 0,
    ensures
        after_probes(threshold, outcomes).valid(),
        after_probes(threshold, outcomes).failure_threshold == threshold,
        after_probes(threshold, outcomes).healthy <==> misses_at_end(outcomes) < threshold,
        misses_at_end(outcomes) <= u32::MAX ==> after_probes(threshold, outcomes).consecutive_misses
            == misses_at_end(outcomes),
        misses_at_end(outcomes) > u32::MAX ==> after_probes(threshold, outcomes).consecutive_misses
            == u32::MAX,
    decreases outcomes.len(),
{
    if outcomes.len() > 0 {
        health_is_the_run_of_misses(threshold, outcomes.drop_last());
    }
}

/// An instance that is down stays silent until it is up again: between two
/// changes of one kind lies one of the other.
pub proof fn changes_alternate(before: HealthTracker, passed: bool)
    ensures
        edge_between(before, recorded(before, passed)) == Some(HealthEdge::Down) ==> before.healthy
            && !recorded(before, passed).healthy && !passed,
        edge_between(before, recorded(before, passed)) == Some(HealthEdge::Up) ==> !before.healthy
            && recorded(before, passed).healthy && passed,
        edge_between(before, recorded(before, passed)) is None ==> before.healthy == recorded(
            before,
            passed,
        ).healthy,
{
}

/// Which instance a monitor watches.
pub struct MonitoredInstance {
    pub instance_id: String,
    pub node_name: String,
    pub node_tag: String,
}

/// The instance and its node, as messages write them.
pub open spec fn subject_text(who: MonitoredInstance) -> Seq<char> {
    who.instance_id@ + "' of node '"@ + who.node_name@ + ":"@ + who.node_tag@ + "'"@
}

/// The instance and its node, as messages write them.
fn subject(who: &MonitoredInstance) -> (r: String)
    ensures
        r@ == subject_text(*who),
{
    let mut text: String = who.instance_id.clone();
    text.append("' of node '");
    text.append(who.node_name.as_str());
    text.append(":");
    text.append(who.node_tag.as_str());
    text.append("'");
    text
}

/// What a monitor writes down after a probe.
pub enum MonitorNote {
    /// Nothing.
    Silent,
    /// For the daemon's own log, at its lowest level.
    Debug(String),
    /// For the daemon's own log and that of the stack.
    Both { log: String, stack: String },
}

/// What comes of one probe.
pub struct ProbeReport {
    pub healthy: bool,
    pub note: MonitorNote,
}

/// The text of an error, or nothing.
pub open spec fn error_text(error: Option<String>) -> Seq<char> {
    match error {
        Some(why) => why@,
        None => ""@,
    }
}

/// Whether a note is the one after a probe.
pub open spec fn notes(
    who: MonitoredInstance,
    before: HealthTracker,
    error: Option<String>,
    after: HealthTracker,
    note: MonitorNote,
) -> bool {
    match edge_between(before, after) {
        Some(HealthEdge::Down) => note matches MonitorNote::Both { log, stack } && log@
            == "Health monitor: instance '"@ + subject_text(who) + " became unhealthy after "@
            + decimal(after.consecutive_misses as nat)
            + " consecutive missed health checks, last: "@ + error_text(error) && stack@
            == "Instance '"@ + subject_text(who) + " became unhealthy: "@ + decimal(
            after.consecutive_misses as nat,
        ) + " consecutive health checks failed, last: "@ + error_text(error),
        Some(HealthEdge::Up) => note matches MonitorNote::Both { log, stack } && log@
            == "Health monitor: instance '"@ + subject_text(who) + " recovered after "@ + decimal(
            before.consecutive_misses as nat,
        ) + " missed health checks"@ && stack@ == "Instance '"@ + subject_text(who)
            + " recovered after "@ + decimal(before.consecutive_misses as nat)
            + " missed health checks"@,
        None => match error {
            Some(why) => note matches MonitorNote::Debug(text) && text@
                == "Health monitor: instance '"@ + who.instance_id@
                + "' missed a health check ("@ + decimal(after.consecutive_misses as nat)
                + " consecutive, threshold "@ + decimal(after.failure_threshold as nat) + "): "@
                + why@,
            None => note is Silent,
        },
    }
}

/// Takes the outcome of a probe: `error` tells why it was a miss, where it was
/// one.
pub fn take_probe(tracker: &mut HealthTracker, who: &MonitoredInstance, error: &Option<String>) -> (r:
    ProbeReport)
    ensures
        *final(tracker) == recorded(*old(tracker), *error is None),
        r.healthy == final(tracker).healthy,
        notes(*who, *old(tracker), *error, *final(tracker), r.note),
{
    let misses_before: u32 = tracker.consecutive_misses();
    let edge = tracker.record(error.is_none());
    let why: String = match error {
        Some(why) => why.clone(),
        None => "".to_owned(),
    };
    let note = match edge {
        Some(HealthEdge::Down) => {
            let count = to_decimal(tracker.consecutive_misses() as u64);
            let mut log: String = "Health monitor: instance '".to_owned();
            log.append(subject(who).as_str());
            log.append(" became unhealthy after ");
            log.append(count.as_str());
            log.append(" consecutive missed health checks, last: ");
            log.append(why.as_str());
            let mut stack: String = "Instance '".to_owned();
            stack.append(subject(who).as_str());
            stack.append(" became unhealthy: ");
            stack.append(count.as_str());
            stack.append(" consecutive health checks failed, last: ");
            stack.append(why.as_str());
            MonitorNote::Both { log, stack }
        },
        Some(HealthEdge::Up) => {
            let count = to_decimal(misses_before as u64);
            let mut log: String = "Health monitor: instance '".to_owned();
            log.append(subject(who).as_str());
            log.append(" recovered after ");
            log.append(count.as_str());
            log.append(" missed health checks");
            let mut stack: String = "Instance '".to_owned();
            stack.append(subject(who).as_str());
            stack.append(" recovered after ");
            stack.append(count.as_str());
            stack.append(" missed health checks");
            MonitorNote::Both { log, stack }
        },
        None => match error {
            Some(_) => {
                let mut text: String = "Health monitor: instance '".to_owned();
                text.append(who.instance_id.as_str());
                text.append("' missed a health check (");
                text.append(to_decimal(tracker.consecutive_misses() as u64).as_str());
                text.append(" consecutive, threshold ");
                text.append(to_decimal(tracker.failure_threshold as u64).as_str());
                text.append("): ");
                text.append(why.as_str());
                MonitorNote::Debug(text)
            },
            None => MonitorNote::Silent,
        },
    };
    ProbeReport { healthy: tracker.healthy(), note }
}

/// What a monitor waits for.
#[derive(Clone, Copy, Debug, PartialEq, Eq, Structural)]
pub enum MonitorPhase {
    /// The pause.
    Wait,
    /// Whether the instance is in the stack still.
    Find,
    /// The answer to a probe.
    Probe,
    Over,
}

/// What came of the step that a monitor waits for.
pub enum MonitorEvent {
    /// The pause is over; whether the daemon shuts down or the instance has
    /// ended.
    Waited { stopping: bool },
    Found(bool),
    /// What a probe came to; whether the daemon shuts down or the instance has
    /// ended meanwhile.
    Probed { error: Option<String>, stopping: bool },
}

/// What a monitor does next.
pub enum MonitorAction {
    Find,
    Probe,
    /// Record the health, write the note down, and wait.
    Record(ProbeReport),
    Stop,
}

/// The monitor of one instance.
pub struct HealthMonitor {
    pub who: MonitoredInstance,
    pub tracker: HealthTracker,
    pub phase: MonitorPhase,
}

/// Whether an event leads a monitor from one state to another, with this action.
pub open spec fn monitor_steps(
    before: HealthMonitor,
    event: MonitorEvent,
    after: HealthMonitor,
    action: Option<MonitorAction>,
) -> bool {
    &&& after.who == before.who
    &&& match (before.phase, event) {
        (MonitorPhase::Wait, MonitorEvent::Waited { stopping }) => after.tracker == before.tracker
            && (if stopping {
            after.phase == MonitorPhase::Over && action == Some(MonitorAction::Stop)
        } else {
            after.phase == MonitorPhase::Find && action == Some(MonitorAction::Find)
        }),
        (MonitorPhase::Find, MonitorEvent::Found(there)) => after.tracker == before.tracker && (
        if there {
            after.phase == MonitorPhase::Probe && action == Some(MonitorAction::Probe)
        } else {
            after.phase == MonitorPhase::Over && action == Some(MonitorAction::Stop)
        }),
        (MonitorPhase::Probe, MonitorEvent::Probed { error, stopping }) => if stopping {
            after.tracker == before.tracker && after.phase == MonitorPhase::Over && action == Some(
                MonitorAction::Stop,
            )
        } else {
            after.tracker == recorded(before.tracker, error is None) && after.phase
                == MonitorPhase::Wait && (action matches Some(MonitorAction::Record(report))
                && report.healthy == after.tracker.healthy && notes(
                before.who,
                before.tracker,
                error,
                after.tracker,
                report.note,
            ))
        },
        _ => after == before && action is None,
    }
}

impl HealthMonitor {
    /// A monitor at its beginning.
    pub fn new(who: MonitoredInstance, policy: HealthMonitorPolicy) -> (r: Self)
        requires
            policy.failure_threshold > 0,
        ensures
            r.who == who,
            r.tracker == (HealthTracker {
                failure_threshold: policy.failure_threshold,
                consecutive_misses: 0,
                healthy: true,
            }),
            r.phase == MonitorPhase::Wait,
    {
        HealthMonitor {
            who,
            tracker: HealthTracker::new(policy.failure_threshold),
            phase: MonitorPhase::Wait,
        }
    }

    /// Takes what came of the last step and gives the next one; `None`, and no
    /// change, where the monitor waits for something else.
    pub fn step(&mut self, event: MonitorEvent) -> (r: Option<MonitorAction>)
        ensures
            monitor_steps(*old(self), event, *final(self), r),
    {
        match (self.phase, event) {
            (MonitorPhase::Wait, MonitorEvent::Waited { stopping }) => {
                if stopping {
                    self.phase = MonitorPhase::Over;
                    return Some(MonitorAction::Stop);
                }
                self.phase = MonitorPhase::Find;
                Some(MonitorAction::Find)
            },
            (MonitorPhase::Find, MonitorEvent::Found(there)) => {
                if !there {
                    self.phase = MonitorPhase::Over;
                    return Some(MonitorAction::Stop);
                }
                self.phase = MonitorPhase::Probe;
                Some(MonitorAction::Probe)
            },
            (MonitorPhase::Probe, MonitorEvent::Probed { error, stopping }) => {
                if stopping {
                    self.phase = MonitorPhase::Over;
                    return Some(MonitorAction::Stop);
                }
                self.phase = MonitorPhase::Wait;
                let report = take_probe(&mut self.tracker, &self.who, &error);
                Some(MonitorAction::Record(report))
            },
            _ => None,
        }
    }
}

/// A probe that a shutdown or the end of the instance overtakes is neither
/// counted nor written down.
pub proof fn an_ending_instance_is_not_called_unhealthy(
    before: HealthMonitor,
    error: Option<String>,
    after: HealthMonitor,
    action: Option<MonitorAction>,
)
    requires
        before.phase == MonitorPhase::Probe,
        monitor_steps(
            before,
            (MonitorEvent::Probed { error, stopping: true }),
            after,
            action,
        ),
    ensures
        after.tracker == before.tracker,
        action == Some(MonitorAction::Stop),
{
}

/// A call of `step` leads a monitor as `monitor_steps` says.
pub proof fn a_call_steps_the_monitor(
    monitor: &mut HealthMonitor,
    event: MonitorEvent,
    r: Option<MonitorAction>,
)
    requires
        call_ensures(HealthMonitor::step, (monitor, event), r),
    ensures
        monitor_steps(*old(monitor), event, *final(monitor), r),
{
}

/// A call of `record` counts as `recorded` says.
pub proof fn a_call_records_a_probe(tracker: &mut HealthTracker, passed: bool, r: Option<HealthEdge>)
    requires
        call_ensures(HealthTracker::record, (tracker, passed), r),
    ensures
        *final(tracker) == recorded(*old(tracker), passed),
        r == edge_between(*old(tracker), *final(tracker)),
{
}

/// A pass makes an instance healthy and forgets its misses. A miss counts one more,
/// and makes a healthy instance unhealthy exactly where the threshold is reached; the
/// change is told, and nothing else is.
pub proof fn a_miss_counts_and_a_pass_forgets(
    tracker: &mut HealthTracker,
    passed: bool,
    r: Option<HealthEdge>,
)
    requires
        call_ensures(HealthTracker::record, (tracker, passed), r),
        old(tracker).valid(),
    ensures
        final(tracker).failure_threshold == old(tracker).failure_threshold,
        passed ==> final(tracker).healthy && final(tracker).consecutive_misses == 0,
        !passed && old(tracker).consecutive_misses < u32::MAX ==> final(tracker).consecutive_misses
            == old(tracker).consecutive_misses + 1 && (final(tracker).healthy <==> old(
            tracker,
        ).consecutive_misses + 1 < old(tracker).failure_threshold),
        r == Some(HealthEdge::Down) <==> old(tracker).healthy && !final(tracker).healthy,
        r == Some(HealthEdge::Up) <==> !old(tracker).healthy && final(tracker).healthy,
{
}

/// A monitor goes round: it waits, finds its instance, probes it, and records what the
/// probe came to. It stops exactly where it is told to, or its instance is gone.
pub proof fn a_monitor_stops_with_its_instance(
    before: HealthMonitor,
    event: MonitorEvent,
    after: HealthMonitor,
    action: Option<MonitorAction>,
)
    requires
        monitor_steps(before, event, after, action),
    ensures
        action == Some(MonitorAction::Stop) <==> match event {
            MonitorEvent::Waited { stopping } => before.phase == MonitorPhase::Wait && stopping,
            MonitorEvent::Found(there) => before.phase == MonitorPhase::Find && !there,
            MonitorEvent::Probed { stopping, .. } => before.phase == MonitorPhase::Probe
                && stopping,
        },
        action == Some(MonitorAction::Stop) ==> after.phase == MonitorPhase::Over,
        action == Some(MonitorAction::Find) <==> before.phase == MonitorPhase::Wait && (
        event matches MonitorEvent::Waited { stopping } && !stopping),
        action == Some(MonitorAction::Probe) <==> before.phase == MonitorPhase::Find && event
            == MonitorEvent::Found(true),
        (action matches Some(MonitorAction::Record(_))) <==> before.phase == MonitorPhase::Probe && (
        event matches MonitorEvent::Probed { stopping, .. } && !stopping),
        action matches Some(MonitorAction::Record(report)) ==> (
        event matches MonitorEvent::Probed { error, .. } && (error is None ==> report.healthy
            && after.tracker.consecutive_misses == 0) && (error is Some && before.tracker.valid()
            && before.tracker.consecutive_misses < u32::MAX ==> after.tracker.consecutive_misses
            == before.tracker.consecutive_misses + 1 && (report.healthy <==>
            before.tracker.consecutive_misses + 1 < before.tracker.failure_threshold))),
        action is None ==> after == before,
        after.who == before.who,
        action == Some(MonitorAction::Find) ==> after.phase == MonitorPhase::Find,
        action == Some(MonitorAction::Probe) ==> after.phase == MonitorPhase::Probe,
        action matches Some(MonitorAction::Record(_)) ==> after.phase == MonitorPhase::Wait,
{
}

/// An instance is named where it is written down with its node.
proof fn lemma_names_instance(head: Seq<char>, who: MonitoredInstance)
    ensures
        mentions(head + subject_text(who), who.instance_id@),
{
    let tail = "' of node '"@ + who.node_name@ + ":"@ + who.node_tag@ + "'"@;
    assert(subject_text(who) =~= who.instance_id@ + tail);
    what_is_written_is_mentioned(head, who.instance_id@, tail);
    assert(head + subject_text(who) =~= head + who.instance_id@ + tail);
}

/// A change of health is written down for the daemon and the stack, with the instance;
/// a miss without a change for the daemon alone, with the reason; and a pass without a
/// change is not written down.
pub proof fn a_change_of_health_is_written_down(
    who: MonitoredInstance,
    before: HealthTracker,
    error: Option<String>,
    after: HealthTracker,
    note: MonitorNote,
)
    requires
        notes(who, before, error, after, note),
    ensures
        before.healthy != after.healthy <==> note is Both,
        before.healthy == after.healthy && error is None <==> note is Silent,
        note matches MonitorNote::Debug(text) ==> (error matches Some(why) && mentions(text@, why@)),
        note matches MonitorNote::Both { log, stack } ==> mentions(log@, who.instance_id@)
            && mentions(stack@, who.instance_id@),
        note matches MonitorNote::Both { stack, .. } ==> (before.healthy ==> (
        error matches Some(why) ==> mentions(stack@, why@))),
{
    let count = decimal(after.consecutive_misses as nat);
    match note {
        MonitorNote::Debug(text) => {
            if let Some(why) = error {
                what_is_written_is_mentioned(
                    "Health monitor: instance '"@ + who.instance_id@ + "' missed a health check ("@
                        + count + " consecutive, threshold "@ + decimal(
                        after.failure_threshold as nat,
                    ) + "): "@,
                    why@,
                    ""@,
                );
            }
        },
        MonitorNote::Both { log, stack } => {
            let head = "Health monitor: instance '"@;
            let short = "Instance '"@;
            lemma_names_instance(head, who);
            lemma_names_instance(short, who);
            let long_start = head + subject_text(who);
            let start = short + subject_text(who);
            let id = who.instance_id@;
            let why = error_text(error);
            if before.healthy {
                let a = " became unhealthy after "@;
                let b = " consecutive missed health checks, last: "@;
                let c = " became unhealthy: "@;
                let d = " consecutive health checks failed, last: "@;
                a_longer_text_mentions_as_much(long_start, id, a);
                a_longer_text_mentions_as_much(long_start + a, id, count);
                a_longer_text_mentions_as_much(long_start + a + count, id, b);
                a_longer_text_mentions_as_much(long_start + a + count + b, id, why);
                a_longer_text_mentions_as_much(start, id, c);
                a_longer_text_mentions_as_much(start + c, id, count);
                a_longer_text_mentions_as_much(start + c + count, id, d);
                a_longer_text_mentions_as_much(start + c + count + d, id, why);
                what_is_written_is_mentioned(start + c + count + d, why, ""@);
            } else {
                let missed = decimal(before.consecutive_misses as nat);
                let a = " recovered after "@;
                let b = " missed health checks"@;
                a_longer_text_mentions_as_much(long_start, id, a);
                a_longer_text_mentions_as_much(long_start + a, id, missed);
                a_longer_text_mentions_as_much(long_start + a + missed, id, b);
                a_longer_text_mentions_as_much(start, id, a);
                a_longer_text_mentions_as_much(start + a, id, missed);
                a_longer_text_mentions_as_much(start + a + missed, id, b);
            }
        },
        _ => {},
    }
}

} // verus!
