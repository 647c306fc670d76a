//! Watching a committed instance for the end of its process.
use crate::text::{mentions, what_is_written_is_mentioned};
use vstd::prelude::*;
use vstd::string::*;

verus! {

/// How a process ended, as far as the system tells.
pub enum ExitReport {
    /// It ended with this status, successfully or not.
    Status { success: bool, status: String },
    /// The status could not be read, and why.
    Unreadable(String),
}

/// What ended a watch.
pub enum WatchEnd {
    /// The daemon shuts down: its teardown owns the instance.
    Shutdown,
    /// The process ended of its own.
    Exited(ExitReport),
}

/// What follows the end of a watch, once the instance's health monitor is
/// stopped.
pub enum AfterWatch {
    /// Reap the process and record nothing.
    ReapOnly,
    /// Record the exit.
    MarkExited { cleanly: bool },
}

/// The state that an exited instance was moved to.
#[derive(Clone, Copy, Debug, PartialEq, Eq, Structural)]
pub enum InstanceState {
    Starting,
    Running,
    Finished,
    Failed,
}

/// Whether an exit counts as clean: one whose status cannot be read does not.
pub open spec fn exited_cleanly(report: ExitReport) -> bool {
    report matches ExitReport::Status { success, .. } && success
}

/// What follows the end of a watch. A daemon that shuts down never records an
/// instance as ended.
pub fn after_watch(end: &WatchEnd) -> (r: AfterWatch)
    ensures
        r == match *end {
            WatchEnd::Shutdown => AfterWatch::ReapOnly,
            WatchEnd::Exited(report) => AfterWatch::MarkExited { cleanly: exited_cleanly(report) },
        },
{
    match end {
        WatchEnd::Shutdown => AfterWatch::ReapOnly,
        WatchEnd::Exited(report) => match report {
            ExitReport::Status { success, status: _ } => AfterWatch::MarkExited {
                cleanly: *success,
            },
            ExitReport::Unreadable(_) => AfterWatch::MarkExited { cleanly: false },
        },
    }
}

/// What an unclean exit is described as.
pub open spec fn exit_detail(report: ExitReport) -> Seq<char> {
    match report {
        ExitReport::Status { status, .. } => "exit status "@ + status@,
        ExitReport::Unreadable(why) => "could not read exit status: "@ + why@,
    }
}

/// What happens once an exit was recorded.
pub struct ExitRecord {
    /// Whether the instance's pairs are dissolved.
    pub dissolve: bool,
    /// The entry for the stack's log.
    pub log: Option<String>,
}

/// The entry for the stack's log that a recorded exit makes.
pub open spec fn exit_entry(
    state: InstanceState,
    report: ExitReport,
    instance_id: Seq<char>,
    node_name: Seq<char>,
    node_tag: Seq<char>,
) -> Option<Seq<char>> {
    let subject = "Instance '"@ + instance_id + "' of node '"@ + node_name + ":"@ + node_tag;
    match state {
        InstanceState::Finished => Some(subject + "' finished: process exited cleanly"@),
        InstanceState::Failed => Some(subject + "' failed: process "@ + exit_detail(report)),
        InstanceState::Starting | InstanceState::Running => None,
    }
}

/// What happens once an exit was recorded. `new_state` is `None` where a stop
/// had already claimed the instance: then the stop owns what is left to do.
pub fn after_marking(
    new_state: Option<InstanceState>,
    report: &ExitReport,
    instance_id: &str,
    node_name: &str,
    node_tag: &str,
) -> (r: ExitRecord)
    ensures
        r.dissolve == new_state is Some,
        match (new_state, r.log) {
            (None, log) => log is None,
            (Some(state), Some(text)) => exit_entry(
                state,
                *report,
                instance_id@,
                node_name@,
                node_tag@,
            ) == Some(text@),
            (Some(state), None) => exit_entry(
                state,
                *report,
                instance_id@,
                node_name@,
                node_tag@,
            ) is None,
        },
{
    let state = match new_state {
        None => {
            return ExitRecord { dissolve: false, log: None };
        },
        Some(state) => state,
    };
    let mut text: String = "Instance '".to_owned();
    text.append(instance_id);
    text.append("' of node '");
    text.append(node_name);
    text.append(":");
    text.append(node_tag);
    match state {
        InstanceState::Finished => {
            text.append("' finished: process exited cleanly");
            ExitRecord { dissolve: true, log: Some(text) }
        },
        InstanceState::Failed => {
            text.append("' failed: process ");
            let ghost head = text@;
            match report {
                ExitReport::Status { success: _, status } => {
                    text.append("exit status ");
                    text.append(status.as_str());
                },
                ExitReport::Unreadable(why) => {
                    text.append("could not read exit status: ");
                    text.append(why.as_str());
                },
            }
            proof {
                assert(text@ =~= head + exit_detail(*report));
            }
            ExitRecord { dissolve: true, log: Some(text) }
        },
        InstanceState::Starting | InstanceState::Running => ExitRecord { dissolve: true, log: None },
    }
}

/// A daemon that shuts down records no exit; any other end of a process is recorded,
/// and as a clean one only where the process said so itself.
pub proof fn only_a_successful_exit_is_clean(end: WatchEnd, r: AfterWatch)
    requires
        call_ensures(after_watch, (&end,), r),
    ensures
        r is ReapOnly <==> end is Shutdown,
        r == (AfterWatch::MarkExited { cleanly: true }) <==> (end matches WatchEnd::Exited(report) && (
        report matches ExitReport::Status { success, .. } && success)),
{
}

/// Pairs are dissolved exactly where the exit was recorded, and a recorded end is
/// written down with the instance and, where it failed, with what is known of why.
pub proof fn a_recorded_exit_is_written_down(
    new_state: Option<InstanceState>,
    report: ExitReport,
    instance_id: &str,
    node_name: &str,
    node_tag: &str,
    r: ExitRecord,
)
    requires
        call_ensures(after_marking, (new_state, &report, instance_id, node_name, node_tag), r),
    ensures
        r.dissolve <==> new_state is Some,
        r.log is Some <==> new_state == Some(InstanceState::Finished) || new_state == Some(
            InstanceState::Failed,
        ),
        r.log matches Some(text) ==> mentions(text@, instance_id@) && mentions(
            text@,
            node_name@ + ":"@ + node_tag@,
        ),
        r.log matches Some(text) ==> (new_state == Some(InstanceState::Failed) ==> match report {
            ExitReport::Status { status, .. } => mentions(text@, status@),
            ExitReport::Unreadable(why) => mentions(text@, why@),
        }),
{
    if let Some(text) = r.log {
        let label = node_name@ + ":"@ + node_tag@;
        let head = "Instance '"@ + instance_id@ + "' of node '"@;
        let subject = head + node_name@ + ":"@ + node_tag@;
        assert(subject =~= head + label);
        let tail = if new_state == Some(InstanceState::Finished) {
            "' finished: process exited cleanly"@
        } else {
            "' failed: process "@ + exit_detail(report)
        };
        assert(text@ =~= head + label + tail);
        what_is_written_is_mentioned(head, label, tail);
        let rest = "' of node '"@ + label + tail;
        what_is_written_is_mentioned("Instance '"@, instance_id@, rest);
        assert(text@ =~= "Instance '"@ + instance_id@ + rest);
        if new_state == Some(InstanceState::Failed) {
            let told = match report {
                ExitReport::Status { status, .. } => status@,
                ExitReport::Unreadable(why) => why@,
            };
            let word = match report {
                ExitReport::Status { .. } => "exit status "@,
                ExitReport::Unreadable(_) => "could not read exit status: "@,
            };
            what_is_written_is_mentioned(head + label + "' failed: process "@ + word, told, ""@);
            assert(text@ =~= head + label + "' failed: process "@ + word + told);
        }
    }
}

} // verus!
