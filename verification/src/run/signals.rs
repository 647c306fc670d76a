//! Waiting for a freshly spawned node to answer: first that it is ready, then
//! that it is healthy. The node is polled in short attempts until it answers,
//! its process ends, or the deadline passes.
use crate::time::Span;
use crate::text::{mentions, what_is_written_is_mentioned};
use vstd::prelude::*;
use vstd::string::*;

verus! {

/// The longest single attempt, in milliseconds.
pub const ATTEMPT_MILLIS: u64 = 500;

/// The pause after a failed attempt, in milliseconds.
pub const PAUSE_MILLIS: u64 = 50;

/// What a node is asked.
#[derive(Clone, Copy, Debug, PartialEq, Eq, Structural)]
pub enum Signal {
    Ready,
    Health,
}

/// What the node's process is doing.
pub enum ChildStatus {
    Running,
    /// It ended, with this status.
    Exited(String),
    /// Its status could not be read, and why.
    Unknown(String),
}

/// One wait for a node's answer.
pub struct SignalWait {
    pub signal: Signal,
    pub deadline: Span,
    /// Why the last attempt failed.
    pub last_error: Option<String>,
    /// What is reported when the deadline passes before any attempt failed.
    pub silence: String,
}

/// The failure of a wait whose request cannot be encoded.
pub open spec fn encoding_text(signal: Signal, why: Seq<char>) -> Seq<char> {
    match signal {
        Signal::Ready => "failed to encode node ready request: "@ + why,
        Signal::Health => "failed to encode node health request: "@ + why,
    }
}

/// The failure of a wait whose request cannot be encoded.
pub fn encoding_failure(signal: Signal, why: &str) -> (r: String)
    ensures
        r@ == encoding_text(signal, why@),
{
    let mut text: String = match signal {
        Signal::Ready => "failed to encode node ready request: ".to_owned(),
        Signal::Health => "failed to encode node health request: ".to_owned(),
    };
    text.append(why);
    text
}

/// The failure of a wait whose node ended.
pub open spec fn exited_text(signal: Signal, status: Seq<char>) -> Seq<char> {
    match signal {
        Signal::Ready => "node process exited during startup (status="@ + status + ")"@,
        Signal::Health => "node process exited before becoming healthy (status="@ + status + ")"@,
    }
}

/// The failure of a wait whose deadline passed.
pub open spec fn timeout_text(signal: Signal, why: Seq<char>) -> Seq<char> {
    match signal {
        Signal::Ready =>
            "startup timed out waiting for node to be ready (node may still be compiling): "@ + why,
        Signal::Health => "health check timed out: "@ + why,
    }
}

impl SignalWait {
    /// What is reported when the deadline passes now.
    pub open spec fn complaint(self) -> Seq<char> {
        match self.last_error {
            Some(why) => why@,
            None => self.silence@,
        }
    }

    pub fn new(signal: Signal, deadline: Span, silence: String) -> (r: Self)
        ensures
            r.signal == signal,
            r.deadline == deadline,
            r.last_error is None,
            r.silence == silence,
    {
        SignalWait { signal, deadline, last_error: None, silence }
    }

    /// Whether the node is asked once more, and for how long: until the
    /// deadline, or for the longest single attempt.
    pub fn attempt(&self, child: ChildStatus, now: Span) -> (r: Result<Span, String>)
        ensures
            match child {
                ChildStatus::Exited(status) => r matches Err(text) && text@ == exited_text(
                    self.signal,
                    status@,
                ),
                ChildStatus::Unknown(why) => r matches Err(text) && text@
                    == "failed to query node process status: "@ + why@,
                ChildStatus::Running => if now.nanos >= self.deadline.nanos {
                    r matches Err(text) && text@ == timeout_text(self.signal, self.complaint())
                } else {
                    r matches Ok(span) && span.nanos == if self.deadline.nanos - now.nanos
                        <= 500_000_000 {
                        self.deadline.nanos - now.nanos
                    } else {
                        500_000_000
                    }
                },
            },
    {
        match child {
            ChildStatus::Exited(status) => {
                let mut text: String = match self.signal {
                    Signal::Ready => "node process exited during startup (status=".to_owned(),
                    Signal::Health =>
                        "node process exited before becoming healthy (status=".to_owned(),
                };
                text.append(status.as_str());
                text.append(")");
                return Err(text);
            },
            ChildStatus::Unknown(why) => {
                let mut text: String = "failed to query node process status: ".to_owned();
                text.append(why.as_str());
                return Err(text);
            },
            ChildStatus::Running => {},
        }
        if now.nanos >= self.deadline.nanos {
            let mut text: String = match self.signal {
                Signal::Ready =>
                    "startup timed out waiting for node to be ready (node may still be compiling): ".to_owned(),
                Signal::Health => "health check timed out: ".to_owned(),
            };
            match &self.last_error {
                Some(why) => text.append(why.as_str()),
                None => text.append(self.silence.as_str()),
            }
            return Err(text);
        }
        Ok(self.deadline.saturating_sub(now).min(Span::from_millis(ATTEMPT_MILLIS)))
    }

    /// Notes a failed attempt.
    pub fn attempt_failed(&mut self, why: String)
        ensures
            final(self).signal == old(self).signal,
            final(self).deadline == old(self).deadline,
            final(self).silence == old(self).silence,
            final(self).last_error == Some(why),
    {
        self.last_error = Some(why);
    }
}

/// A node is asked again exactly while its process runs and the deadline is to come,
/// for half a second at most and never past the deadline. What ends the wait is said:
/// the status that the process ended with, why its status is not known, or what the
/// last attempt failed of.
pub proof fn a_node_is_asked_until_the_deadline(
    wait: SignalWait,
    child: ChildStatus,
    now: Span,
    r: Result<Span, String>,
)
    requires
        call_ensures(SignalWait::attempt, (&wait, child, now), r),
    ensures
        r is Ok <==> child is Running && now.nanos < wait.deadline.nanos,
        r matches Ok(span) ==> 0 < span.nanos <= 500_000_000 && now.nanos + span.nanos
            <= wait.deadline.nanos && (span.nanos == 500_000_000 || now.nanos + span.nanos
            == wait.deadline.nanos),
        r matches Err(text) ==> match child {
            ChildStatus::Exited(status) => mentions(text@, status@),
            ChildStatus::Unknown(why) => mentions(text@, why@),
            ChildStatus::Running => match wait.last_error {
                Some(why) => mentions(text@, why@),
                None => mentions(text@, wait.silence@),
            },
        },
{
    match child {
        ChildStatus::Exited(status) => {
            what_is_written_is_mentioned(
                "node process exited during startup (status="@,
                status@,
                ")"@,
            );
            what_is_written_is_mentioned(
                "node process exited before becoming healthy (status="@,
                status@,
                ")"@,
            );
        },
        ChildStatus::Unknown(why) => {
            what_is_written_is_mentioned("failed to query node process status: "@, why@, ""@);
        },
        ChildStatus::Running => {
            what_is_written_is_mentioned(
                "startup timed out waiting for node to be ready (node may still be compiling): "@,
                wait.complaint(),
                ""@,
            );
            what_is_written_is_mentioned("health check timed out: "@, wait.complaint(), ""@);
        },
    }
}

} // verus!
