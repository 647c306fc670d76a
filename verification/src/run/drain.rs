//! When a node's startup output has reached the feedback stream.
//!
//! Readers copy the node's output line by line; a forwarder publishes each
//! line. The stream is drained once every live reader waits for more output
//! and every line that was read has been published.
use crate::time::Span;
use vstd::prelude::*;

verus! {

/// How long the drain may last in all.
pub const DRAIN_MAX_WAIT_SECS: u64 = 2;

/// How long a drained stream of a process has to stay drained, in
/// milliseconds: a process emits its startup output as one burst.
pub const PROCESS_DRAIN_QUIET_MILLIS: u64 = 10;

/// How long a drained stream of a container has to stay drained, in
/// milliseconds: a container prints now and then while its image is made
/// ready.
pub const CONTAINER_DRAIN_QUIET_MILLIS: u64 = 100;

/// How long a drained stream has to stay drained.
pub fn drain_quiet_window(is_container: bool) -> (r: Span)
    ensures
        r.nanos == if is_container {
            100_000_000
        } else {
            10_000_000u128
        },
{
    if is_container {
        Span::from_millis(CONTAINER_DRAIN_QUIET_MILLIS)
    } else {
        Span::from_millis(PROCESS_DRAIN_QUIET_MILLIS)
    }
}

/// How far the output of one run has got. The counters wrap around.
#[derive(Clone, Copy, Debug)]
pub struct FeedbackSync {
    /// Lines read from the node.
    pub read_count: u64,
    /// Lines published onto the feedback stream.
    pub published_count: u64,
    /// Readers that have registered and not yet exited.
    pub readers_live: usize,
    /// Registered readers that wait for more output.
    pub readers_idle: usize,
    /// Whether a line of standard output was seen.
    pub stdout_seen: bool,
}

/// What a drain does next.
#[derive(Clone, Copy, Debug, PartialEq, Eq, Structural)]
pub enum DrainStep {
    /// The stream is drained.
    Drained,
    /// Wait for a change; the stream is drained if none comes for this long.
    Settle(Span),
    /// Wait for a change, this long at most, and look again.
    Wait(Span),
    /// The drain has lasted too long.
    TimedOut,
}

/// Whether everything the readers could read has been published, and standard
/// output was seen where that is asked for.
pub open spec fn drained(sync: FeedbackSync, require_stdout: bool) -> bool {
    sync.readers_idle >= sync.readers_live && sync.published_count >= sync.read_count && (
    !require_stdout || sync.stdout_seen)
}

impl FeedbackSync {
    pub fn new() -> (r: Self)
        ensures
            r == (FeedbackSync {
                read_count: 0,
                published_count: 0,
                readers_live: 0,
                readers_idle: 0,
                stdout_seen: false,
            }),
    {
        FeedbackSync {
            read_count: 0,
            published_count: 0,
            readers_live: 0,
            readers_idle: 0,
            stdout_seen: false,
        }
    }

    /// Notes a line of standard output; whether a waiting drain is woken.
    pub fn signal_stdout(&mut self) -> (wake: bool)
        ensures
            *final(self) == (FeedbackSync { stdout_seen: true, ..*old(self) }),
            wake == !old(self).stdout_seen,
    {
        let wake: bool = !self.stdout_seen;
        self.stdout_seen = true;
        wake
    }

    /// Notes a line that was read.
    pub fn increment_read(&mut self)
        ensures
            *final(self) == (FeedbackSync {
                read_count: old(self).read_count.wrapping_add(1),
                ..*old(self)
            }),
    {
        self.read_count = self.read_count.wrapping_add(1);
    }

    /// Notes a line that was published.
    pub fn increment_published(&mut self)
        ensures
            *final(self) == (FeedbackSync {
                published_count: old(self).published_count.wrapping_add(1),
                ..*old(self)
            }),
    {
        self.published_count = self.published_count.wrapping_add(1);
    }

    /// Notes a new reader.
    pub fn register_reader(&mut self)
        ensures
            *final(self) == (FeedbackSync {
                readers_live: old(self).readers_live.wrapping_add(1),
                ..*old(self)
            }),
    {
        self.readers_live = self.readers_live.wrapping_add(1);
    }

    /// Notes that a reader waits for more output.
    pub fn reader_idle(&mut self)
        ensures
            *final(self) == (FeedbackSync {
                readers_idle: old(self).readers_idle.wrapping_add(1),
                ..*old(self)
            }),
    {
        self.readers_idle = self.readers_idle.wrapping_add(1);
    }

    /// Notes that a waiting reader got more output.
    pub fn reader_active(&mut self)
        ensures
            *final(self) == (FeedbackSync {
                readers_idle: old(self).readers_idle.wrapping_sub(1),
                ..*old(self)
            }),
    {
        self.readers_idle = self.readers_idle.wrapping_sub(1);
    }

    /// Notes that a reader ended, waiting or not.
    pub fn reader_exit(&mut self, was_idle: bool)
        ensures
            *final(self) == (FeedbackSync {
                readers_live: old(self).readers_live.wrapping_sub(1),
                readers_idle: if was_idle {
                    old(self).readers_idle.wrapping_sub(1)
                } else {
                    old(self).readers_idle
                },
                ..*old(self)
            }),
    {
        if was_idle {
            self.readers_idle = self.readers_idle.wrapping_sub(1);
        }
        self.readers_live = self.readers_live.wrapping_sub(1);
    }

    /// Whether the stream is drained.
    pub fn is_drained(&self, require_stdout: bool) -> (r: bool)
        ensures
            r == drained(*self, require_stdout),
    {
        self.readers_idle >= self.readers_live && self.published_count >= self.read_count && (
        !require_stdout || self.stdout_seen)
    }

    /// What a drain with a deadline does next. A drained stream that nobody
    /// can write to any more is done; with live readers it has to stay drained
    /// for the quiet window, even past the deadline.
    pub fn drain_step(
        &self,
        quiet_window: Span,
        require_stdout: bool,
        now: Span,
        deadline: Span,
    ) -> (r: DrainStep)
        ensures
            r == if drained(*self, require_stdout) {
                if self.readers_live == 0 {
                    DrainStep::Drained
                } else {
                    DrainStep::Settle(quiet_window)
                }
            } else if now.nanos >= deadline.nanos {
                DrainStep::TimedOut
            } else {
                DrainStep::Wait(Span { nanos: (deadline.nanos - now.nanos) as u128 })
            },
    {
        if self.is_drained(require_stdout) {
            if self.readers_live == 0 {
                return DrainStep::Drained;
            }
            return DrainStep::Settle(quiet_window);
        }
        if now.nanos >= deadline.nanos {
            return DrainStep::TimedOut;
        }
        DrainStep::Wait(deadline.saturating_sub(now))
    }
}

/// A reader that registers, goes idle, wakes up and exits leaves the counts of
/// readers as they were; so does one that exits while it waits.
pub proof fn readers_come_and_go(live: usize, idle: usize)
    ensures
        live.wrapping_add(1).wrapping_sub(1) == live,
        idle.wrapping_add(1).wrapping_sub(1) == idle,
{
}

/// A stream counts as drained only where every live reader waits, every line that was
/// read is published, and standard output was seen where that is asked for. Until then
/// a drain waits, to its deadline at most; after that it has timed out.
pub proof fn a_drain_waits_for_every_line(
    sync: FeedbackSync,
    quiet_window: Span,
    require_stdout: bool,
    now: Span,
    deadline: Span,
    r: DrainStep,
)
    requires
        call_ensures(
            FeedbackSync::drain_step,
            (&sync, quiet_window, require_stdout, now, deadline),
            r,
        ),
    ensures
        r == DrainStep::Drained || r is Settle ==> sync.readers_idle >= sync.readers_live
            && sync.published_count >= sync.read_count && (require_stdout ==> sync.stdout_seen),
        r is Wait || r is TimedOut ==> sync.readers_idle < sync.readers_live
            || sync.published_count < sync.read_count || (require_stdout && !sync.stdout_seen),
        r == DrainStep::Drained ==> sync.readers_live == 0,
        r matches DrainStep::Settle(span) ==> sync.readers_live > 0 && span == quiet_window,
        r is TimedOut ==> now.nanos >= deadline.nanos,
        r matches DrainStep::Wait(span) ==> now.nanos + span.nanos == deadline.nanos && span.nanos
            > 0,
{
}

} // verus!
