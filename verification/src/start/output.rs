//! Waiting for a started node's first output: until it has gone quiet, and
//! until every line of it has been published.
use crate::time::Span;
use vstd::prelude::*;

verus! {

/// How long a flush may last, in seconds.
pub const FEEDBACK_FLUSH_TIMEOUT_SECS: u64 = 5;

/// What a flush does next.
#[derive(Clone, Copy, Debug, PartialEq, Eq, Structural)]
pub enum FlushStep {
    /// Every line has been published.
    Flushed,
    /// Wait for a line to be published, this long at most, and look again.
    Wait(Span),
    /// The flush has lasted too long.
    TimedOut,
}

/// What a flush does next that waits for the first `target` lines.
pub fn flush_step(published: u64, target: u64, now: Span, deadline: Span) -> (r: FlushStep)
    ensures
        r == if published >= target {
            FlushStep::Flushed
        } else if now.nanos >= deadline.nanos {
            FlushStep::TimedOut
        } else {
            FlushStep::Wait(Span { nanos: (deadline.nanos - now.nanos) as u128 })
        },
{
    if published >= target {
        return FlushStep::Flushed;
    }
    if now.nanos >= deadline.nanos {
        return FlushStep::TimedOut;
    }
    FlushStep::Wait(deadline.saturating_sub(now))
}

/// How long a started node's output is waited for, and how long it has to be
/// quiet.
pub fn quiescence_spans(is_container: bool) -> (r: (Span, Span))
    ensures
        r.0.nanos == if is_container {
            2_000_000_000
        } else {
            100_000_000u128
        },
        r.1.nanos == if is_container {
            100_000_000
        } else {
            10_000_000u128
        },
{
    if is_container {
        (Span::from_secs(2), Span::from_millis(100))
    } else {
        (Span::from_millis(100), Span::from_millis(10))
    }
}

/// A wait for the end of a node's first burst of output.
#[derive(Clone, Copy, Debug, PartialEq, Eq, Structural)]
pub struct Quiescence {
    pub last_read: u64,
    pub saw_read: bool,
}

impl Quiescence {
    /// A wait that begins after `read` lines.
    pub fn new(read: u64) -> (r: Self)
        ensures
            r == (Quiescence { last_read: read, saw_read: read > 0 }),
    {
        Quiescence { last_read: read, saw_read: read > 0 }
    }

    /// How long to wait for the next line, or `None` once the wait has lasted
    /// `max_wait`.
    pub fn next_wait(&self, elapsed: Span, max_wait: Span, quiet_window: Span) -> (r: Option<Span>)
        ensures
            match r {
                None => elapsed.nanos >= max_wait.nanos,
                Some(span) => elapsed.nanos < max_wait.nanos && span.nanos == if quiet_window.nanos
                    <= max_wait.nanos - elapsed.nanos {
                    quiet_window.nanos as int
                } else {
                    max_wait.nanos - elapsed.nanos
                },
            },
    {
        if elapsed.nanos >= max_wait.nanos {
            return None;
        }
        Some(quiet_window.min(max_wait.saturating_sub(elapsed)))
    }

    /// Notes that a line was read; `read` is their number by now.
    pub fn on_read(&mut self, read: u64)
        ensures
            final(self).last_read == read,
            final(self).saw_read == (old(self).saw_read || read != old(self).last_read),
    {
        if read != self.last_read {
            self.last_read = read;
            self.saw_read = true;
        }
    }

    /// Whether a quiet spell ends the wait: only after a first line, and where
    /// standard output is asked for only once it was seen.
    pub fn quiet_ends_it(&self, require_stdout: bool, stdout_seen: bool) -> (r: bool)
        ensures
            r == (self.saw_read && (!require_stdout || stdout_seen)),
    {
        self.saw_read && (!require_stdout || stdout_seen)
    }
}

/// A flush ends only once all the lines that it waits for are published or its deadline
/// has passed, and waits for the rest of its time until then.
pub proof fn a_flush_waits_for_all_lines(
    published: u64,
    target: u64,
    now: Span,
    deadline: Span,
    r: FlushStep,
)
    requires
        call_ensures(flush_step, (published, target, now, deadline), r),
    ensures
        r == FlushStep::Flushed <==> published >= target,
        r == FlushStep::TimedOut <==> published < target && now.nanos >= deadline.nanos,
        r matches FlushStep::Wait(span) ==> now.nanos + span.nanos == deadline.nanos,
{
}

/// A wait for quiet is never longer than the quiet that is asked for, nor than the time
/// that is left, and as long as one of them; it is over once the time has passed.
pub proof fn a_quiet_spell_fits_the_time_left(
    wait: Quiescence,
    elapsed: Span,
    max_wait: Span,
    quiet_window: Span,
    r: Option<Span>,
)
    requires
        call_ensures(Quiescence::next_wait, (&wait, elapsed, max_wait, quiet_window), r),
    ensures
        r is None <==> elapsed.nanos >= max_wait.nanos,
        r matches Some(span) ==> span.nanos <= quiet_window.nanos && elapsed.nanos + span.nanos
            <= max_wait.nanos && (span.nanos == quiet_window.nanos || elapsed.nanos + span.nanos
            == max_wait.nanos),
{
}

/// Quiet ends a wait only after a first line, and after standard output where that is
/// asked for.
pub proof fn silence_alone_ends_no_wait(
    wait: Quiescence,
    require_stdout: bool,
    stdout_seen: bool,
    r: bool,
)
    requires
        call_ensures(Quiescence::quiet_ends_it, (&wait, require_stdout, stdout_seen), r),
    ensures
        r ==> wait.saw_read,
        r && require_stdout ==> stdout_seen,
        wait.saw_read && (stdout_seen || !require_stdout) ==> r,
{
}

} // verus!
