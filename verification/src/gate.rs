//! Admission of goals to actions that run one goal at a time.
//!
//! Every admission carries a generation. A task frees its slot only while its
//! generation is the current one, so a task that was superseded cannot free the
//! slot of the goal that superseded it.
use crate::text::{decimal, to_decimal};
use crate::time::Span;
use vstd::prelude::*;
use vstd::string::*;

verus! {

/// How many seconds a superseded task is given to tear itself down.
pub const COOPERATIVE_TEARDOWN_BUDGET_SECS: u64 = 30;

/// When the goal in flight was admitted, and how long it may take.
#[derive(Clone, Copy, Debug, PartialEq, Eq, Structural)]
pub struct RunningInfo {
    pub started_at: Span,
    pub timeout_secs: u64,
}

/// What came of asking for admission.
pub enum Admission<T> {
    /// The goal is admitted under this generation. `superseded` is the task
    /// that it displaced: it is to be cancelled, and waited for.
    Admitted { generation: u64, superseded: Option<T> },
    /// Another goal is in flight, with this much of its time left.
    AlreadyRunning { remaining_secs: u64 },
}

/// A gate that lets one goal in at a time. `T` is what a task is cancelled and
/// waited for with.
pub struct ConcurrencyGate<T> {
    pub running: Option<RunningInfo>,
    pub task: Option<T>,
    pub generation: u64,
}

/// A task's claim to the slot that it was admitted to.
#[derive(Clone, Copy, Debug, PartialEq, Eq, Structural)]
pub struct GoalSlotGuard {
    pub generation: u64,
}

/// The generation after `generation`.
pub open spec fn next_generation(generation: u64) -> u64 {
    if generation == u64::MAX {
        0
    } else {
        (generation + 1) as u64
    }
}

/// How many whole seconds of a goal's time are left at `now`.
pub open spec fn remaining_secs(info: RunningInfo, now: Span) -> int {
    let elapsed = if now.nanos >= info.started_at.nanos {
        now.nanos - info.started_at.nanos
    } else {
        0
    };
    let left = if info.timeout_secs * 1_000_000_000 >= elapsed {
        info.timeout_secs * 1_000_000_000 - elapsed
    } else {
        0
    };
    left / 1_000_000_000
}

/// Whether asking for admission leads from one state to another, with this
/// outcome.
pub open spec fn admits<T>(
    before: ConcurrencyGate<T>,
    timeout_secs: u64,
    force: bool,
    now: Span,
    after: ConcurrencyGate<T>,
    r: Admission<T>,
) -> bool {
    match before.running {
        Some(info) if !force => after == before && (r matches Admission::AlreadyRunning {
            remaining_secs: left,
        } && left == remaining_secs(info, now)),
        _ => {
            &&& after.running == Some(RunningInfo { started_at: now, timeout_secs })
            &&& after.task is None
            &&& after.generation == next_generation(before.generation)
            &&& r matches Admission::Admitted { generation, superseded } && generation
                == after.generation && superseded == (if before.running is Some {
                before.task
            } else {
                None
            })
        },
    }
}

/// Whether giving up a claim leads from one state to another.
pub open spec fn releases<T>(
    before: ConcurrencyGate<T>,
    guard: GoalSlotGuard,
    after: ConcurrencyGate<T>,
) -> bool {
    if before.generation == guard.generation {
        &&& after.running is None
        &&& after.task is None
        &&& after.generation == before.generation
    } else {
        after == before
    }
}

/// The generation after `n` more admissions.
pub open spec fn generation_after(generation: u64, n: nat) -> u64
    decreases n,
{
    if n == 0 {
        generation
    } else {
        next_generation(generation_after(generation, (n - 1) as nat))
    }
}

impl<T> ConcurrencyGate<T> {
    /// A gate with no goal in flight.
    pub fn new() -> (r: Self)
        ensures
            r.running is None,
            r.task is None,
            r.generation == 0,
    {
        ConcurrencyGate { running: None, task: None, generation: 0 }
    }

    /// Whether a goal is in flight.
    pub fn is_running(&self) -> (r: bool)
        ensures
            r == self.running is Some,
    {
        self.running.is_some()
    }

    /// Asks for admission at `now`. A goal in flight keeps the slot unless
    /// `force` is set; then its task is handed back.
    pub fn try_admit(&mut self, timeout_secs: u64, force: bool, now: Span) -> (r: Admission<T>)
        ensures
            admits(*old(self), timeout_secs, force, now, *final(self), r),
    {
        let mut superseded: Option<T> = None;
        if let Some(info) = self.running {
            if !force {
                let elapsed = now.saturating_sub(info.started_at);
                let left = Span::from_secs(info.timeout_secs).saturating_sub(elapsed);
                return Admission::AlreadyRunning { remaining_secs: left.as_secs() };
            }
            superseded = self.task.take();
        }
        self.running = Some(RunningInfo { started_at: now, timeout_secs });
        self.task = None;
        self.generation = if self.generation == u64::MAX {
            0
        } else {
            self.generation + 1
        };
        Admission::Admitted { generation: self.generation, superseded }
    }

    /// Frees the slot, whoever holds it: for a goal that was admitted and could
    /// not be started.
    pub fn clear_running(&mut self)
        ensures
            final(self).running is None,
            final(self).task is None,
            final(self).generation == old(self).generation,
    {
        self.running = None;
        self.task = None;
    }

    /// Keeps what the task of the goal in flight is cancelled and waited for
    /// with.
    pub fn set_task(&mut self, task: T)
        ensures
            final(self).running == old(self).running,
            final(self).task == Some(task),
            final(self).generation == old(self).generation,
    {
        self.task = Some(task);
    }

    /// The claim of a task that was admitted under `generation`.
    pub fn into_slot_guard(&self, generation: u64) -> (r: GoalSlotGuard)
        ensures
            r.generation == generation,
    {
        GoalSlotGuard { generation }
    }

    /// Frees the slot where the claim is to the current admission, and changes
    /// nothing where it is not.
    pub fn release(&mut self, guard: GoalSlotGuard)
        ensures
            releases(*old(self), guard, *final(self)),
    {
        if self.generation == guard.generation {
            self.clear_running();
        }
    }
}

/// The rejection of a goal while another is in flight. `hint` says how to take
/// its place, for an action that can be forced.
pub fn already_running_text(remaining_secs: u64, hint: &str) -> (r: String)
    ensures
        r@ == "action already in progress (times out in "@ + decimal(remaining_secs as nat)
            + "s)"@ + hint@,
{
    let mut text: String = "action already in progress (times out in ".to_owned();
    text.append(to_decimal(remaining_secs).as_str());
    text.append("s)");
    text.append(hint);
    text
}

/// A goal in flight is displaced only by force; without force nothing changes.
pub proof fn only_force_displaces_a_goal<T>(
    before: ConcurrencyGate<T>,
    timeout_secs: u64,
    force: bool,
    now: Span,
    after: ConcurrencyGate<T>,
    r: Admission<T>,
)
    requires
        admits(before, timeout_secs, force, now, after, r),
        before.running is Some,
    ensures
        r is Admitted <==> force,
        !force ==> after == before,
        r matches Admission::Admitted { superseded, .. } ==> superseded == before.task,
{
}

/// A task that was superseded frees nothing, however many goals were admitted
/// since, short of the generations running out: its claim is to a generation
/// that has passed.
pub proof fn a_superseded_task_frees_nothing<T>(
    at_admission: ConcurrencyGate<T>,
    n: nat,
    later: ConcurrencyGate<T>,
    after: ConcurrencyGate<T>,
)
    requires
        0 < n <= u64::MAX,
        later.generation == generation_after(at_admission.generation, n),
        releases(later, (GoalSlotGuard { generation: at_admission.generation }), after),
    ensures
        after == later,
{
    lemma_generation_after(at_admission.generation, n);
}

/// The generations count up and start over.
proof fn lemma_generation_after(generation: u64, n: nat)
    requires
        n <= u64::MAX,
    ensures
        generation + n <= u64::MAX ==> generation_after(generation, n) == generation + n,
        generation + n > u64::MAX ==> generation_after(generation, n) == generation + n - u64::MAX
            - 1,
    decreases n,
{
    if n > 0 {
        lemma_generation_after(generation, (n - 1) as nat);
    }
}

/// The task of the current admission frees the slot, and the next goal is
/// admitted without force.
pub proof fn a_freed_slot_admits_the_next_goal<T>(
    before: ConcurrencyGate<T>,
    freed: ConcurrencyGate<T>,
    timeout_secs: u64,
    force: bool,
    now: Span,
    after: ConcurrencyGate<T>,
    r: Admission<T>,
)
    requires
        releases(before, (GoalSlotGuard { generation: before.generation }), freed),
        admits(freed, timeout_secs, force, now, after, r),
    ensures
        freed.running is None,
        r == (Admission::<T>::Admitted {
            generation: next_generation(before.generation),
            superseded: None,
        }),
{
}

/// A call of `try_admit` decides as `admits` says.
pub proof fn a_call_asks_for_admission<T>(
    gate: &mut ConcurrencyGate<T>,
    timeout_secs: u64,
    force: bool,
    now: Span,
    r: Admission<T>,
)
    requires
        call_ensures(ConcurrencyGate::<T>::try_admit, (gate, timeout_secs, force, now), r),
    ensures
        admits(*old(gate), timeout_secs, force, now, *final(gate), r),
{
}

/// A call of `release` frees as `releases` says.
pub proof fn a_call_gives_up_a_claim<T>(gate: &mut ConcurrencyGate<T>, guard: GoalSlotGuard)
    requires
        call_ensures(ConcurrencyGate::<T>::release, (gate, guard), ()),
    ensures
        releases(*old(gate), guard, *final(gate)),
{
}

/// An admitted goal holds the slot, from now and for its own time, without a task yet
/// and under a generation that is not the one before; an idle slot admits any goal,
/// and hands back no task.
pub proof fn an_admitted_goal_holds_the_slot<T>(
    before: ConcurrencyGate<T>,
    timeout_secs: u64,
    force: bool,
    now: Span,
    after: ConcurrencyGate<T>,
    r: Admission<T>,
)
    requires
        admits(before, timeout_secs, force, now, after, r),
    ensures
        before.running is None ==> r is Admitted,
        r matches Admission::Admitted { generation, superseded } ==> {
            &&& after.running matches Some(info) && info.started_at == now && info.timeout_secs
                == timeout_secs
            &&& after.task is None
            &&& after.generation == generation && generation != before.generation
            &&& before.running is None ==> superseded is None
        },
{
}

/// What is left of a goal's time is all of it when it begins, none once it has passed,
/// and never more at a later time; with what has passed it makes up the time given, to
/// the second.
pub proof fn what_is_left_of_a_goal_shrinks<T>(
    before: ConcurrencyGate<T>,
    timeout_secs: u64,
    now: Span,
    after: ConcurrencyGate<T>,
    left: u64,
)
    requires
        before.running is Some,
        admits(
            before,
            timeout_secs,
            false,
            now,
            after,
            Admission::AlreadyRunning { remaining_secs: left },
        ),
    ensures
        ({
            let given = before.running->0;
            let passed = now.nanos - given.started_at.nanos;
            let whole = given.timeout_secs * 1_000_000_000;
            &&& passed <= 0 ==> left == given.timeout_secs
            &&& passed >= whole ==> left == 0
            &&& 0 < passed < whole ==> left * 1_000_000_000 + passed <= whole < (left + 1)
                * 1_000_000_000 + passed
        }),
{
}

/// Giving up a claim frees the slot exactly where the claim is to the admission in
/// flight, and never changes the generation.
pub proof fn only_the_current_claim_frees_the_slot<T>(
    before: ConcurrencyGate<T>,
    guard: GoalSlotGuard,
    after: ConcurrencyGate<T>,
)
    requires
        releases(before, guard, after),
    ensures
        after.generation == before.generation,
        guard.generation == before.generation ==> after.running is None && after.task is None,
        guard.generation != before.generation ==> after.running == before.running && after.task
            == before.task,
{
}

} // verus!
