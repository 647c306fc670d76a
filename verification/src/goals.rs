//! Taking in a goal: from its bytes to a started task or a rejection.
use crate::gate::already_running_text;
use crate::run::{check_identity, mismatch_text, RunIdentity};
use crate::text::{decimal, mentions, what_is_written_is_mentioned};
use vstd::prelude::*;
use vstd::string::*;

verus! {

/// The actions whose goals run one at a time.
#[derive(Clone, Copy, Debug, PartialEq, Eq, Structural)]
pub enum GoalKind {
    Add,
    Build,
    Run,
    Start,
}

/// How a goal that waits is told to take the place of the one in flight.
pub open spec fn force_hint(kind: GoalKind) -> Seq<char> {
    match kind {
        GoalKind::Add => ", use `--force` to force adding the node"@,
        GoalKind::Build => ", use `--force` to force building the node"@,
        _ => ""@,
    }
}

impl GoalKind {
    /// Whether a goal asks for its slot by force.
    pub fn forces(self, force: bool) -> (r: bool)
        ensures
            r == (force && (self == GoalKind::Add || self == GoalKind::Build)),
    {
        match self {
            GoalKind::Add | GoalKind::Build => force,
            _ => false,
        }
    }

    /// How a goal that waits is told to take the place of the one in flight.
    pub fn hint(self) -> (r: String)
        ensures
            r@ == force_hint(self),
    {
        match self {
            GoalKind::Add => ", use `--force` to force adding the node".to_owned(),
            GoalKind::Build => ", use `--force` to force building the node".to_owned(),
            _ => "".to_owned(),
        }
    }
}

/// What the intake of a goal waits for.
#[derive(Clone, Copy, Debug, PartialEq, Eq, Structural)]
pub enum IntakePhase {
    Decode,
    Admit,
    Prepare,
    Log,
    Accept,
    Over,
}

/// What came of the step that an intake waits for.
pub enum IntakeEvent {
    Decoded(Result<(), String>),
    Admitted,
    AlreadyRunning { remaining_secs: u64 },
    /// What the checks of the goal against the node came to.
    Prepared(Result<(), String>),
    LogMade(Result<(), String>),
    /// Whether the sender could be told that the goal is accepted.
    Accepted(bool),
}

/// What an intake does next.
pub enum IntakeAction {
    /// Ask for the slot.
    Admit,
    /// Check the goal against the node.
    Prepare,
    MakeLog,
    /// Tell the sender.
    Accept,
    /// Start the task.
    Start,
    /// Reject the goal, after giving the slot back where `clear` says so.
    Reject { text: String, clear: bool },
    /// Give the slot back; there is nobody to tell.
    GiveUp,
}

/// Whether a goal is checked against the node before its log is made.
pub open spec fn is_prepared(kind: GoalKind) -> bool {
    kind != GoalKind::Add
}

/// Whether the sender is told before the task starts.
pub open spec fn is_accepted_first(kind: GoalKind) -> bool {
    kind == GoalKind::Build || kind == GoalKind::Run
}

/// Whether an action is a rejection with this text.
pub open spec fn rejects(action: Option<IntakeAction>, text: Seq<char>, clear: bool) -> bool {
    action matches Some(IntakeAction::Reject { text: told, clear: gives_back }) && told@ == text
        && gives_back == clear
}

/// Whether an event leads an intake from one phase to another, with this action.
pub open spec fn intake_steps(
    kind: GoalKind,
    before: IntakePhase,
    event: IntakeEvent,
    after: IntakePhase,
    action: Option<IntakeAction>,
) -> bool {
    match (before, event) {
        (IntakePhase::Decode, IntakeEvent::Decoded(result)) => match result {
            Err(why) => after == IntakePhase::Over && rejects(
                action,
                "invalid payload: "@ + why@,
                false,
            ),
            Ok(_) => after == IntakePhase::Admit && action == Some(IntakeAction::Admit),
        },
        (IntakePhase::Admit, IntakeEvent::AlreadyRunning { remaining_secs }) => after
            == IntakePhase::Over && rejects(
            action,
            "action already in progress (times out in "@ + decimal(remaining_secs as nat) + "s)"@
                + force_hint(kind),
            false,
        ),
        (IntakePhase::Admit, IntakeEvent::Admitted) => if is_prepared(kind) {
            after == IntakePhase::Prepare && action == Some(IntakeAction::Prepare)
        } else {
            after == IntakePhase::Log && action == Some(IntakeAction::MakeLog)
        },
        (IntakePhase::Prepare, IntakeEvent::Prepared(result)) => match result {
            Err(why) => after == IntakePhase::Over && rejects(action, why@, true),
            Ok(_) => after == IntakePhase::Log && action == Some(IntakeAction::MakeLog),
        },
        (IntakePhase::Log, IntakeEvent::LogMade(result)) => match result {
            Err(why) => after == IntakePhase::Over && rejects(action, why@, true),
            Ok(_) => if is_accepted_first(kind) {
                after == IntakePhase::Accept && action == Some(IntakeAction::Accept)
            } else {
                after == IntakePhase::Over && action == Some(IntakeAction::Start)
            },
        },
        (IntakePhase::Accept, IntakeEvent::Accepted(told)) => after == IntakePhase::Over && action
            == Some(
            if told {
                IntakeAction::Start
            } else {
                IntakeAction::GiveUp
            },
        ),
        _ => after == before && action is None,
    }
}

/// The intake of one goal.
pub struct GoalIntake {
    pub kind: GoalKind,
    pub phase: IntakePhase,
}

impl GoalIntake {
    /// An intake at its beginning.
    pub fn new(kind: GoalKind) -> (r: Self)
        ensures
            r.kind == kind,
            r.phase == IntakePhase::Decode,
    {
        GoalIntake { kind, phase: IntakePhase::Decode }
    }

    /// Takes what came of the last step and gives the next one; `None`, and no
    /// change, where the intake waits for something else.
    pub fn step(&mut self, event: IntakeEvent) -> (r: Option<IntakeAction>)
        ensures
            final(self).kind == old(self).kind,
            intake_steps(old(self).kind, old(self).phase, event, final(self).phase, r),
    {
        match (self.phase, event) {
            (IntakePhase::Decode, IntakeEvent::Decoded(result)) => match result {
                Err(why) => {
                    let mut text: String = "invalid payload: ".to_owned();
                    text.append(why.as_str());
                    self.phase = IntakePhase::Over;
                    Some(IntakeAction::Reject { text, clear: false })
                },
                Ok(_) => {
                    self.phase = IntakePhase::Admit;
                    Some(IntakeAction::Admit)
                },
            },
            (IntakePhase::Admit, IntakeEvent::AlreadyRunning { remaining_secs }) => {
                self.phase = IntakePhase::Over;
                let hint = self.kind.hint();
                Some(
                    IntakeAction::Reject {
                        text: already_running_text(remaining_secs, hint.as_str()),
                        clear: false,
                    },
                )
            },
            (IntakePhase::Admit, IntakeEvent::Admitted) => {
                if self.kind != GoalKind::Add {
                    self.phase = IntakePhase::Prepare;
                    Some(IntakeAction::Prepare)
                } else {
                    self.phase = IntakePhase::Log;
                    Some(IntakeAction::MakeLog)
                }
            },
            (IntakePhase::Prepare, IntakeEvent::Prepared(result)) => match result {
                Err(text) => {
                    self.phase = IntakePhase::Over;
                    Some(IntakeAction::Reject { text, clear: true })
                },
                Ok(_) => {
                    self.phase = IntakePhase::Log;
                    Some(IntakeAction::MakeLog)
                },
            },
            (IntakePhase::Log, IntakeEvent::LogMade(result)) => match result {
                Err(text) => {
                    self.phase = IntakePhase::Over;
                    Some(IntakeAction::Reject { text, clear: true })
                },
                Ok(_) => {
                    if self.kind == GoalKind::Build || self.kind == GoalKind::Run {
                        self.phase = IntakePhase::Accept;
                        Some(IntakeAction::Accept)
                    } else {
                        self.phase = IntakePhase::Over;
                        Some(IntakeAction::Start)
                    }
                },
            },
            (IntakePhase::Accept, IntakeEvent::Accepted(told)) => {
                self.phase = IntakePhase::Over;
                if told {
                    Some(IntakeAction::Start)
                } else {
                    Some(IntakeAction::GiveUp)
                }
            },
            _ => None,
        }
    }
}

/// Checks a run goal: its runtime configuration must parse and be of the goal's
/// identity.
pub fn prepare_run_goal(parsed: &Result<RunIdentity, String>, asked: &RunIdentity) -> (r: Result<
    (),
    String,
>)
    ensures
        match (*parsed, r) {
            (Err(why), Err(text)) => text@ == "Failed to parse PEPPY_RUNTIME_CONFIG: "@ + why@,
            (Err(_), Ok(_)) => false,
            (Ok(given), Ok(_)) => given.node_name@ == asked.node_name@ && given.tag@ == asked.tag@
                && given.core_node@ == asked.core_node@,
            (Ok(given), Err(text)) => (given.node_name@ != asked.node_name@ || given.tag@
                != asked.tag@ || given.core_node@ != asked.core_node@) && text@ == mismatch_text(
                *asked,
                given,
            ),
        },
{
    match parsed {
        Err(why) => Err(config_failure(why.as_str())),
        Ok(given) => check_identity(asked, given),
    }
}

/// The rejection of a goal whose runtime configuration does not parse.
pub fn config_failure(why: &str) -> (r: String)
    ensures
        r@ == "Failed to parse PEPPY_RUNTIME_CONFIG: "@ + why@,
{
    let mut text: String = "Failed to parse PEPPY_RUNTIME_CONFIG: ".to_owned();
    text.append(why);
    text
}

/// A goal that took the slot and does not start gives it back; one that was
/// turned away before leaves the slot alone.
pub proof fn a_slot_is_kept_only_by_a_started_goal(
    kind: GoalKind,
    before: IntakePhase,
    event: IntakeEvent,
    after: IntakePhase,
    action: Option<IntakeAction>,
)
    requires
        intake_steps(kind, before, event, after, action),
        before != IntakePhase::Over,
        after == IntakePhase::Over,
    ensures
        action == Some(IntakeAction::Start) || action == Some(IntakeAction::GiveUp) || (
        action matches Some(IntakeAction::Reject { clear, .. }) && clear == (before
            != IntakePhase::Decode && before != IntakePhase::Admit)),
{
}

/// A call of `step` leads an intake as `intake_steps` says.
pub proof fn a_call_steps_the_intake(
    intake: &mut GoalIntake,
    event: IntakeEvent,
    r: Option<IntakeAction>,
)
    requires
        call_ensures(GoalIntake::step, (intake, event), r),
    ensures
        final(intake).kind == old(intake).kind,
        intake_steps(old(intake).kind, old(intake).phase, event, final(intake).phase, r),
{
}

/// Whether an event answers what an intake waits for.
pub open spec fn is_answer(phase: IntakePhase, event: IntakeEvent) -> bool {
    match phase {
        IntakePhase::Decode => event is Decoded,
        IntakePhase::Admit => event is Admitted || event is AlreadyRunning,
        IntakePhase::Prepare => event is Prepared,
        IntakePhase::Log => event is LogMade,
        IntakePhase::Accept => event is Accepted,
        IntakePhase::Over => false,
    }
}

/// What an event says against a goal, where it says something.
pub open spec fn objection(event: IntakeEvent) -> Option<Seq<char>> {
    match event {
        IntakeEvent::Decoded(Err(why)) => Some(why@),
        IntakeEvent::Prepared(Err(why)) => Some(why@),
        IntakeEvent::LogMade(Err(why)) => Some(why@),
        IntakeEvent::AlreadyRunning { remaining_secs } => Some(decimal(remaining_secs as nat)),
        _ => None,
    }
}

/// An objection to a goal ends its intake with a rejection that says it.
pub proof fn an_objection_rejects_a_goal(
    kind: GoalKind,
    before: IntakePhase,
    event: IntakeEvent,
    after: IntakePhase,
    action: Option<IntakeAction>,
)
    requires
        intake_steps(kind, before, event, after, action),
        is_answer(before, event),
        objection(event) is Some,
    ensures
        after == IntakePhase::Over,
        action matches Some(IntakeAction::Reject { text, .. }) && mentions(
            text@,
            objection(event)->0,
        ),
{
    match event {
        IntakeEvent::Decoded(Err(why)) => {
            what_is_written_is_mentioned("invalid payload: "@, why@, ""@);
        },
        IntakeEvent::AlreadyRunning { remaining_secs } => {
            let head = "action already in progress (times out in "@;
            let count = decimal(remaining_secs as nat);
            what_is_written_is_mentioned(head, count, "s)"@ + force_hint(kind));
            assert(head + count + "s)"@ + force_hint(kind) =~= head + count + ("s)"@ + force_hint(
                kind,
            )));
        },
        _ => {
            let why = objection(event)->0;
            what_is_written_is_mentioned(Seq::empty(), why, Seq::empty());
            assert(Seq::<char>::empty() + why + Seq::<char>::empty() =~= why);
        },
    }
}

/// How far a phase is along an intake.
pub open spec fn intake_place(phase: IntakePhase) -> int {
    match phase {
        IntakePhase::Decode => 0,
        IntakePhase::Admit => 1,
        IntakePhase::Prepare => 2,
        IntakePhase::Log => 3,
        IntakePhase::Accept => 4,
        IntakePhase::Over => 5,
    }
}

/// Whether goals of a kind go through a phase.
pub open spec fn goes_through(kind: GoalKind, phase: IntakePhase) -> bool {
    match phase {
        IntakePhase::Prepare => kind != GoalKind::Add,
        IntakePhase::Accept => kind == GoalKind::Build || kind == GoalKind::Run,
        _ => true,
    }
}

/// Without an objection an intake goes on to the next phase that goals of its kind
/// go through, and skips none of them; it starts the task at the end, unless nobody
/// could be told. An event that answers nothing changes nothing.
pub proof fn an_intake_goes_on_phase_by_phase(
    kind: GoalKind,
    before: IntakePhase,
    event: IntakeEvent,
    after: IntakePhase,
    action: Option<IntakeAction>,
    skipped: IntakePhase,
)
    requires
        intake_steps(kind, before, event, after, action),
        objection(event) is None,
    ensures
        !is_answer(before, event) ==> after == before && action is None,
        is_answer(before, event) ==> intake_place(before) < intake_place(after) && goes_through(
            kind,
            after,
        ) && match after {
            IntakePhase::Admit => action == Some(IntakeAction::Admit),
            IntakePhase::Prepare => action == Some(IntakeAction::Prepare),
            IntakePhase::Log => action == Some(IntakeAction::MakeLog),
            IntakePhase::Accept => action == Some(IntakeAction::Accept),
            _ => action == Some(
                if event == IntakeEvent::Accepted(false) {
                    IntakeAction::GiveUp
                } else {
                    IntakeAction::Start
                },
            ),
        },
        is_answer(before, event) && intake_place(before) < intake_place(skipped) < intake_place(
            after,
        ) ==> !goes_through(kind, skipped),
{
}

/// Only adds and builds take a slot by force.
pub proof fn only_adds_and_builds_force(kind: GoalKind, force: bool, r: bool)
    requires
        call_ensures(GoalKind::forces, (kind, force), r),
    ensures
        r ==> force,
        kind == GoalKind::Run || kind == GoalKind::Start ==> !r,
        kind == GoalKind::Add || kind == GoalKind::Build ==> r == force,
{
}

/// A run goal goes ahead only where its configuration parses and names the node, the
/// tag and the core node that the goal asks for.
pub proof fn a_run_goal_is_of_one_identity(
    parsed: Result<RunIdentity, String>,
    asked: RunIdentity,
    r: Result<(), String>,
)
    requires
        call_ensures(prepare_run_goal, (&parsed, &asked), r),
    ensures
        r is Ok <==> (parsed matches Ok(given) && given.node_name@ == asked.node_name@ && given.tag@
            == asked.tag@ && given.core_node@ == asked.core_node@),
        r matches Err(text) ==> (parsed matches Err(why) ==> mentions(text@, why@)),
{
    if let Err(why) = parsed {
        what_is_written_is_mentioned("Failed to parse PEPPY_RUNTIME_CONFIG: "@, why@, ""@);
    }
}

} // verus!
