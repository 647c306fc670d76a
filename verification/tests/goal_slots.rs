use core_node::gate::{already_running_text, Admission, ConcurrencyGate};
use core_node::goals::{
    config_failure, prepare_run_goal, GoalIntake, GoalKind, IntakeAction, IntakeEvent,
};
use core_node::run::RunIdentity;
use core_node::time::Span;

type Gate = ConcurrencyGate<&'static str>;

fn now() -> Span {
    Span::from_secs(1_000)
}

fn enter(gate: &mut Gate, force: bool) -> u64 {
    match gate.try_admit(60, force, now()) {
        Admission::Admitted { generation, .. } => generation,
        Admission::AlreadyRunning { .. } => panic!("expected admission"),
    }
}

#[test]
fn first_admit_starts_generation_at_one() {
    let mut gate = Gate::new();
    assert_eq!(enter(&mut gate, false), 1);
    assert!(gate.is_running());
}

#[test]
fn rejects_concurrent_goal_without_force() {
    let mut gate = Gate::new();
    enter(&mut gate, false);
    match gate.try_admit(60, false, now()) {
        Admission::AlreadyRunning { remaining_secs } => assert!(remaining_secs <= 60),
        Admission::Admitted { .. } => panic!("expected rejection while running"),
    }
}

#[test]
fn a_rejection_tells_the_time_that_is_left() {
    let mut gate = Gate::new();
    enter(&mut gate, false);
    match gate.try_admit(60, false, Span::from_secs(1_042)) {
        Admission::AlreadyRunning { remaining_secs } => assert_eq!(remaining_secs, 18),
        Admission::Admitted { .. } => panic!("expected rejection while running"),
    }
}

#[test]
fn force_readmits_and_bumps_generation() {
    let mut gate = Gate::new();
    let g1 = enter(&mut gate, false);
    let g2 = enter(&mut gate, true);
    assert_eq!(g2, g1 + 1);
    assert!(gate.is_running());
}

#[test]
fn guard_with_current_generation_frees_slot() {
    let mut gate = Gate::new();
    let generation = enter(&mut gate, false);
    let guard = gate.into_slot_guard(generation);
    assert!(gate.is_running());
    gate.release(guard);
    assert!(!gate.is_running());
}

#[test]
fn stale_guard_drop_does_not_clobber_newer_admission() {
    let mut gate = Gate::new();
    let gen_a = enter(&mut gate, false);
    let guard_a = gate.into_slot_guard(gen_a);

    let gen_b = enter(&mut gate, true); // B force-admits over A.
    assert_ne!(gen_a, gen_b);

    gate.release(guard_a); // A's task finally winds down, after B was admitted.

    assert!(gate.is_running(), "B's slot must survive A's stale release");
    assert_eq!(gate.generation, gen_b);
}

#[test]
fn clear_running_frees_slot() {
    let mut gate = Gate::new();
    enter(&mut gate, false);
    gate.clear_running();
    assert!(!gate.is_running());
}

#[test]
fn next_goal_admits_after_guard_release() {
    let mut gate = Gate::new();
    let generation = enter(&mut gate, false);
    let guard = gate.into_slot_guard(generation);
    gate.release(guard);
    // The slot is free again, so a fresh goal is admitted rather than rejected.
    assert_eq!(enter(&mut gate, false), generation + 1);
}

#[test]
fn force_supersede_returns_old_handle_without_abort() {
    let mut gate = Gate::new();
    let gen_a = enter(&mut gate, false);
    gate.set_task("task a");
    let (gen_b, superseded) = match gate.try_admit(60, true, now()) {
        Admission::Admitted { generation, superseded } => (generation, superseded),
        Admission::AlreadyRunning { .. } => panic!("force admission must succeed"),
    };
    assert_eq!(gen_b, gen_a + 1, "force admission bumps the generation");
    assert!(gate.is_running());
    assert_eq!(superseded, Some("task a"), "the displaced task must be handed back");
}

#[test]
fn a_goal_is_started_once_it_is_accepted() {
    let mut intake = GoalIntake::new(GoalKind::Build);
    assert!(matches!(intake.step(IntakeEvent::Decoded(Ok(()))), Some(IntakeAction::Admit)));
    assert!(matches!(intake.step(IntakeEvent::Admitted), Some(IntakeAction::Prepare)));
    assert!(matches!(intake.step(IntakeEvent::Prepared(Ok(()))), Some(IntakeAction::MakeLog)));
    assert!(matches!(intake.step(IntakeEvent::LogMade(Ok(()))), Some(IntakeAction::Accept)));
    assert!(matches!(intake.step(IntakeEvent::Accepted(true)), Some(IntakeAction::Start)));
    assert!(intake.step(IntakeEvent::Accepted(true)).is_none());
}

#[test]
fn a_rejected_goal_gives_its_slot_back() {
    let mut intake = GoalIntake::new(GoalKind::Build);
    intake.step(IntakeEvent::Decoded(Ok(())));
    intake.step(IntakeEvent::Admitted);
    match intake.step(IntakeEvent::Prepared(Err("no such node".to_string()))) {
        Some(IntakeAction::Reject { text, clear }) => {
            assert!(text.contains("no such node"));
            assert!(clear);
        }
        _ => panic!("a goal that does not fit is rejected"),
    }
    let mut intake = GoalIntake::new(GoalKind::Build);
    intake.step(IntakeEvent::Decoded(Ok(())));
    match intake.step(IntakeEvent::AlreadyRunning { remaining_secs: 18 }) {
        Some(IntakeAction::Reject { text, clear }) => {
            assert!(text.contains("18"));
            assert!(!clear, "the slot is another goal's");
        }
        _ => panic!("a second goal is rejected"),
    }
    let mut intake = GoalIntake::new(GoalKind::Run);
    intake.step(IntakeEvent::Decoded(Ok(())));
    intake.step(IntakeEvent::Admitted);
    intake.step(IntakeEvent::Prepared(Ok(())));
    intake.step(IntakeEvent::LogMade(Ok(())));
    assert!(matches!(intake.step(IntakeEvent::Accepted(false)), Some(IntakeAction::GiveUp)));
}

#[test]
fn a_rejection_says_what_is_in_the_way() {
    assert_eq!(already_running_text(18, ""), "action already in progress (times out in 18s)");
    assert!(GoalKind::Add.forces(true) && GoalKind::Build.forces(true));
    assert!(!GoalKind::Run.forces(true) && !GoalKind::Add.forces(false));
}

#[test]
fn a_run_goal_is_of_the_identity_that_it_asks_for() {
    let identity = |node: &str, tag: &str| RunIdentity {
        node_name: node.to_string(),
        tag: tag.to_string(),
        core_node: "core_a".to_string(),
    };
    assert_eq!(prepare_run_goal(&Ok(identity("arm", "v1")), &identity("arm", "v1")), Ok(()));
    let text = prepare_run_goal(&Ok(identity("arm", "v2")), &identity("arm", "v1")).unwrap_err();
    assert!(text.starts_with("runtime_config identity mismatch: goal requested `arm:v1`"), "{text}");
    assert_eq!(
        prepare_run_goal(&Err("bad".to_string()), &identity("arm", "v1")),
        Err("Failed to parse PEPPY_RUNTIME_CONFIG: bad".to_string())
    );
    assert_eq!(config_failure("bad"), "Failed to parse PEPPY_RUNTIME_CONFIG: bad");
}
