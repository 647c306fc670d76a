use core_node::env::{
    inject_node_runtime_env, inject_rust_build_env, push_env_if_missing, resolve_apptainer_bin,
    validate_goal_env_vars, EnvError, PeppygenLanguage,
};
use core_node::mounts::AnyType;
use core_node::pairing::{PlannedPair, SlotAddr};
use core_node::run::drain::{drain_quiet_window, DrainStep, FeedbackSync};
use core_node::run::machine::{NodeRun, RunAction, RunEvent};
use core_node::run::signals::{encoding_failure, ChildStatus, Signal, SignalWait};
use core_node::run::watch::{
    after_marking, after_watch, AfterWatch, ExitReport, InstanceState, WatchEnd,
};
use core_node::common::PanicPayload;
use core_node::run::{
    apply_daemon_defaults, check_identity, finish_launch_config, prepare_run, run_node_run,
    runtime_refusal, serialize_refusal, startup_abort_reason, DaemonDefaults, Discovery, EntityFacts, LaunchConfig, Lifecycle, Mode,
    PeerConfig, RunGoal, RunHost, RunIdentity, RunRefusal, RuntimeFailure, StartupOutcome,
    TaskEnd,
};
use core_node::start::machine::{NodeStart, StartAction, StartEvent};
use core_node::start::output::{flush_step, quiescence_spans, FlushStep, Quiescence};
use core_node::start::parameters::validate_parameters;
use core_node::start::{prepare_start, run_node_start, start_config};
use core_node::time::Span;

fn runtime_config() -> LaunchConfig {
    LaunchConfig {
        messaging_host: "127.0.0.1".to_string(),
        discovery: Discovery {
            gossip: true,
            standard_buffer_size: 0,
            high_throughput_buffer_size: 0,
            organization_id: None,
        },
        lifecycle: Lifecycle { daemon_grace_secs: 0, shutdown_grace_secs: 0 },
    }
}

fn daemon_defaults(mode: Mode, peer: PeerConfig) -> DaemonDefaults {
    DaemonDefaults {
        messaging_mode: mode,
        peer_buffer: peer,
        daemon_grace_secs: 123,
        shutdown_grace_secs: 17,
        organization_namespace: "local".to_string(),
    }
}

#[test]
fn apply_daemon_defaults_peer_mode_enables_gossip() {
    let mut cfg = runtime_config();
    apply_daemon_defaults(&mut cfg, &daemon_defaults(Mode::Peer, PeerConfig::default()), false);
    assert!(cfg.discovery.gossip);
    assert_eq!(cfg.discovery.standard_buffer_size, 128);
    assert_eq!(cfg.discovery.high_throughput_buffer_size, 1024);
}

#[test]
fn apply_daemon_defaults_router_mode_disables_gossip() {
    let mut cfg = runtime_config();
    apply_daemon_defaults(&mut cfg, &daemon_defaults(Mode::Router, PeerConfig::default()), false);
    assert!(!cfg.discovery.gossip);
}

#[test]
fn apply_daemon_defaults_container_separate_ns_forces_client_even_in_peer_mode() {
    let mut cfg = runtime_config();
    apply_daemon_defaults(&mut cfg, &daemon_defaults(Mode::Peer, PeerConfig::default()), true);
    assert!(
        !cfg.discovery.gossip,
        "separate-namespace container must route through the router"
    );
}

#[test]
fn apply_daemon_defaults_always_applies_buffers_and_grace() {
    let peer = PeerConfig { standard_buffer_size: 64, high_throughput_buffer_size: 4096 };
    for (mode, container_separate_ns) in
        [(Mode::Peer, false), (Mode::Router, false), (Mode::Peer, true)]
    {
        let mut cfg = runtime_config();
        apply_daemon_defaults(&mut cfg, &daemon_defaults(mode, peer), container_separate_ns);
        assert_eq!(cfg.discovery.standard_buffer_size, 64);
        assert_eq!(cfg.discovery.high_throughput_buffer_size, 4096);
        assert_eq!(cfg.lifecycle.daemon_grace_secs, 123);
        assert_eq!(cfg.lifecycle.shutdown_grace_secs, 17);
        assert_eq!(cfg.discovery.organization_id.as_deref(), Some("local"));
    }
}

#[test]
fn apply_daemon_defaults_stamps_the_org_namespace() {
    let mut defaults = daemon_defaults(Mode::Peer, PeerConfig::default());
    defaults.organization_namespace = "550e8400-e29b-41d4-a716-446655440000".to_string();
    let mut cfg = runtime_config();
    apply_daemon_defaults(&mut cfg, &defaults, false);
    assert_eq!(
        cfg.discovery.organization_id.as_deref(),
        Some("550e8400-e29b-41d4-a716-446655440000")
    );
}

#[test]
fn a_container_behind_a_gateway_reaches_the_daemon_through_it() {
    let mut cfg = runtime_config();
    let defaults = DaemonDefaults::from_peppy_config(
        Mode::Peer,
        PeerConfig::default(),
        1,
        2,
        "local".to_string(),
    );
    finish_launch_config(&mut cfg, &defaults, Some("10.0.2.2".to_string()));
    assert_eq!(cfg.messaging_host, "10.0.2.2");
    assert!(!cfg.discovery.gossip);
    let mut cfg = runtime_config();
    finish_launch_config(&mut cfg, &defaults, None);
    assert_eq!(cfg.messaging_host, "127.0.0.1");
    assert!(cfg.discovery.gossip);
}

/// Which directories may not be mounted.
const BLOCKED: fn(&str) -> bool = |source| source == "/tmp";

fn text(value: &str) -> AnyType {
    AnyType::String(value.to_string())
}

fn mounts(list: &[&str]) -> Vec<String> {
    list.iter().map(|mount| mount.to_string()).collect()
}

type Resolve =
    fn(&Vec<String>, &Vec<(String, AnyType)>, &fn(&str) -> bool) -> Result<Vec<String>, String>;

const RUN: Resolve = core_node::run::resolve_mount_path_parameters;
const START: Resolve = core_node::start::resolve_mount_path_parameters;

fn simple(resolve: Resolve) {
    let mount_paths = mounts(&["${parameters:device_path}:/dev/video0:rw"]);
    let arguments = vec![("device_path".to_string(), text("/dev/video0"))];
    let resolved = resolve(&mount_paths, &arguments, &BLOCKED).unwrap();
    assert_eq!(resolved, vec!["/dev/video0:/dev/video0:rw"]);
}

fn nested(resolve: Resolve) {
    let mount_paths = mounts(&["${parameters:video.device_path}:/dev/video0:rw"]);
    let video = vec![("device_path".to_string(), text("/dev/video1"))];
    let arguments = vec![("video".to_string(), AnyType::Object(video))];
    let resolved = resolve(&mount_paths, &arguments, &BLOCKED).unwrap();
    assert_eq!(resolved, vec!["/dev/video1:/dev/video0:rw"]);
}

fn passthrough(resolve: Resolve) {
    let mount_paths = mounts(&["/data/models:/opt/models:ro"]);
    let resolved = resolve(&mount_paths, &Vec::new(), &BLOCKED).unwrap();
    assert_eq!(resolved, vec!["/data/models:/opt/models:ro"]);
}

fn rejects_blocked_path(resolve: Resolve) {
    let mount_paths = mounts(&["${parameters:path}:/container:rw"]);
    let arguments = vec![("path".to_string(), text("/tmp"))];
    let result = resolve(&mount_paths, &arguments, &BLOCKED);
    assert!(result.is_err());
    assert!(result.unwrap_err().contains("blocked system directory"));
}

#[test]
fn run_test_resolve_mount_path_parameters_simple() {
    simple(RUN);
}

#[test]
fn run_test_resolve_mount_path_parameters_nested() {
    nested(RUN);
}

#[test]
fn run_test_resolve_mount_path_parameters_passthrough() {
    passthrough(RUN);
}

#[test]
fn run_test_resolve_mount_path_parameters_rejects_blocked_path() {
    rejects_blocked_path(RUN);
}

#[test]
fn start_test_resolve_mount_path_parameters_simple() {
    simple(START);
}

#[test]
fn start_test_resolve_mount_path_parameters_nested() {
    nested(START);
}

#[test]
fn start_test_resolve_mount_path_parameters_passthrough() {
    passthrough(START);
}

#[test]
fn start_test_resolve_mount_path_parameters_rejects_blocked_path() {
    rejects_blocked_path(START);
}

#[test]
fn a_mount_that_cannot_be_resolved_is_refused() {
    let arguments = vec![
        ("speed".to_string(), AnyType::Other("integer".to_string())),
        ("dir".to_string(), text("/data")),
    ];
    let refuse = |mount: &str| RUN(&mounts(&[mount]), &arguments, &BLOCKED).unwrap_err();
    assert!(refuse("${parameters:absent}:/x").contains("absent"));
    assert!(refuse("${parameters:speed}:/x").contains("integer"));
    assert!(refuse("${parameters:dir:/x").contains("${parameters:dir:/x"));
}

const QUIET: u64 = 10;

fn drain(sync: &FeedbackSync, require_stdout: bool, now_millis: u64) -> DrainStep {
    sync.drain_step(
        Span::from_millis(QUIET),
        require_stdout,
        Span::from_millis(now_millis),
        Span::from_millis(2_000),
    )
}

fn register_read_publish_idle(sync: &mut FeedbackSync, n: usize) {
    sync.register_reader();
    for _ in 0..n {
        sync.increment_read();
        sync.increment_published();
    }
    sync.reader_idle();
}

#[test]
fn wait_for_drain_returns_once_readers_idle_and_published() {
    let mut sync = FeedbackSync::new();
    register_read_publish_idle(&mut sync, 1); // stdout reader
    register_read_publish_idle(&mut sync, 1); // stderr reader
    assert_eq!(
        drain(&sync, false, 0),
        DrainStep::Settle(Span::from_millis(QUIET)),
        "should drain once every reader is idle and every line is published"
    );
}

#[test]
fn wait_for_drain_blocks_until_publish_catches_up() {
    let mut sync = FeedbackSync::new();
    sync.register_reader();
    sync.increment_read(); // a line was read and the reader is caught up...
    sync.reader_idle();
    // ...but the forwarder has not copied it onto the external topic yet.
    assert!(
        matches!(drain(&sync, false, 50), DrainStep::Wait(_)),
        "drain must not return while a read line is still unpublished"
    );
    sync.increment_published();
    assert!(matches!(drain(&sync, false, 50), DrainStep::Settle(_)));
}

#[test]
fn wait_for_drain_blocks_while_a_reader_is_active() {
    let mut sync = FeedbackSync::new();
    sync.register_reader();
    sync.register_reader();
    sync.reader_idle(); // only one of the two readers is caught up
    assert!(
        matches!(drain(&sync, false, 50), DrainStep::Wait(_)),
        "drain must wait until every live reader is idle"
    );
    sync.reader_idle(); // second reader is now caught up
    assert!(matches!(drain(&sync, false, 50), DrainStep::Settle(_)));
}

#[test]
fn wait_for_drain_requires_stdout_when_asked() {
    let mut sync = FeedbackSync::new();
    sync.register_reader();
    sync.reader_idle(); // caught up, but no stdout line has been seen
    assert!(
        matches!(drain(&sync, true, 50), DrainStep::Wait(_)),
        "require_stdout must block until stdout is seen"
    );
    assert_eq!(drain(&sync, true, 2_000), DrainStep::TimedOut);
    sync.signal_stdout();
    assert!(matches!(drain(&sync, true, 50), DrainStep::Settle(_)));
}

#[test]
fn wait_for_drain_with_no_live_readers_returns_immediately() {
    let sync = FeedbackSync::new();
    assert_eq!(
        drain(&sync, false, 0),
        DrainStep::Drained,
        "with no live readers there is nothing to drain"
    );
}

#[test]
fn wait_for_drain_backstop_fires_when_a_reader_never_idles() {
    let mut sync = FeedbackSync::new();
    sync.register_reader(); // a reader that never reports idle (e.g. wedged)
    assert!(matches!(drain(&sync, false, 1_999), DrainStep::Wait(_)));
    assert_eq!(
        drain(&sync, false, 2_000),
        DrainStep::TimedOut,
        "the backstop must fire when a reader never drains"
    );
}

#[test]
fn wait_for_drain_stops_counting_an_exited_reader() {
    let mut sync = FeedbackSync::new();
    sync.register_reader();
    sync.register_reader();
    sync.reader_idle(); // one reader is idle
    sync.reader_exit(false); // the other hits EOF while active and exits
    assert!(
        matches!(drain(&sync, false, 50), DrainStep::Settle(_)),
        "an exited reader must no longer be counted as live"
    );
    sync.reader_exit(true);
    assert_eq!(drain(&sync, false, 50), DrainStep::Drained);
}

#[test]
fn a_container_is_waited_for_longer() {
    assert_eq!(drain_quiet_window(false), Span::from_millis(10));
    assert_eq!(drain_quiet_window(true), Span::from_millis(100));
}

fn plan() -> Vec<PlannedPair> {
    vec![PlannedPair {
        own: SlotAddr::new("arm_1", "controller"),
        peer: SlotAddr::new("ctrl_1", "arm"),
    }]
}

#[test]
fn a_run_succeeds_once_its_pins_are_delivered() {
    let mut run = NodeRun::new("arm_1".to_string(), true, plan());
    assert!(matches!(
        run.step(RunEvent::Entered { cancelled: false }),
        Some(RunAction::Spawn)
    ));
    assert!(matches!(run.step(RunEvent::Spawned(Ok(()))), Some(RunAction::Reserve(0))));
    assert!(matches!(run.step(RunEvent::Reserved(Ok(()))), Some(RunAction::AwaitReady)));
    assert!(matches!(
        run.step(RunEvent::Ready(StartupOutcome::Passed)),
        Some(RunAction::CheckHealth)
    ));
    assert!(matches!(
        run.step(RunEvent::Health { outcome: StartupOutcome::Passed, cancelled: false }),
        Some(RunAction::Commit)
    ));
    assert!(matches!(
        run.step(RunEvent::Committed(Ok(42))),
        Some(RunAction::StartWatching)
    ));
    assert!(matches!(run.step(RunEvent::Watching), Some(RunAction::Deliver)));
    match run.step(RunEvent::Delivered(Ok(()))) {
        Some(RunAction::Succeed { pid, lines, require_stdout }) => {
            assert_eq!(pid, 42);
            assert_eq!(lines, vec!["paired: arm_1:controller ⇌ ctrl_1:arm"]);
            assert!(require_stdout);
        }
        _ => panic!("a delivered run succeeds"),
    }
    assert!(run.step(RunEvent::Watching).is_none(), "an ended run stays ended");
}

fn unwound(action: Option<RunAction>) -> (bool, bool, bool, String) {
    match action {
        Some(RunAction::Unwind(unwind)) => {
            (unwind.dissolve, unwind.kill, unwind.log, unwind.text)
        }
        _ => panic!("expected a failure"),
    }
}

#[test]
fn a_failed_run_undoes_what_it_did() {
    let mut run = NodeRun::new("arm_1".to_string(), false, plan());
    let (dissolve, kill, log, text) = unwound(run.step(RunEvent::Entered { cancelled: true }));
    assert_eq!((dissolve, kill, log), (false, false, true));
    assert_eq!(text, "cancelled before node process spawn");

    let mut run = NodeRun::new("arm_1".to_string(), false, plan());
    run.step(RunEvent::Entered { cancelled: false });
    run.step(RunEvent::Spawned(Ok(())));
    let (dissolve, kill, log, text) =
        unwound(run.step(RunEvent::Reserved(Err("taken".to_string()))));
    assert_eq!((dissolve, kill, log), (true, true, true));
    assert_eq!(text, "failed to reserve pair for slot `controller`: taken");

    let mut run = NodeRun::new("arm_1".to_string(), false, plan());
    run.step(RunEvent::Entered { cancelled: false });
    run.step(RunEvent::Spawned(Ok(())));
    run.step(RunEvent::Reserved(Ok(())));
    run.step(RunEvent::Ready(StartupOutcome::Passed));
    let (dissolve, kill, _, text) = unwound(
        run.step(RunEvent::Health { outcome: StartupOutcome::Passed, cancelled: true }),
    );
    assert!(dissolve && kill);
    assert_eq!(text, "cancelled before commit");

    let mut run = NodeRun::new("arm_1".to_string(), false, plan());
    run.step(RunEvent::Entered { cancelled: false });
    run.step(RunEvent::Spawned(Ok(())));
    run.step(RunEvent::Reserved(Ok(())));
    run.step(RunEvent::Ready(StartupOutcome::Passed));
    run.step(RunEvent::Health { outcome: StartupOutcome::Passed, cancelled: false });
    let (dissolve, kill, log, text) =
        unwound(run.step(RunEvent::Committed(Err("gone".to_string()))));
    assert_eq!((dissolve, kill, log), (true, false, true));
    assert_eq!(text, "Failed to register instance: gone");
}

#[test]
fn a_run_without_pairs_is_done_once_it_is_watched() {
    let mut run = NodeRun::new("arm_1".to_string(), false, Vec::new());
    run.step(RunEvent::Entered { cancelled: false });
    assert!(matches!(run.step(RunEvent::Spawned(Ok(()))), Some(RunAction::AwaitReady)));
    run.step(RunEvent::Ready(StartupOutcome::Passed));
    run.step(RunEvent::Health { outcome: StartupOutcome::Passed, cancelled: false });
    run.step(RunEvent::Committed(Ok(7)));
    match run.step(RunEvent::Watching) {
        Some(RunAction::Succeed { pid, lines, require_stdout }) => {
            assert_eq!(pid, 7);
            assert!(lines.is_empty() && !require_stdout);
        }
        _ => panic!("nothing is left to deliver"),
    }
}

#[test]
fn an_outcome_that_aborts_says_why() {
    assert_eq!(startup_abort_reason(&StartupOutcome::Passed), None);
    assert!(startup_abort_reason(&StartupOutcome::Cancelled).is_some());
    assert_eq!(
        startup_abort_reason(&StartupOutcome::Failed("no answer".to_string())),
        Some("no answer".to_string())
    );
    assert!(runtime_refusal(&RuntimeFailure::Initialize("x".to_string())).contains('x'));
    assert!(runtime_refusal(&RuntimeFailure::Task("x".to_string())).contains('x'));
}

#[test]
fn a_signal_is_waited_for_up_to_its_deadline() {
    let mut wait =
        SignalWait::new(Signal::Ready, Span::from_secs(10), "no ready signal".to_string());
    assert_eq!(
        wait.attempt(ChildStatus::Running, Span::from_secs(0)),
        Ok(Span::from_millis(500))
    );
    assert_eq!(
        wait.attempt(ChildStatus::Running, Span::from_millis(9_900)),
        Ok(Span::from_millis(100))
    );
    let silent = wait.attempt(ChildStatus::Running, Span::from_secs(10)).unwrap_err();
    assert!(silent.contains("no ready signal"), "{silent}");
    wait.attempt_failed("refused".to_string());
    let told = wait.attempt(ChildStatus::Running, Span::from_secs(10)).unwrap_err();
    assert!(told.contains("refused"), "{told}");
    let exited = wait
        .attempt(ChildStatus::Exited("exit status: 1".to_string()), Span::from_secs(1))
        .unwrap_err();
    assert!(exited.contains("exit status: 1"), "{exited}");
    let unknown =
        wait.attempt(ChildStatus::Unknown("gone".to_string()), Span::from_secs(1)).unwrap_err();
    assert!(unknown.contains("gone"), "{unknown}");
    assert!(encoding_failure(Signal::Health, "bad").contains("bad"));
}

#[test]
fn an_exit_is_recorded_unless_the_daemon_ends() {
    assert!(matches!(after_watch(&WatchEnd::Shutdown), AfterWatch::ReapOnly));
    let clean = ExitReport::Status { success: true, status: "exit status: 0".to_string() };
    assert!(matches!(
        after_watch(&WatchEnd::Exited(clean)),
        AfterWatch::MarkExited { cleanly: true }
    ));
    let lost = ExitReport::Unreadable("gone".to_string());
    assert!(matches!(
        after_watch(&WatchEnd::Exited(lost)),
        AfterWatch::MarkExited { cleanly: false }
    ));
    let failed = ExitReport::Status { success: false, status: "exit status: 2".to_string() };
    let record = after_marking(Some(InstanceState::Failed), &failed, "arm_1", "arm", "v1");
    assert!(record.dissolve);
    assert!(record.log.unwrap().contains("exit status: 2"));
    let record = after_marking(None, &failed, "arm_1", "arm", "v1");
    assert!(!record.dissolve && record.log.is_none());
}

#[test]
fn a_start_commits_what_is_healthy() {
    let mut start = NodeStart::new(true);
    assert!(matches!(start.step(StartEvent::Spawned(None)), Some(StartAction::AwaitReady)));
    assert!(matches!(start.step(StartEvent::Ready(None)), Some(StartAction::CheckHealth)));
    assert!(matches!(start.step(StartEvent::Health(None)), Some(StartAction::Commit)));
    assert!(matches!(
        start.step(StartEvent::Committed(Ok(9))),
        Some(StartAction::Succeed { pid: 9, require_stdout: true })
    ));
    let mut start = NodeStart::new(false);
    start.step(StartEvent::Spawned(None));
    assert!(matches!(
        start.step(StartEvent::Ready(Some("late".to_string()))),
        Some(StartAction::Kill(_))
    ));
    let mut start = NodeStart::new(false);
    assert!(matches!(
        start.step(StartEvent::Spawned(Some("no binary".to_string()))),
        Some(StartAction::Fail(_))
    ));
}

#[test]
fn output_is_flushed_or_given_up_on() {
    let deadline = Span::from_secs(5);
    assert_eq!(flush_step(3, 3, Span::from_secs(0), deadline), FlushStep::Flushed);
    assert_eq!(
        flush_step(2, 3, Span::from_secs(1), deadline),
        FlushStep::Wait(Span::from_secs(4))
    );
    assert_eq!(flush_step(2, 3, Span::from_secs(5), deadline), FlushStep::TimedOut);
    let mut quiet = Quiescence::new(0);
    let (max_wait, window) = quiescence_spans(false);
    assert!(quiet.next_wait(Span::from_secs(0), max_wait, window).is_some());
    quiet.on_read(1);
    assert!(quiet.quiet_ends_it(false, false));
    assert!(!quiet.quiet_ends_it(true, false));
    assert!(quiet.next_wait(max_wait, max_wait, window).is_none());
}

#[test]
fn parameters_without_an_argument_are_named() {
    let schema = vec![
        ("speed".to_string(), text("f64")),
        ("video".to_string(), AnyType::Object(vec![("path".to_string(), text("string"))])),
    ];
    let missing = validate_parameters(&schema, &Vec::new(), "");
    assert_eq!(missing, vec!["speed", "video.path"]);
    let arguments = vec![
        ("speed".to_string(), AnyType::Other("float".to_string())),
        ("video".to_string(), AnyType::Object(vec![("path".to_string(), text("/dev"))])),
    ];
    assert!(validate_parameters(&schema, &arguments, "").is_empty());
}

fn goal(env_vars: Vec<(String, String)>) -> RunGoal {
    RunGoal {
        node_name: "arm".to_string(),
        tag: "v1".to_string(),
        instance_id: "arm_1".to_string(),
        env_vars,
        deferred: Vec::new(),
    }
}

fn run_host() -> RunHost {
    RunHost {
        forbidden: vec!["LD_PRELOAD".to_string()],
        sccache_available: false,
        apptainer_bin: "/usr/bin/apptainer".to_string(),
    }
}

fn entity() -> EntityFacts {
    EntityFacts {
        built: true,
        language: PeppygenLanguage::Rust,
        name: "arm".to_string(),
        tag: "v1".to_string(),
        container: None,
        pairing_refusal: None,
        missing: Vec::new(),
        arguments: Vec::new(),
    }
}

#[test]
fn a_run_is_prepared_or_refused() {
    let refusal = |goal: RunGoal, holder: Option<(String, String)>, entity: Option<EntityFacts>| {
        match prepare_run(&goal, &run_host(), &None, &holder, &entity, &BLOCKED).outcome {
            Ok(_) => panic!("expected a refusal"),
            Err(RunRefusal::Told(text)) => text,
            Err(RunRefusal::Env(EnvError::ForbiddenEnvVar(key))) => key,
            Err(RunRefusal::Env(EnvError::InvalidEnvVar(key))) => key,
        }
    };
    let ready = prepare_run(&goal(Vec::new()), &run_host(), &None, &None, &Some(entity()), &BLOCKED);
    let prepared = ready.outcome.unwrap_or_else(|_| panic!("a built node runs"));
    assert!(!prepared.is_container);
    assert!(prepared.env_vars.contains(&("PEPPY_NODE_NAME".to_string(), "arm".to_string())));
    assert_eq!(
        refusal(goal(vec![("ld_preload".to_string(), "x".to_string())]), None, Some(entity())),
        "LD_PRELOAD"
    );
    assert!(refusal(goal(Vec::new()), None, None).contains("arm"));
    let unbuilt = EntityFacts { built: false, ..entity() };
    assert!(refusal(goal(Vec::new()), None, Some(unbuilt)).contains("arm"));
    let missing = EntityFacts { missing: vec!["speed".to_string()], ..entity() };
    assert!(refusal(goal(Vec::new()), None, Some(missing)).contains("speed"));
    let holder = Some(("leg".to_string(), "v2".to_string()));
    assert!(refusal(goal(Vec::new()), holder, Some(entity())).contains("leg"));
    let unpaired = EntityFacts { pairing_refusal: Some("no peer".to_string()), ..entity() };
    assert!(refusal(goal(Vec::new()), None, Some(unpaired)).contains("no peer"));
    let start = prepare_start(
        &goal(Vec::new()),
        &run_host(),
        &None,
        &Some(entity()),
        &Vec::new(),
        &BLOCKED,
    );
    assert!(start.outcome.is_ok());
}

#[test]
fn an_identity_is_compared_in_full() {
    let identity = |node: &str, core: &str| RunIdentity {
        node_name: node.to_string(),
        tag: "v1".to_string(),
        core_node: core.to_string(),
    };
    assert_eq!(check_identity(&identity("arm", "core_a"), &identity("arm", "core_a")), Ok(()));
    assert_eq!(
        check_identity(&identity("arm", "core_a"), &identity("arm", "core_b")),
        Err(
            "runtime_config identity mismatch: goal requested `arm:v1` on core node `core_a`, \
             but runtime_config is `arm:v1` bound to `core_b`"
                .to_string()
        )
    );
}

#[test]
fn an_environment_is_checked_before_it_is_used() {
    let forbidden = vec!["LD_PRELOAD".to_string()];
    let vars = |key: &str, value: &str| vec![(key.to_string(), value.to_string())];
    assert!(validate_goal_env_vars(&vars("A", "1"), &forbidden).is_ok());
    assert!(matches!(
        validate_goal_env_vars(&vars("", "1"), &forbidden),
        Err(EnvError::InvalidEnvVar(_))
    ));
    assert!(matches!(
        validate_goal_env_vars(&vars("A=B", "1"), &forbidden),
        Err(EnvError::InvalidEnvVar(_))
    ));
    assert!(matches!(
        validate_goal_env_vars(&vars("A", "1\0"), &forbidden),
        Err(EnvError::InvalidEnvVar(_))
    ));
    assert_eq!(
        validate_goal_env_vars(&vars("Ld_Preload", "x"), &forbidden),
        Err(EnvError::ForbiddenEnvVar("LD_PRELOAD".to_string()))
    );
}

#[test]
fn an_environment_keeps_what_is_set() {
    let mut env = vec![("A".to_string(), "1".to_string())];
    push_env_if_missing(&mut env, "A", "2".to_string());
    push_env_if_missing(&mut env, "B", "2".to_string());
    assert_eq!(
        env,
        vec![("A".to_string(), "1".to_string()), ("B".to_string(), "2".to_string())]
    );
    let mut env = Vec::new();
    assert!(inject_rust_build_env(&mut env, PeppygenLanguage::Rust, true));
    assert!(!inject_rust_build_env(&mut Vec::new(), PeppygenLanguage::Python, true));
    assert!(!inject_rust_build_env(&mut Vec::new(), PeppygenLanguage::Rust, false));
    let mut env = Vec::new();
    inject_node_runtime_env(&mut env, "/usr/bin/apptainer".to_string(), "arm", "v1");
    assert_eq!(env.len(), 3);
    assert_eq!(
        resolve_apptainer_bin(Some("/opt/a".to_string()), Some("/b".to_string())),
        "/opt/a"
    );
    assert_eq!(resolve_apptainer_bin(None, Some("/b".to_string())), "/b");
    assert_eq!(resolve_apptainer_bin(None, None), "apptainer");
}

#[test]
fn a_panic_is_reported_as_a_failure() {
    let boom = || TaskEnd::Panicked(PanicPayload::Text("boom".to_string()));
    let report = run_node_run(boom());
    assert!(report.unlogged);
    assert_eq!(report.result, Err("node_run task panicked: boom".to_string()));
    let report = run_node_start(boom());
    assert!(report.unlogged);
    assert_eq!(report.result, Err("node_start task panicked: boom".to_string()));
    let report = run_node_start(TaskEnd::Panicked(PanicPayload::Other));
    assert_eq!(
        report.result,
        Err("node_start task panicked: unknown panic payload".to_string())
    );
    let report = run_node_run(TaskEnd::Finished(Ok(7)));
    assert!(!report.unlogged);
    assert_eq!(report.result, Ok(7));
    let report = run_node_start(TaskEnd::Finished(Err("gone".to_string())));
    assert!(!report.unlogged);
    assert_eq!(report.result, Err("gone".to_string()));
    assert_eq!(serialize_refusal("loop"), "Failed to serialize runtime config: loop");
}

#[test]
fn a_started_container_is_told_its_gateway() {
    let encode = |host: &str| match host {
        "10.0.2.2" => Ok(format!("{{messaging_host: {host:?}}}")),
        _ => Err("loop".to_string()),
    };
    let given = || "{}".to_string();
    let through = |host: &str| Ok(Some(host.to_string()));
    assert_eq!(
        start_config(true, through("10.0.2.2"), given(), &encode),
        Ok("{messaging_host: \"10.0.2.2\"}".to_string())
    );
    assert_eq!(
        start_config(true, through("lost"), given(), &encode),
        Err("Failed to serialize runtime config: loop".to_string())
    );
    assert_eq!(start_config(true, Ok(None), given(), &encode), Ok(given()));
    assert_eq!(start_config(false, through("10.0.2.2"), given(), &encode), Ok(given()));
    let missing = Err(RuntimeFailure::Initialize("absent".to_string()));
    assert_eq!(
        start_config(true, missing, given(), &encode),
        Err("Failed to initialize Apptainer: absent".to_string())
    );
    let panicked = Err(RuntimeFailure::Task("panic".to_string()));
    assert_eq!(
        start_config(true, panicked, given(), &encode),
        Err("Apptainer initialization task failed: panic".to_string())
    );
}
