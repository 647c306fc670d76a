use core_node::remove::{NodeRemove, RemoveAction, RemoveEvent, TrackedInstance};
use core_node::run::watch::InstanceState;
use core_node::stop::machine::{
    ForceStop, NodeStop, NodeStopAction, NodeStopEvent, StopAction, StopEvent,
};
use core_node::stop::{
    all_gone, check_stop, collect_doomed_instances, doomed_pids, failed_containers,
    force_kill_deadline, force_plan, instance_is_in_starting, kill_process_group, pid_running,
    signal_report, stop_instances, stop_lookup_failure, terminate_process_group, DoomedInstance,
    GroupSignal, SignalResult, StackEntry, StopLookup, StopOutcome,
};
use core_node::sync::{
    dependency_report, label, resolve_dep, stack_provenance, DependencyError, DirectDep,
    GenerateOutcome, NodeSync, Provenance, SyncAction, SyncEvent,
};
use core_node::time::Span;

fn doomed(id: &str, pid: Option<u32>, is_container: bool) -> DoomedInstance {
    DoomedInstance {
        node_name: "arm".to_string(),
        node_tag: "v1".to_string(),
        instance_id: id.to_string(),
        pid,
        is_container,
    }
}

#[test]
fn the_deadline_is_the_whole_cost_of_an_exit() {
    assert_eq!(force_kill_deadline(Span::from_secs(10), 5, 3), Span::from_secs(18));
    assert_eq!(force_kill_deadline(Span::from_millis(1), 0, 0), Span::from_millis(1));
}

fn three() -> ForceStop {
    ForceStop::new(
        vec![
            doomed("a", Some(11), false),
            doomed("b", Some(12), true),
            doomed("c", None, true),
        ],
        Span::from_secs(10),
        5,
        3,
    )
}

#[test]
fn what_ignores_the_request_is_killed() {
    let mut stop = three();
    match stop.step(StopEvent::Asked(vec![true, true, true])) {
        Some(StopAction::SignalGuests(keys)) => {
            assert_eq!(keys, vec!["b"], "only a container with a process is signalled")
        }
        _ => panic!("a container that could not be asked is signalled"),
    }
    match stop.step(StopEvent::GuestsSignalled(false)) {
        Some(StopAction::SignalGroups(pids)) => assert_eq!(pids, vec![12]),
        _ => panic!("without a virtual machine its group is"),
    }
    assert!(matches!(
        stop.step(StopEvent::GroupsSignalled),
        Some(StopAction::AwaitExit)
    ));
    assert!(matches!(stop.step(StopEvent::DeadlinePassed), Some(StopAction::Look)));
    match stop.step(StopEvent::Looked(vec![true, false, false])) {
        Some(StopAction::Kill { plan, warnings }) => {
            assert_eq!(plan.kill, vec![11, 12], "every known group is killed");
            assert_eq!(plan.guest_keys, vec!["b"]);
            assert_eq!(
                warnings,
                vec![
                    "Node instance 'a' did not exit within its 18s cooperative shutdown window \
                     (10s grace + runtime teardown); force-killing its process group (pid 11)"
                ]
            );
        }
        _ => panic!("the kill follows the look"),
    }
    assert!(matches!(stop.step(StopEvent::Killed), Some(StopAction::AwaitReap)));
    assert!(matches!(stop.step(StopEvent::Reaped), Some(StopAction::Finish)));
    assert_eq!(
        stop.outcomes,
        vec![StopOutcome::ForceKilled, StopOutcome::Graceful, StopOutcome::NoProcess]
    );
}

#[test]
fn what_exits_in_time_is_not_called_killed() {
    let mut stop = three();
    assert!(matches!(
        stop.step(StopEvent::Asked(vec![false, false, true])),
        Some(StopAction::AwaitExit)
    ));
    assert!(stop.step(StopEvent::Killed).is_none(), "an event out of turn changes nothing");
    assert!(matches!(stop.step(StopEvent::AllGone), Some(StopAction::Look)));
    match stop.step(StopEvent::Looked(vec![false, false, false])) {
        Some(StopAction::Kill { plan, warnings }) => {
            assert!(warnings.is_empty());
            assert_eq!(plan.kill, vec![11, 12], "a group can outlive its leader");
        }
        _ => panic!("the kill follows the look"),
    }
}

#[test]
fn a_stop_request_ends_with_its_answer() {
    let mut stop = NodeStop::new();
    assert_eq!(stop.step(NodeStopEvent::Claimed), Some(NodeStopAction::Stop));
    assert_eq!(stop.step(NodeStopEvent::Removed), None);
    assert_eq!(
        stop.step(NodeStopEvent::Stopped(StopOutcome::ForceKilled)),
        Some(NodeStopAction::Remove)
    );
    assert_eq!(stop.step(NodeStopEvent::Removed), Some(NodeStopAction::TearDown));
    assert_eq!(
        stop.step(NodeStopEvent::TornDown),
        Some(NodeStopAction::Answer { force_killed: true })
    );
}

#[test]
fn a_stop_request_is_refused_where_it_must_be() {
    let lookup = |name_problem: Option<&str>, found: Option<DoomedInstance>, starting: bool| {
        StopLookup {
            name_problem: name_problem.map(|why| why.to_string()),
            found,
            starting,
            root_name: "core".to_string(),
            root_tag: "v1".to_string(),
        }
    };
    assert!(check_stop("a", lookup(None, Some(doomed("a", None, false)), false)).is_ok());
    let refuse = |looked: StopLookup| check_stop("a", looked).err().expect("refused");
    assert_eq!(refuse(lookup(Some("bad"), None, false)), "Invalid instance_id: bad");
    assert_eq!(
        refuse(lookup(None, None, true)),
        "Node instance 'a' is in Starting state; retry after the start completes"
    );
    assert_eq!(
        refuse(lookup(None, None, false)),
        "Node instance 'a' not found in node stack"
    );
    let core = DoomedInstance { node_name: "core".to_string(), ..doomed("a", None, false) };
    assert_eq!(refuse(lookup(None, Some(core), false)), "Cannot stop the core node");
    assert_eq!(
        stop_lookup_failure("a", false),
        "Node instance 'a' not found in node stack"
    );
}

#[test]
fn a_teardown_spares_the_core() {
    let entry = |name: &str, is_root: bool, instances: &[(&str, Option<u32>)]| StackEntry {
        is_root,
        node_name: name.to_string(),
        node_tag: "v1".to_string(),
        is_container: false,
        instances: instances.iter().map(|(id, pid)| (id.to_string(), *pid)).collect(),
    };
    let entries = vec![
        entry("core", true, &[("core_1", Some(1))]),
        entry("arm", false, &[("arm_1", Some(2)), ("arm_2", None)]),
    ];
    let list = collect_doomed_instances(&entries);
    assert_eq!(list.len(), 2);
    assert_eq!(list[0].instance_id, "arm_1");
    assert_eq!(doomed_pids(&list), vec![2]);
    let stops = stop_instances(
        Some(&entries[1]),
        &vec!["arm_1".to_string(), "gone".to_string()],
    );
    assert_eq!(stops[0].pid, Some(2));
    assert_eq!(stops[1].pid, None);
    assert!(stop_instances(None, &vec!["arm_1".to_string()]).is_empty());
    let instances = vec![("arm_1".to_string(), false), ("arm_2".to_string(), true)];
    assert!(instance_is_in_starting(&instances, "arm_2"));
    assert!(!instance_is_in_starting(&instances, "arm_1"));
}

#[test]
fn signals_go_to_whole_groups() {
    assert_eq!(kill_process_group(7).group, 7);
    assert_eq!(kill_process_group(7).signal, GroupSignal::Kill);
    assert_eq!(terminate_process_group(7).signal, GroupSignal::Terminate);
    assert_eq!(signal_report(GroupSignal::Kill, 7, &SignalResult::NoSuchGroup), None);
    assert_eq!(
        signal_report(GroupSignal::Terminate, 7, &SignalResult::Failed("EPERM".to_string())),
        Some("Failed to SIGTERM node process group (pid 7): EPERM".to_string())
    );
    assert!(pid_running(true, false) && !pid_running(true, true) && !pid_running(false, false));
    assert!(all_gone(&vec![false, false]) && !all_gone(&vec![false, true]));
    let list = vec![doomed("a", Some(1), false), doomed("b", Some(2), true)];
    assert_eq!(failed_containers(&list, &vec![true, true]), vec![1]);
    assert_eq!(force_plan(&list, &vec![true, false]).kill, vec![1, 2]);
}

fn listed(id: &str, state: InstanceState) -> TrackedInstance {
    TrackedInstance { instance_id: id.to_string(), state }
}

fn looked(instances: Option<Vec<TrackedInstance>>) -> RemoveEvent {
    RemoveEvent::Looked { root_name: "core".to_string(), root_tag: "v1".to_string(), instances }
}

#[test]
fn a_node_is_removed_once_its_instances_are_stopped() {
    let mut run = NodeRemove::new("arm".to_string(), "v1".to_string(), true);
    match run.step(looked(Some(vec![
        listed("arm_1", InstanceState::Running),
        listed("arm_2", InstanceState::Failed),
    ]))) {
        Some(RemoveAction::Probe(ids)) => assert_eq!(ids, vec!["arm_1"]),
        _ => panic!("live instances are probed"),
    }
    match run.step(RemoveEvent::Probed(vec![Ok(true)])) {
        Some(RemoveAction::Shutdown(ids)) => assert_eq!(ids, vec!["arm_1"]),
        _ => panic!("reachable instances are asked to stop"),
    }
    assert!(matches!(
        run.step(RemoveEvent::ShutDown(vec![Ok(())])),
        Some(RemoveAction::Remove(_))
    ));
    assert!(matches!(run.step(RemoveEvent::Removed(None)), Some(RemoveAction::Succeed)));
}

#[test]
fn a_removal_is_refused_where_it_must_be() {
    let fail = |action: Option<RemoveAction>| match action {
        Some(RemoveAction::Fail(text)) => text,
        _ => panic!("expected a refusal"),
    };
    let mut run = NodeRemove::new("core".to_string(), "v1".to_string(), true);
    assert!(fail(run.step(looked(Some(Vec::new())))).contains("core"));
    let mut run = NodeRemove::new("arm".to_string(), "v1".to_string(), true);
    assert!(fail(run.step(looked(None))).contains("arm"));
    let mut run = NodeRemove::new("arm".to_string(), "v1".to_string(), false);
    run.step(looked(Some(vec![listed("arm_1", InstanceState::Running)])));
    let text = fail(run.step(RemoveEvent::Probed(vec![Ok(true)])));
    assert!(text.contains("arm_1"), "{text}");
}

#[test]
fn a_sync_generates_what_is_clean() {
    let mut run = NodeSync::new("/n/arm".to_string(), "/n/arm/peppy.json5".to_string(), false);
    assert!(matches!(
        run.step(SyncEvent::Root { exists: true, is_dir: true }),
        Some(SyncAction::ReadConfig)
    ));
    assert!(matches!(
        run.step(SyncEvent::Config { exists: true, parse_error: None }),
        Some(SyncAction::Validate)
    ));
    assert!(matches!(
        run.step(SyncEvent::Validated {
            errors: Vec::new(),
            node_name: "arm".to_string(),
            node_tag: "v1".to_string(),
        }),
        Some(SyncAction::Collect)
    ));
    let deps = vec![DirectDep { name: "bus".to_string(), tag: "v1".to_string(), held: true }];
    assert!(matches!(
        run.step(SyncEvent::Collected { error: None, deps }),
        Some(SyncAction::Generate)
    ));
    match run.step(SyncEvent::Generated(GenerateOutcome::Done)) {
        Some(SyncAction::Succeed { from_stack, from_repositories }) => {
            assert_eq!(from_stack, vec!["bus:v1"]);
            assert!(from_repositories.is_empty());
        }
        _ => panic!("the bindings are generated"),
    }
}

#[test]
fn a_sync_tells_where_the_dependencies_came_from() {
    let mut run = NodeSync::new("/n/arm".to_string(), "/n/arm/peppy.json5".to_string(), true);
    run.step(SyncEvent::Root { exists: true, is_dir: true });
    run.step(SyncEvent::Config { exists: true, parse_error: None });
    let found = Provenance {
        from_stack: vec!["bus:v1".to_string()],
        from_repositories: vec!["eye:v2".to_string()],
    };
    assert!(matches!(run.step(SyncEvent::Repos(Ok(found))), Some(SyncAction::ReadConfig)));
    run.step(SyncEvent::Config { exists: true, parse_error: None });
    run.step(SyncEvent::Validated {
        errors: Vec::new(),
        node_name: "arm".to_string(),
        node_tag: "v1".to_string(),
    });
    let deps = vec![DirectDep { name: "eye".to_string(), tag: "v2".to_string(), held: true }];
    run.step(SyncEvent::Collected { error: None, deps });
    match run.step(SyncEvent::Generated(GenerateOutcome::Done)) {
        Some(SyncAction::Succeed { from_stack, from_repositories }) => {
            assert_eq!(from_stack, vec!["bus:v1"]);
            assert_eq!(from_repositories, vec!["eye:v2"]);
        }
        _ => panic!("the bindings are generated"),
    }
}

#[test]
fn a_sync_is_refused_where_it_must_be() {
    let fail = |action: Option<SyncAction>| match action {
        Some(SyncAction::Fail(text)) => text,
        _ => panic!("expected a refusal"),
    };
    let begun = || NodeSync::new("/n/arm".to_string(), "/n/arm/peppy.json5".to_string(), true);
    let text = fail(begun().step(SyncEvent::Root { exists: false, is_dir: false }));
    assert!(text.contains("/n/arm"), "{text}");
    let mut run = begun();
    run.step(SyncEvent::Root { exists: true, is_dir: true });
    let text = fail(run.step(SyncEvent::Config { exists: false, parse_error: None }));
    assert!(text.contains("peppy.json5"), "{text}");
    let mut run = begun();
    run.step(SyncEvent::Root { exists: true, is_dir: true });
    assert!(matches!(
        run.step(SyncEvent::Config { exists: true, parse_error: None }),
        Some(SyncAction::Materialize)
    ));
    let text = fail(run.step(SyncEvent::Repos(Err("bus:v1 is nowhere".to_string()))));
    assert!(text.contains("bus:v1"), "{text}");
}

#[test]
fn missing_dependencies_are_reported() {
    let report = dependency_report(
        &vec![
            DependencyError::MissingDependency {
                dependency: "bus".to_string(),
                dependency_tag: "v1".to_string(),
            },
            DependencyError::Other,
        ],
        "arm",
        "v1",
    )
    .expect("something is missing");
    assert!(report.contains("bus"), "{report}");
    assert!(dependency_report(&vec![DependencyError::Other], "arm", "v1").is_none());
    let interface = DependencyError::MissingInterface {
        interface_kind: "TOPIC".to_string(),
        interface_name: "frames".to_string(),
        dependency: "bus".to_string(),
        dependency_tag: "v1".to_string(),
    };
    let report = dependency_report(&vec![interface], "arm", "v1").expect("it is missing");
    assert!(report.contains("topic") && !report.contains("TOPIC"), "{report}");
    assert_eq!(label("arm", "v1"), "arm:v1");
    let dep = |name: &str, held: bool| DirectDep {
        name: name.to_string(),
        tag: "v1".to_string(),
        held,
    };
    assert_eq!(stack_provenance(&vec![dep("b", true), dep("a", false)]), vec!["b:v1"]);
    assert_eq!(resolve_dep(Some(1), Some(2)), Some(1), "the stack comes first");
    assert_eq!(resolve_dep(None, Some(2)), Some(2));
}
