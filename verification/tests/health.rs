use core_node::health_monitor::{
    take_probe, HealthEdge, HealthMonitor, HealthMonitorPolicy, HealthTracker, MonitorAction,
    MonitorEvent, MonitorNote, MonitoredInstance,
};
use core_node::time::Span;

#[test]
fn a_fresh_tracker_is_healthy_with_no_misses() {
    let tracker = HealthTracker::new(3);
    assert!(tracker.healthy());
    assert_eq!(tracker.consecutive_misses(), 0);
}

#[test]
fn passes_of_a_healthy_instance_cause_no_edge() {
    let mut tracker = HealthTracker::new(3);
    assert_eq!(tracker.record(true), None);
    assert_eq!(tracker.record(true), None);
    assert!(tracker.healthy());
}

#[test]
fn misses_below_the_threshold_leave_the_instance_healthy() {
    let mut tracker = HealthTracker::new(3);
    assert_eq!(tracker.record(false), None);
    assert_eq!(tracker.record(false), None);
    assert!(tracker.healthy());
    assert_eq!(tracker.consecutive_misses(), 2);
}

#[test]
fn the_miss_reaching_the_threshold_turns_the_instance_unhealthy() {
    let mut tracker = HealthTracker::new(3);
    tracker.record(false);
    tracker.record(false);
    assert_eq!(tracker.record(false), Some(HealthEdge::Down));
    assert!(!tracker.healthy());
    assert_eq!(tracker.consecutive_misses(), 3);
}

#[test]
fn a_pass_resets_the_miss_count_before_the_threshold() {
    let mut tracker = HealthTracker::new(3);
    tracker.record(false);
    tracker.record(false);
    assert_eq!(tracker.record(true), None);
    assert_eq!(tracker.consecutive_misses(), 0);
    // The run restarts from zero, so two more misses are still short of
    // the threshold.
    assert_eq!(tracker.record(false), None);
    assert_eq!(tracker.record(false), None);
    assert!(tracker.healthy());
}

#[test]
fn further_misses_of_an_unhealthy_instance_cause_no_edge() {
    let mut tracker = HealthTracker::new(2);
    tracker.record(false);
    assert_eq!(tracker.record(false), Some(HealthEdge::Down));
    assert_eq!(tracker.record(false), None);
    assert_eq!(tracker.record(false), None);
    assert!(!tracker.healthy());
    assert_eq!(tracker.consecutive_misses(), 4);
}

#[test]
fn one_pass_recovers_an_unhealthy_instance() {
    let mut tracker = HealthTracker::new(2);
    tracker.record(false);
    tracker.record(false);
    tracker.record(false);
    assert_eq!(tracker.record(true), Some(HealthEdge::Up));
    assert!(tracker.healthy());
    assert_eq!(tracker.consecutive_misses(), 0);
}

#[test]
fn a_threshold_of_one_flips_on_the_first_miss() {
    let mut tracker = HealthTracker::new(1);
    assert_eq!(tracker.record(false), Some(HealthEdge::Down));
    assert_eq!(tracker.record(true), Some(HealthEdge::Up));
    assert_eq!(tracker.record(false), Some(HealthEdge::Down));
}

#[test]
fn the_miss_count_saturates_instead_of_overflowing() {
    let mut tracker = HealthTracker::new(1);
    tracker.record(false);
    tracker.consecutive_misses = u32::MAX;
    assert_eq!(tracker.record(false), None);
    assert_eq!(tracker.consecutive_misses(), u32::MAX);
}

fn who() -> MonitoredInstance {
    MonitoredInstance {
        instance_id: "arm_1".to_string(),
        node_name: "arm".to_string(),
        node_tag: "v1".to_string(),
    }
}

fn policy(failure_threshold: u32) -> HealthMonitorPolicy {
    HealthMonitorPolicy {
        interval: Span::from_secs(5),
        timeout: Span::from_secs(1),
        failure_threshold,
    }
}

#[test]
fn a_monitor_waits_finds_and_probes_in_turn() {
    let mut monitor = HealthMonitor::new(who(), policy(1));
    assert!(matches!(
        monitor.step(MonitorEvent::Waited { stopping: false }),
        Some(MonitorAction::Find)
    ));
    assert!(matches!(monitor.step(MonitorEvent::Found(true)), Some(MonitorAction::Probe)));
    let event = MonitorEvent::Probed { error: Some("no answer".to_string()), stopping: false };
    match monitor.step(event) {
        Some(MonitorAction::Record(report)) => {
            assert!(!report.healthy);
            match report.note {
                MonitorNote::Both { log, stack } => {
                    assert!(log.contains("arm_1") && log.contains("no answer"), "{log}");
                    assert!(stack.contains("arm_1"), "{stack}");
                }
                _ => panic!("the change to unhealthy is told"),
            }
        }
        _ => panic!("a probe is recorded"),
    }
    monitor.step(MonitorEvent::Waited { stopping: false });
    assert!(matches!(monitor.step(MonitorEvent::Found(false)), Some(MonitorAction::Stop)));
}

#[test]
fn a_probe_of_an_ending_instance_is_not_recorded() {
    let mut monitor = HealthMonitor::new(who(), policy(1));
    monitor.step(MonitorEvent::Waited { stopping: false });
    monitor.step(MonitorEvent::Found(true));
    let event = MonitorEvent::Probed { error: Some("gone".to_string()), stopping: true };
    assert!(matches!(monitor.step(event), Some(MonitorAction::Stop)));
    assert!(monitor.tracker.healthy());
    let mut monitor = HealthMonitor::new(who(), policy(1));
    assert!(matches!(
        monitor.step(MonitorEvent::Waited { stopping: true }),
        Some(MonitorAction::Stop)
    ));
}

#[test]
fn a_pass_of_a_healthy_instance_is_silent() {
    let mut tracker = HealthTracker::new(2);
    let report = take_probe(&mut tracker, &who(), &None);
    assert!(report.healthy);
    assert!(matches!(report.note, MonitorNote::Silent));
    let report = take_probe(&mut tracker, &who(), &Some("late".to_string()));
    assert!(report.healthy, "one miss is short of the threshold");
    assert!(matches!(report.note, MonitorNote::Debug(_)));
}
