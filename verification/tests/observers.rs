use core_node::incarnation::SourceKey;
use core_node::observation::coordinator::ObservationCoordinator;
use core_node::observation::{delivery_warning, ObservedSource, ObserverRecord};

fn source(core: &str, id: &str) -> ObservedSource {
    ObservedSource {
        producer: SourceKey::new(core, id),
        source_link_id: "out".to_string(),
    }
}

fn record(observer: &str, link: &str, core: &str, id: &str) -> ObserverRecord {
    ObserverRecord {
        observer_instance_id: observer.to_string(),
        observer_link_id: link.to_string(),
        pin: source(core, id),
    }
}

fn live(ids: &[&str]) -> Vec<String> {
    ids.iter().map(|id| id.to_string()).collect()
}

#[test]
fn a_source_that_comes_up_is_told_to_its_observers() {
    let mut daemon = ObservationCoordinator::new("core_a", Some(100));
    daemon.register_planned(vec![
        record("viewer", "cams", "core_a", "cam_1"),
        record("viewer", "cams", "core_a", "cam_2"),
    ]);
    let told = daemon.on_instance_running("cam_1", &live(&["viewer"]));
    assert_eq!(told.len(), 1, "one delivery for the whole slot");
    assert_eq!(told[0].observer_instance_id, "viewer");
    assert_eq!(told[0].members.len(), 2);
    assert!(told[0].members[0].source_live);
    assert_eq!(told[0].members[0].source_generation, 1);
    assert!(!told[0].members[1].source_live, "the other camera is down");
    let update = daemon.observation_update(told.into_iter().next().unwrap());
    assert_eq!(update.sequence, 101);
    assert_eq!(update.link_id, "cams");
}

#[test]
fn an_observer_that_comes_up_learns_its_whole_set() {
    let mut daemon = ObservationCoordinator::new("core_a", None);
    daemon.register_instance(
        "viewer",
        &vec![("cams".to_string(), vec![source("core_a", "cam_1")])],
    );
    let told = daemon.on_instance_running("viewer", &live(&[]));
    assert_eq!(told.len(), 1);
    assert!(!told[0].members[0].source_live);
    assert_eq!(told[0].members[0].source_generation, 0);
}

#[test]
fn observers_that_are_down_are_not_told() {
    let mut daemon = ObservationCoordinator::new("core_a", None);
    daemon.register_planned(vec![record("viewer", "cams", "core_a", "cam_1")]);
    assert!(daemon.on_instance_running("cam_1", &live(&[])).is_empty());
}

#[test]
fn a_restart_is_a_new_generation_of_its_source() {
    let mut daemon = ObservationCoordinator::new("core_a", None);
    daemon.register_planned(vec![record("viewer", "cams", "core_b", "cam_1")]);
    let up = daemon.remote_source_reached_running("core_b", "cam_1", &live(&["viewer"]));
    assert!(up[0].members[0].source_live);
    let down = daemon.remote_source_stopped("core_b", "cam_1", &live(&["viewer"]));
    assert!(!down[0].members[0].source_live);
    assert_eq!(down[0].members[0].source_generation, 1);
    let again = daemon.remote_source_reached_running("core_b", "cam_1", &live(&["viewer"]));
    assert_eq!(again[0].members[0].source_generation, 2);
}

#[test]
fn a_remote_source_is_as_it_was_last_reported() {
    let mut daemon = ObservationCoordinator::new("core_a", None);
    daemon.register_planned(vec![
        record("viewer", "cams", "core_b", "cam_1"),
        record("viewer", "cams", "core_a", "cam_2"),
    ]);
    daemon.remote_source_reached_running("core_b", "cam_1", &live(&["viewer"]));
    let told = daemon.on_instance_running("cam_2", &live(&["viewer"]));
    assert!(told[0].members[0].source_live, "the remote camera is still up");
    daemon.remote_source_stopped("core_b", "cam_1", &live(&["viewer"]));
    let told = daemon.on_instance_running("cam_2", &live(&["viewer"]));
    assert!(!told[0].members[0].source_live);
}

#[test]
fn an_instance_that_goes_down_observes_nothing() {
    let mut daemon = ObservationCoordinator::new("core_a", None);
    daemon.register_planned(vec![
        record("viewer", "cams", "core_a", "cam_1"),
        record("cam_1", "peers", "core_a", "viewer"),
    ]);
    let told = daemon.on_instance_down("viewer", &live(&["cam_1"]));
    assert_eq!(told.len(), 1);
    assert_eq!(told[0].observer_instance_id, "cam_1");
    assert_eq!(daemon.registry.records.len(), 1);
    daemon.clear();
    assert!(daemon.registry.records.is_empty());
}

#[test]
fn re_running_an_observer_replaces_its_records() {
    let mut daemon = ObservationCoordinator::new("core_a", None);
    for id in ["cam_1", "cam_2"] {
        daemon.register_instance(
            "viewer",
            &vec![("cams".to_string(), vec![source("core_a", id)])],
        );
    }
    assert_eq!(daemon.registry.records.len(), 1);
    assert_eq!(daemon.registry.records[0].pin.producer.instance_id, "cam_2");
    let told = daemon.on_instance_running("viewer", &live(&[]));
    assert_eq!(
        delivery_warning(&told[0], "late"),
        "Best-effort observation delivery to 'viewer' slot `cams` (1 member(s)) failed: late"
    );
}
