use core_node::relationship_notify::{
    announce, stale_warning, RelationshipEvent, WatcherRegistry,
};

fn peers(core_nodes: &[&str]) -> Vec<String> {
    core_nodes.iter().map(|s| (*s).to_owned()).collect()
}

#[test]
fn an_instance_nobody_watches_or_pairs_with_has_no_recipients() {
    let registry = WatcherRegistry::default();
    assert!(registry.recipients("wrist_cam_inst", &Vec::new(), "cn-robot").is_empty());
}

#[test]
fn the_planner_named_watchers_become_recipients() {
    let mut registry = WatcherRegistry::default();
    registry.set("reflex_inst", &peers(&["cn-atlas"]), "cn-robot");
    assert_eq!(
        registry.recipients("reflex_inst", &Vec::new(), "cn-robot"),
        peers(&["cn-atlas"])
    );
}

#[test]
fn pair_peers_and_watchers_are_both_notified() {
    let mut registry = WatcherRegistry::default();
    registry.set("reflex_inst", &peers(&["cn-atlas"]), "cn-robot");
    assert_eq!(
        registry.recipients("reflex_inst", &peers(&["cn-edge"]), "cn-robot"),
        peers(&["cn-atlas", "cn-edge"])
    );
}

#[test]
fn this_daemon_never_notifies_itself() {
    let mut registry = WatcherRegistry::default();
    registry.set("reflex_inst", &peers(&["cn-robot"]), "cn-robot");
    assert!(registry.recipients("reflex_inst", &peers(&["cn-robot"]), "cn-robot").is_empty());
}

#[test]
fn re_running_an_instance_replaces_its_watchers_rather_than_adding_to_them() {
    let mut registry = WatcherRegistry::default();
    registry.set("reflex_inst", &peers(&["cn-atlas"]), "cn-robot");
    registry.set("reflex_inst", &peers(&["cn-edge"]), "cn-robot");
    assert_eq!(
        registry.recipients("reflex_inst", &Vec::new(), "cn-robot"),
        peers(&["cn-edge"])
    );

    registry.set("reflex_inst", &Vec::new(), "cn-robot");
    assert!(registry.recipients("reflex_inst", &Vec::new(), "cn-robot").is_empty());
}

#[test]
fn forgetting_an_instance_drops_its_watchers() {
    let mut registry = WatcherRegistry::default();
    registry.set("reflex_inst", &peers(&["cn-atlas"]), "cn-robot");
    registry.forget("reflex_inst");
    assert!(registry.recipients("reflex_inst", &Vec::new(), "cn-robot").is_empty());
}

#[test]
fn pair_peers_do_not_depend_on_the_watcher_registry() {
    let registry = WatcherRegistry::default();
    assert_eq!(
        registry.recipients("reflex_inst", &peers(&["cn-atlas"]), "cn-robot"),
        peers(&["cn-atlas"])
    );
}

#[test]
fn recipients_come_in_order_and_once_each() {
    let mut registry = WatcherRegistry::default();
    registry.set("reflex_inst", &peers(&["cn-c", "cn-a"]), "cn-robot");
    assert_eq!(
        registry.recipients("reflex_inst", &peers(&["cn-b", "cn-a"]), "cn-robot"),
        peers(&["cn-a", "cn-b", "cn-c"])
    );
}

#[test]
fn a_stopped_instance_is_told_once_and_forgotten() {
    let mut registry = WatcherRegistry::default();
    registry.set("reflex_inst", &peers(&["cn-atlas"]), "cn-robot");
    let up = announce(
        &registry,
        "reflex_inst",
        RelationshipEvent::ReachedRunning,
        &Vec::new(),
        "cn-robot",
    );
    assert_eq!(up.told, peers(&["cn-atlas"]));
    up.over(&mut registry);
    let down = announce(
        &registry,
        "reflex_inst",
        RelationshipEvent::Stopped,
        &Vec::new(),
        "cn-robot",
    );
    assert_eq!(down.told, peers(&["cn-atlas"]));
    assert_eq!(
        registry.recipients("reflex_inst", &Vec::new(), "cn-robot"),
        peers(&["cn-atlas"])
    );
    down.over(&mut registry);
    assert!(registry.recipients("reflex_inst", &Vec::new(), "cn-robot").is_empty());
}

#[test]
fn a_daemon_that_could_not_be_told_is_named() {
    let text = stale_warning("cn-atlas", "reflex_inst", RelationshipEvent::Stopped, "late");
    assert!(text.contains("cn-atlas") && text.contains("reflex_inst") && text.contains("late"));
}
