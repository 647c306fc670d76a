use core_node::incarnation::{IncarnationLedger, SourceKey};

fn key(instance_id: &str) -> SourceKey {
    SourceKey::new("core_a", instance_id)
}

#[test]
fn allocation_is_monotonic_per_source() {
    let mut ledger = IncarnationLedger::default();
    assert_eq!(ledger.allocate_local("core_a", "arm_1"), 1);
    assert_eq!(ledger.allocate_local("core_a", "arm_1"), 2);
    assert_eq!(ledger.allocate_local("core_a", "arm_2"), 1, "each source counts alone");
    assert_eq!(ledger.current(&key("arm_1")), 2);
}

#[test]
fn same_instance_id_on_two_daemons_counts_separately() {
    let mut ledger = IncarnationLedger::default();
    ledger.allocate_local("core_a", "arm_1");
    ledger.allocate_local("core_a", "arm_1");
    assert_eq!(ledger.current(&SourceKey::new("core_b", "arm_1")), 0);
}

#[test]
fn reported_incarnations_converge_on_the_maximum() {
    let mut ledger = IncarnationLedger::default();
    let source = key("remote_arm");
    ledger.record_reported(&source, 4);
    assert_eq!(ledger.current(&source), 4);
    // A delayed older report never rolls back.
    ledger.record_reported(&source, 2);
    assert_eq!(ledger.current(&source), 4);
    // A duplicate is idempotent, not an increment.
    ledger.record_reported(&source, 4);
    assert_eq!(ledger.current(&source), 4);
    ledger.record_reported(&source, 5);
    assert_eq!(ledger.current(&source), 5);
}

#[test]
fn a_never_seen_source_reads_zero() {
    let ledger = IncarnationLedger::default();
    assert_eq!(ledger.current(&key("ghost")), 0);
}

#[test]
fn an_allocation_goes_on_from_what_was_reported() {
    let mut ledger = IncarnationLedger::default();
    ledger.record_reported(&key("arm_1"), 7);
    assert_eq!(ledger.allocate_local("core_a", "arm_1"), 8);
}
