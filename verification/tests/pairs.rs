use core_node::binding::{BindingCoordinator, ReplaceAction, ReplaceEvent};
use core_node::common::{
    resolve_target, slot_update_outcome, SlotSequence, SlotUpdateResponse,
};
use core_node::pairing::delivery::{
    unpair_warning, DeliveryAction, PairDelivery, PairingCoordinator,
};
use core_node::pairing::{
    find_missing_planned_pair, finish_plan, pairing_label, plan_requested_pairs, PairEndpoint,
    PairTarget, Pairing, PairingDep, PairingNodeSnapshot, PairingRequest, PairingValidation,
    PlannedPair, SideOutcome, SlotAddr, Validated,
};

fn dep(role: &str, link_id: &str, optional: bool) -> PairingDep {
    PairingDep {
        name: "arm_link".to_string(),
        tag: "v1".to_string(),
        role: role.to_string(),
        link_id: link_id.to_string(),
        participant: true,
        optional,
    }
}

fn requested(entries: &[(&str, PairTarget)]) -> Vec<(String, PairTarget)> {
    entries
        .iter()
        .map(|(link, target)| {
            let target = PairTarget {
                peer_instance_id: target.peer_instance_id.clone(),
                peer_link_id: target.peer_link_id.clone(),
            };
            (link.to_string(), target)
        })
        .collect()
}

fn pair(a: SlotAddr, b: SlotAddr) -> Pairing {
    Pairing {
        pairing_name: "arm_link".to_string(),
        pairing_tag: "v1".to_string(),
        a: PairEndpoint { slot: a, role: "controller".to_string() },
        b: PairEndpoint { slot: b, role: "arm".to_string() },
    }
}

fn refused(text: &str) -> Validated {
    Validated { errors: vec![text.to_string()], report: text.to_string(), planned: Vec::new() }
}

fn accepted(planned: Vec<(SlotAddr, SlotAddr)>) -> Validated {
    Validated { errors: Vec::new(), report: String::new(), planned }
}

/// A launch's rules, as far as these tests need them: each link names an
/// instance that is running with one slot of the other role, which nobody else
/// has; a required slot is linked or deferred, and only a required one is deferred.
fn rules(asked: &PairingValidation) -> Validated {
    let mut planned = Vec::new();
    for dep in asked.pairing_deps {
        let linked = asked.links.iter().find(|(link, _)| *link == dep.link_id);
        let deferred = asked.defer_links.contains(&dep.link_id);
        match linked {
            Some((link, target)) => {
                if deferred {
                    return refused(&format!("slot `{link}` is deferred and also paired"));
                }
                let mut parts = target.split('/');
                let instance = parts.next().unwrap_or_default();
                let pin = parts.next();
                let found: Vec<_> = asked
                    .snapshot
                    .iter()
                    .filter(|node| node.instance_ids.iter().any(|id| id == instance))
                    .flat_map(|node| node.pairing_deps.iter())
                    .filter(|slot| slot.role != dep.role)
                    .filter(|slot| pin.map_or(true, |wanted| wanted == slot.link_id))
                    .collect();
                if found.is_empty() {
                    return refused("no complementary slot");
                }
                if found.len() > 1 {
                    let links: Vec<&str> = found.iter().map(|slot| &*slot.link_id).collect();
                    return refused(&format!(
                        "several slots are complementary: {}; say {instance}/<peer_link_id>",
                        links.join(", ")
                    ));
                }
                let peer = SlotAddr::new(instance, &found[0].link_id);
                if planned.iter().any(|(_, claimed)| *claimed == peer) {
                    return refused("conflicting pairing declarations");
                }
                if let Some(taken) = asked.already_paired.iter().find(|(slot, _)| *slot == peer) {
                    return refused(&format!("already paired with {}", taken.1));
                }
                planned.push((SlotAddr::new(asked.instance_id, link), peer));
            }
            None if dep.optional && deferred => {
                return refused(&format!("slot `{}` is optional and not deferred", dep.link_id))
            }
            None if !dep.optional && !deferred => {
                return refused(&format!(
                    "slot `{}` needs --link or --defer-link",
                    dep.link_id
                ))
            }
            None => {}
        }
    }
    accepted(planned)
}

/// The nodes that are there, from ids with a slot and its role each; the slots of
/// one id are those of one node.
fn running(peers: &[(&str, &str, &str)]) -> Vec<PairingNodeSnapshot> {
    let mut nodes: Vec<PairingNodeSnapshot> = Vec::new();
    for (id, slot, role) in peers {
        let known = nodes.iter_mut().find(|node| node.instance_ids[0] == *id);
        match known {
            Some(node) => node.pairing_deps.push(dep(role, slot, true)),
            None => nodes.push(PairingNodeSnapshot {
                node_name: "peer_node".to_string(),
                node_tag: "v1".to_string(),
                instance_ids: vec![id.to_string()],
                pairing_deps: vec![dep(role, slot, true)],
            }),
        }
    }
    nodes
}

/// Ids with a blank in them are no names.
fn blank(id: &str) -> Option<String> {
    id.contains(' ').then_some("it has a blank".to_string())
}

const ARM: &[(&str, &str, &str)] = &[("arm_1", "controller", "arm")];

fn plan_all(
    live: &Vec<Pairing>,
    peers: &[(&str, &str, &str)],
    instance_id: &str,
    deps: &Vec<PairingDep>,
    req: &Vec<(String, PairTarget)>,
    deferred: &Vec<String>,
    covered: &Vec<(String, PairTarget)>,
) -> Result<Vec<PlannedPair>, String> {
    plan_requested_pairs(
        &running(peers),
        live,
        &PairingRequest {
            node_name: "new_node",
            node_tag: "v1",
            instance_id,
            pairing_deps: deps,
            requested: req,
            deferred,
            covered,
        },
        &blank,
        rules,
    )
}

fn plan(
    peers: &[(&str, &str, &str)],
    instance_id: &str,
    deps: &Vec<PairingDep>,
    req: &Vec<(String, PairTarget)>,
    deferred: &Vec<String>,
) -> Result<Vec<PlannedPair>, String> {
    plan_all(&Vec::new(), peers, instance_id, deps, req, deferred, &Vec::new())
}

#[test]
fn resolves_a_single_complementary_slot() {
    let deps = vec![dep("controller", "arm", false)];
    let planned = plan(
        ARM,
        "ctrl_1",
        &deps,
        &requested(&[("arm", PairTarget::new("arm_1"))]),
        &Vec::new(),
    )
    .expect("unambiguous target resolves");
    assert_eq!(
        planned,
        vec![PlannedPair {
            own: SlotAddr::new("ctrl_1", "arm"),
            peer: SlotAddr::new("arm_1", "controller"),
        }]
    );
}

#[test]
fn explicit_peer_link_pin_resolves_and_wrong_pin_fails() {
    let deps = vec![dep("controller", "arm", false)];
    let planned = plan(
        ARM,
        "ctrl_1",
        &deps,
        &requested(&[("arm", PairTarget::pinned("arm_1", "controller"))]),
        &Vec::new(),
    )
    .expect("pinned target resolves");
    assert_eq!(planned[0].peer, SlotAddr::new("arm_1", "controller"));

    let err = plan(
        ARM,
        "ctrl_1",
        &deps,
        &requested(&[("arm", PairTarget::pinned("arm_1", "nope"))]),
        &Vec::new(),
    )
    .expect_err("wrong peer_link rejected");
    assert!(err.contains("complementary"), "{err}");
}

#[test]
fn uncovered_required_slot_names_the_exact_flags() {
    let deps = vec![dep("controller", "arm", false)];
    let err = plan(ARM, "ctrl_1", &deps, &Vec::new(), &Vec::new())
        .expect_err("required slot must be covered");
    assert!(
        err.contains("arm") && err.contains("--link") && err.contains("--defer-link"),
        "error should name the slot and both flags: {err}"
    );

    // Deferring it satisfies coverage; optional slots never need covering.
    let deps_opt = vec![dep("controller", "arm", true)];
    assert!(plan(ARM, "ctrl_1", &deps_opt, &Vec::new(), &Vec::new())
        .expect("optional slot boots unpaired freely")
        .is_empty());
    assert!(plan(ARM, "ctrl_1", &deps, &Vec::new(), &vec!["arm".to_string()])
        .expect("deferred required slot passes coverage")
        .is_empty());
}

#[test]
fn user_defer_of_optional_slot_is_rejected() {
    let deps_opt = vec![dep("controller", "arm", true)];
    let err = plan(ARM, "ctrl_1", &deps_opt, &Vec::new(), &vec!["arm".to_string()])
        .expect_err("optional-slot defer is a user error on every surface");
    assert!(err.contains("optional"), "{err}");
}

#[test]
fn ambiguous_target_lists_candidates_with_disambiguator() {
    // The peer instance exposes TWO complementary slots of the same
    // pairing (the two-arm-commander shape, seen from the other side).
    let deps = vec![dep("arm", "controller", false)];
    let err = plan(
        &[("cmd_1", "left_arm", "controller"), ("cmd_1", "right_arm", "controller")],
        "arm_1",
        &deps,
        &requested(&[("controller", PairTarget::new("cmd_1"))]),
        &Vec::new(),
    )
    .expect_err("two candidates is ambiguous");
    assert!(
        err.contains("left_arm")
            && err.contains("right_arm")
            && err.contains("cmd_1/<peer_link_id>"),
        "candidates and the disambiguator syntax should be listed: {err}"
    );
}

#[test]
fn two_slots_cannot_claim_the_same_peer_slot() {
    // One available peer slot, two own slots both targeting it: the
    // second resolution must fail instead of double-claiming.
    let deps = vec![dep("controller", "left", false), dep("controller", "right", false)];
    let err = plan(
        ARM,
        "cmd_1",
        &deps,
        &requested(&[
            ("left", PairTarget::new("arm_1")),
            ("right", PairTarget::new("arm_1")),
        ]),
        &Vec::new(),
    )
    .expect_err("double-claim rejected");
    assert!(
        err.contains("conflicting pairing declarations") || err.contains("already paired"),
        "{err}"
    );
}

#[test]
fn covered_slots_satisfy_coverage() {
    let covered = requested(&[("arm", PairTarget::pinned("cmd_9", "left"))]);
    for optional in [false, true] {
        let deps = vec![dep("controller", "arm", optional)];
        assert!(plan_all(
            &Vec::new(),
            ARM,
            "ctrl_1",
            &deps,
            &Vec::new(),
            &Vec::new(),
            &covered
        )
        .expect("a covered slot passes the plan-phase re-check")
        .is_empty());
    }

    let deps = vec![dep("controller", "arm", false)];
    let covered = requested(&[
        ("arm", PairTarget::pinned("cmd_9", "left")),
        ("ghost", PairTarget::pinned("cmd_9", "right")),
    ]);
    let err = plan_all(&Vec::new(), ARM, "ctrl_1", &deps, &Vec::new(), &Vec::new(), &covered)
        .expect_err("a covered key naming an unknown slot is rejected");
    assert!(err.contains("ghost"), "{err}");
}

#[test]
fn an_optional_covered_slot_is_not_deferred() {
    for (optional, deferred) in [(true, 0), (false, 1)] {
        let deps = vec![dep("controller", "arm", optional)];
        let covered = requested(&[("arm", PairTarget::new("cmd_9"))]);
        let plan = plan_requested_pairs(
            &running(ARM),
            &Vec::new(),
            &PairingRequest {
                node_name: "new_node",
                node_tag: "v1",
                instance_id: "ctrl_1",
                pairing_deps: &deps,
                requested: &Vec::new(),
                deferred: &Vec::new(),
                covered: &covered,
            },
            &blank,
            |asked: &PairingValidation| {
                assert_eq!(asked.defer_links.len(), deferred);
                assert_eq!((asked.node_name, asked.node_tag), ("new_node", "v1"));
                assert_eq!(asked.instance_id, "ctrl_1");
                assert_eq!(asked.pairing_deps.len(), 1);
                assert_eq!(asked.snapshot.len(), 1);
                assert_eq!(asked.snapshot[0].instance_ids, vec!["arm_1"]);
                accepted(Vec::new())
            },
        );
        assert!(plan.is_ok());
    }
}

#[test]
fn unknown_slot_and_request_defer_overlap_are_rejected() {
    let deps = vec![dep("controller", "arm", true)];
    let err = plan(
        ARM,
        "ctrl_1",
        &deps,
        &requested(&[("ghost", PairTarget::new("arm_1"))]),
        &Vec::new(),
    )
    .expect_err("unknown link_id rejected");
    assert!(err.contains("ghost") && err.contains("arm"), "{err}");
    assert_eq!(
        err,
        "pairing slot `ghost` on instance 'ctrl_1' matches no declared participant pairing \
         slot; declared: [arm]"
    );

    let err = plan(
        ARM,
        "ctrl_1",
        &deps,
        &requested(&[("arm", PairTarget::new("arm_1"))]),
        &vec!["arm".to_string()],
    )
    .expect_err("request+defer overlap rejected");
    assert!(err.contains("also paired"), "{err}");
}

#[test]
fn same_role_and_self_targets_are_rejected() {
    // Same role on both sides: not complementary, no candidates.
    let deps = vec![dep("controller", "arm", false)];
    let err = plan(
        &[("other_1", "arm", "controller")],
        "ctrl_1",
        &deps,
        &requested(&[("arm", PairTarget::new("other_1"))]),
        &Vec::new(),
    )
    .expect_err("same-role slots must not match");
    assert!(err.contains("complementary"), "{err}");

    let err = plan(
        ARM,
        "ctrl_1",
        &deps,
        &requested(&[("arm", PairTarget::new("ctrl_1"))]),
        &Vec::new(),
    )
    .expect_err("self-pairing rejected");
    assert!(err.contains("own instance"), "{err}");
}

#[test]
fn already_paired_peer_slot_is_rejected_with_peer_named() {
    let live = vec![pair(
        SlotAddr::new("arm_1", "controller"),
        SlotAddr::new("ctrl_0", "arm"),
    )];
    let deps = vec![dep("controller", "arm", false)];
    let err = plan_all(
        &live,
        ARM,
        "ctrl_1",
        &deps,
        &requested(&[("arm", PairTarget::new("arm_1"))]),
        &Vec::new(),
        &Vec::new(),
    )
    .expect_err("a live-paired slot is exclusive");
    assert!(
        err.contains("already paired") && err.contains("ctrl_0"),
        "the existing peer should be named: {err}"
    );
}

#[test]
fn ids_that_are_no_names_are_refused() {
    let deps = vec![dep("controller", "arm", true)];
    let request = PairingRequest {
        node_name: "new_node",
        node_tag: "v1",
        instance_id: "ctrl_1",
        pairing_deps: &deps,
        requested: &Vec::new(),
        deferred: &Vec::new(),
        covered: &Vec::new(),
    };
    let never = |_: &PairingValidation| accepted(Vec::new());
    assert_eq!(
        plan_requested_pairs(
            &running(ARM),
            &Vec::new(),
            &request,
            &|_: &str| Some("bad".to_string()),
            never
        ),
        Err("invalid instance id `ctrl_1`: bad".to_string())
    );
    let peers = [("arm_1", "controller", "arm"), ("x y", "controller", "arm"), ("z z", "c", "arm")];
    assert_eq!(
        plan_requested_pairs(&running(&peers), &Vec::new(), &request, &blank, never),
        Err("invalid instance id `x y` in stack: it has a blank".to_string())
    );
    assert_eq!(finish_plan(refused("- bad")), Err("- bad".to_string()));
}

#[test]
fn missing_planned_pair_is_detected_in_either_endpoint_order() {
    let planned = vec![PlannedPair {
        own: SlotAddr::new("ctrl_1", "arm"),
        peer: SlotAddr::new("arm_1", "controller"),
    }];

    // Present as reserved: no missing pair, whichever side is `a`.
    let same_order =
        vec![pair(SlotAddr::new("ctrl_1", "arm"), SlotAddr::new("arm_1", "controller"))];
    assert!(find_missing_planned_pair(&same_order, &planned).is_none());
    let swapped =
        vec![pair(SlotAddr::new("arm_1", "controller"), SlotAddr::new("ctrl_1", "arm"))];
    assert!(find_missing_planned_pair(&swapped, &planned).is_none());

    // Dissolved (registry empty) or replaced by an unrelated pair: the
    // planned pair is reported missing.
    assert_eq!(
        find_missing_planned_pair(&Vec::new(), &planned),
        Some(&planned[0]),
        "an empty registry must flag the planned pair"
    );
    let unrelated =
        vec![pair(SlotAddr::new("ctrl_1", "arm"), SlotAddr::new("arm_2", "controller"))];
    assert_eq!(
        find_missing_planned_pair(&unrelated, &planned),
        Some(&planned[0]),
        "a pair with a different peer must not satisfy the plan"
    );
}

fn delivery(pairs: Vec<Pairing>, planned: Vec<PlannedPair>) -> Result<PairDelivery, String> {
    PairingCoordinator::new("core_a", Some(10)).deliver_pairs_for_instance(
        pairs,
        "ctrl_1",
        &planned,
    )
}

#[test]
fn a_dissolved_pair_is_not_delivered() {
    let planned = vec![PlannedPair {
        own: SlotAddr::new("ctrl_1", "arm"),
        peer: SlotAddr::new("arm_1", "controller"),
    }];
    assert_eq!(
        delivery(Vec::new(), planned).err(),
        Some(
            "pair `ctrl_1:arm ⇌ arm_1:controller` was dissolved before delivery completed \
             (its peer was stopped or unpaired concurrently)"
                .to_string()
        )
    );
}

#[test]
fn both_endpoints_are_served_and_only_those_of_the_instance() {
    let pairs = vec![
        pair(SlotAddr::new("other", "x"), SlotAddr::new("third", "y")),
        pair(SlotAddr::new("ctrl_1", "arm"), SlotAddr::new("arm_1", "controller")),
    ];
    let mut run = delivery(pairs, Vec::new()).unwrap();
    assert_eq!(run.pairs.len(), 1);
    match run.next("core_a") {
        DeliveryAction::Offer { slot, pin } => {
            assert_eq!(slot, SlotAddr::new("ctrl_1", "arm"));
            assert_eq!(pin.core_node, "core_a");
            assert_eq!(pin.peer_instance_id, "arm_1");
            assert_eq!(pin.peer_link_id, "controller");
        }
        _ => panic!("the first endpoint is offered its pin"),
    }
    match run.step(SideOutcome::Taken, "core_a") {
        DeliveryAction::Offer { slot, pin } => {
            assert_eq!(slot, SlotAddr::new("arm_1", "controller"));
            assert_eq!(pin.peer_instance_id, "ctrl_1");
        }
        _ => panic!("then the second"),
    }
    assert!(matches!(run.step(SideOutcome::NotLive, "core_a"), DeliveryAction::Done));
}

#[test]
fn a_failed_delivery_reverts_the_pair() {
    let pairs = || {
        vec![pair(SlotAddr::new("ctrl_1", "arm"), SlotAddr::new("arm_1", "controller"))]
    };
    let mut run = delivery(pairs(), Vec::new()).unwrap();
    match run.step(SideOutcome::Failed("late".to_string()), "core_a") {
        DeliveryAction::Revert { clear, notify, error } => {
            assert_eq!(clear, SlotAddr::new("ctrl_1", "arm"));
            assert_eq!(notify, None);
            assert_eq!(
                error,
                "failed to deliver pair `ctrl_1:arm ⇌ arm_1:controller` to instance 'ctrl_1': late"
            );
        }
        _ => panic!("nothing was delivered"),
    }
    let mut run = delivery(pairs(), Vec::new()).unwrap();
    run.step(SideOutcome::Taken, "core_a");
    match run.step(SideOutcome::Failed("late".to_string()), "core_a") {
        DeliveryAction::Revert { clear, notify, .. } => {
            assert_eq!(clear, SlotAddr::new("arm_1", "controller"));
            assert_eq!(notify, Some(SlotAddr::new("ctrl_1", "arm")));
        }
        _ => panic!("the served side is told"),
    }
}

#[test]
fn dissolving_tells_the_other_side() {
    let coordinator = PairingCoordinator::new("core_a", None);
    let dissolved = vec![
        pair(SlotAddr::new("ctrl_1", "arm"), SlotAddr::new("arm_1", "controller")),
        pair(SlotAddr::new("arm_2", "controller"), SlotAddr::new("ctrl_1", "spare")),
    ];
    assert_eq!(
        coordinator.dissolve_for_instance(&dissolved, "ctrl_1"),
        vec![SlotAddr::new("arm_1", "controller"), SlotAddr::new("arm_2", "controller")]
    );
    assert_eq!(pairing_label(&dissolved[0]), "ctrl_1:arm ⇌ arm_1:controller");
    assert_eq!(
        unpair_warning(&SlotAddr::new("arm_1", "controller"), "late"),
        "Best-effort unpair notification to 'arm_1' slot `controller` failed: late"
    );
}

#[test]
fn updates_are_numbered_upwards() {
    let mut coordinator = PairingCoordinator::new("core_a", Some(1_700_000_000_000));
    let slot = SlotAddr::new("arm_1", "controller");
    let first = coordinator.peer_update(&slot, None);
    let second = coordinator.peer_update(&slot, None);
    assert_eq!(first.sequence, 1_700_000_000_001);
    assert_eq!(second.sequence, 1_700_000_000_002);
    assert_eq!(first.link_id, "controller");
    assert!(first.pin.is_none());
    assert_eq!(SlotSequence::new(None).next_sequence(), 2);
}

#[test]
fn replacing_a_slot_of_an_instance_this_daemon_does_not_track_fails() {
    let mut coordinator = BindingCoordinator::new(Some(10));
    let mut run = coordinator.replace_slot("planner_inst", "robots", vec!["alpha_arm_inst"]);
    let update = run.update.as_ref().unwrap();
    assert_eq!(update.link_id, "robots");
    assert_eq!(update.sequence, 11);
    assert_eq!(update.producers, vec!["alpha_arm_inst"]);
    assert!(matches!(
        run.step(ReplaceEvent::Encoded(Ok(()))),
        Some(ReplaceAction::Send { ref consumer }) if consumer == "planner_inst"
    ));
    let sent = resolve_target(&None, &None, &None).map(|_| ());
    match run.step(ReplaceEvent::Sent(sent)) {
        Some(ReplaceAction::Finish(Err(error))) => {
            assert!(error.contains("no longer tracked"), "{error}")
        }
        _ => panic!("an instance that is not tracked cannot be told"),
    }
}

#[test]
fn a_set_is_recorded_once_the_instance_holds_it() {
    let mut coordinator = BindingCoordinator::new(None);
    let mut run = coordinator.replace_slot("planner_inst", "robots", vec![7]);
    run.step(ReplaceEvent::Encoded(Ok(())));
    match run.step(ReplaceEvent::Sent(Ok(()))) {
        Some(ReplaceAction::Record { consumer, update }) => {
            assert_eq!(consumer, "planner_inst");
            assert_eq!(update.link_id, "robots");
            assert_eq!(update.producers, vec![7]);
        }
        _ => panic!("what was delivered is recorded"),
    }
    assert!(matches!(
        run.step(ReplaceEvent::Recorded(true)),
        Some(ReplaceAction::Finish(Ok(())))
    ));
    let mut run = coordinator.replace_slot("planner_inst", "robots", ());
    run.step(ReplaceEvent::Encoded(Ok(())));
    run.step(ReplaceEvent::Sent(Ok(())));
    match run.step(ReplaceEvent::Recorded(false)) {
        Some(ReplaceAction::Finish(Err(error))) => {
            assert_eq!(error, "the instance stopped running as it took the set")
        }
        _ => panic!("the instance is gone"),
    }
}

#[test]
fn a_stale_update_counts_as_delivered() {
    let response = |accepted: bool, stale_sequence: bool, message: &str| SlotUpdateResponse {
        accepted,
        stale_sequence,
        message: message.to_string(),
    };
    assert_eq!(slot_update_outcome(&response(true, false, ""), "rejected"), Ok(()));
    assert_eq!(slot_update_outcome(&response(false, true, "old"), "rejected"), Ok(()));
    assert_eq!(
        slot_update_outcome(&response(false, false, ""), "peer_update rejected"),
        Err("peer_update rejected".to_string())
    );
    assert_eq!(
        slot_update_outcome(&response(false, false, "busy"), "peer_update rejected"),
        Err("busy".to_string())
    );
    assert_eq!(
        resolve_target(&Some("bad".to_string()), &None, &None),
        Err("invalid instance id: bad".to_string())
    );
    assert_eq!(
        resolve_target(
            &None,
            &Some(("arm".to_string(), "v1".to_string())),
            &Some("no target".to_string())
        ),
        Err("no target".to_string())
    );
    assert_eq!(
        resolve_target(&None, &Some(("arm".to_string(), "v1".to_string())), &None),
        Ok(("arm".to_string(), "v1".to_string()))
    );
}
