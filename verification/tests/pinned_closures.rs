use core_node::add_batch::batch::{
    AddReport, BatchAction, BatchAdd, BatchEvent, BatchStep,
};
use core_node::add_batch::pinned::{
    materializing_line, plan_closure, sub_add_log_failure, sub_add_log_name, ClosureSource,
    ClosureWork,
};
use core_node::add_batch::{
    closure_gaps, rollback, rollback_warning, stack_holds_identical, sub_goal, Undo,
};
use core_node::pins::minting::{
    doc_pins_for_manifest_sets, materialize_pin_set, materialize_pinned_node,
    minting_task_failure, pin_tasks, PinOutcome, PinResult, ResolvedDoc,
};
use core_node::pins::walk::ClosureWalk;
use core_node::pins::{
    check_declared, decode_pins, doc_refs, encode_pins, item_label, may_block,
    portable_pin_refusal, root_first, split_pins, DocPinMinter, DocPins, DocRef,
    EntryOrigin, Manifest, MaterializedPin, PinKind, PinnedClosure, PinnedItem,
};

fn git_origin(path: &str) -> EntryOrigin {
    EntryOrigin::Git {
        repo_url: "https://example.com/hub".to_owned(),
        repo_ref: Some("main".to_owned()),
        commit: "b".repeat(40),
        path: path.to_owned(),
    }
}

fn pin(kind: PinKind, name: &str, tag: &str, sha256: &str) -> PinnedItem {
    PinnedItem {
        kind,
        name: name.to_owned(),
        tag: tag.to_owned(),
        sha256: sha256.to_owned(),
        origin: git_origin(&format!("{name}.json5")),
    }
}

fn doc_pin(kind: PinKind, name: &str, sha_seed: &str) -> PinnedItem {
    pin(kind, name, "v1", &format!("{sha_seed:0>64}"))
}

fn manifest(name: &str, tag: &str, deps: &[(&str, &str)]) -> Manifest {
    Manifest {
        name: name.to_owned(),
        tag: tag.to_owned(),
        nodes: deps.iter().map(|(n, t)| (n.to_string(), t.to_string())).collect(),
        implements: Vec::new(),
        contracts: Vec::new(),
        pairings: Vec::new(),
        pairing_observers: Vec::new(),
    }
}

fn materialized(name: &str, tag: &str, deps: &[(&str, &str)], is_root: bool) -> MaterializedPin {
    MaterializedPin {
        pin: pin(PinKind::Node, name, tag, name),
        root_dir: "/unused".to_owned(),
        manifest: manifest(name, tag, deps),
        is_root,
    }
}

fn reference(name: &str) -> DocRef {
    DocRef { name: name.to_owned(), tag: "v1".to_owned(), sha256: None }
}

#[test]
fn doc_pin_lookup_resolves_refuses_gaps_and_refuses_author_conflicts() {
    let pin = doc_pin(PinKind::Contract, "frames", "the contract body");
    let pins = DocPins::from_pins(&vec![pin.clone()]);

    let resolved = pins
        .require(PinKind::Contract, "frames", "v1", None)
        .expect("a pinned reference resolves");
    assert_eq!(resolved.sha256, pin.sha256);

    let matching_author = pin.sha256.clone();
    assert!(
        pins.require(PinKind::Contract, "frames", "v1", Some(&matching_author)).is_ok(),
        "an author pin agreeing with the launch pin resolves"
    );

    let err = pins
        .require(PinKind::Pairing, "frames", "v1", None)
        .expect_err("the wrong kind is not the same identity");
    assert!(err.contains("incomplete closure"), "{err}");

    let err = pins
        .require(PinKind::Contract, "absent", "v1", None)
        .expect_err("a missing reference is a gap");
    assert!(err.contains("incomplete closure"), "{err}");

    let other = "f".repeat(64);
    let err = pins
        .require(PinKind::Contract, "frames", "v1", Some(&other))
        .expect_err("a disagreeing author pin must refuse");
    assert!(err.contains(&other), "names the author pin: {err}");
    assert!(err.contains(&pin.sha256), "names the launch pin: {err}");
}

#[test]
fn node_pins_stay_out_of_the_doc_lookup() {
    let pins = DocPins::from_pins(&vec![doc_pin(PinKind::Node, "frames", "a node body")]);
    assert!(
        pins.require(PinKind::Contract, "frames", "v1", None).is_err(),
        "a node pin must not serve a contract reference"
    );
}

#[test]
fn a_covered_closure_has_no_gaps() {
    let nodes = vec![
        materialized("camera", "v1", &[("driver", "v1"), ("planner", "v1")], true),
        materialized("driver", "v1", &[], false),
    ];
    let gaps = closure_gaps(&nodes, &vec![("planner".to_owned(), "v1".to_owned())]);
    assert!(gaps.is_empty(), "got: {gaps:?}");
}

#[test]
fn an_uncovered_dependency_is_an_incomplete_closure_refusal() {
    let nodes = vec![materialized("camera", "v1", &[("driver", "v2")], true)];
    let gaps = closure_gaps(&nodes, &Vec::new());
    assert_eq!(gaps.len(), 2, "a header plus one gap: {gaps:?}");
    assert!(gaps[0].contains("incomplete set"), "got: {gaps:?}");
    assert!(gaps[1].contains("`driver:v2`"), "got: {gaps:?}");
    assert!(gaps[1].contains("camera:v1"), "got: {gaps:?}");
}

#[test]
fn documents_are_minted_once_each() {
    let mut minter = DocPinMinter::new();
    assert_eq!(minter.mint(doc_pin(PinKind::Contract, "frames", "a")), Ok(()));
    assert_eq!(minter.mint(doc_pin(PinKind::Contract, "frames", "a")), Ok(()));
    assert_eq!(minter.mint(doc_pin(PinKind::Pairing, "frames", "b")), Ok(()));
    assert_eq!(minter.pins.len(), 2);
    let err = minter.mint(doc_pin(PinKind::Contract, "frames", "b")).unwrap_err();
    assert!(err.starts_with("contract `frames:v1` is needed at two different contents"), "{err}");
    assert_eq!(minter.pins.len(), 2);
}

fn resolved(sha256: &str) -> ResolvedDoc {
    ResolvedDoc {
        sha256: sha256.to_owned(),
        origin: git_origin("d.json5"),
        name_problem: None,
        tag_problem: None,
    }
}

#[test]
fn a_manifest_is_minted_contracts_first() {
    let mut arm = manifest("arm", "v1", &[]);
    arm.pairings.push(reference("arm_link"));
    arm.implements.push(reference("frames"));
    arm.contracts.push(reference("frames"));
    let refs = doc_refs(&arm);
    assert_eq!(refs.len(), 3);
    assert_eq!(refs[0].reference.name, "frames");
    assert_eq!(refs[2].kind, PinKind::Pairing);

    let mut minter = DocPinMinter::new();
    let answer = minter.mint_for_manifest(&arm, &|_: PinKind, doc: &DocRef| Ok(resolved(&doc.name)));
    assert_eq!(answer, Ok(()));
    let minted: Vec<&str> = minter.pins.iter().map(|pin| pin.name.as_str()).collect();
    assert_eq!(minted, vec!["frames", "arm_link"]);
    assert_eq!(minter.pins[0].sha256, "frames");
}

#[test]
fn a_reference_that_is_no_item_is_refused() {
    let mut minter = DocPinMinter::new();
    let bad_name = ResolvedDoc { name_problem: Some("too long".to_owned()), ..resolved("a") };
    assert_eq!(
        minter.mint_reference(PinKind::Contract, &reference("frames"), Ok(bad_name)),
        Err("contract `frames:v1`: too long".to_owned())
    );
    let bad_tag = ResolvedDoc { tag_problem: Some("blank".to_owned()), ..resolved("a") };
    assert_eq!(
        minter.mint_reference(PinKind::Pairing, &reference("arm_link"), Ok(bad_tag)),
        Err("pairing `arm_link:v1`: blank".to_owned())
    );
    assert_eq!(
        minter.mint_reference(PinKind::Contract, &reference("frames"), Err("no cache".to_owned())),
        Err("no cache".to_owned())
    );
    assert!(minter.pins.is_empty());
}

#[test]
fn each_set_of_manifests_has_its_own_result() {
    let mut good = manifest("arm", "v1", &[]);
    good.contracts.push(reference("frames"));
    let mut bad = manifest("leg", "v1", &[]);
    bad.contracts.push(reference("absent"));
    let resolve = |_: PinKind, doc: &DocRef| {
        if doc.name == "absent" {
            Err("not in the cache".to_owned())
        } else {
            Ok(resolved("a"))
        }
    };
    let results =
        doc_pins_for_manifest_sets(&vec![vec![bad], vec![good]], Ok(()), Ok(()), &resolve)
            .unwrap();
    assert_eq!(results[0], Err("not in the cache".to_owned()));
    assert_eq!(results[1].as_ref().map(|pins| pins.len()), Ok(1));
    assert_eq!(
        doc_pins_for_manifest_sets(&Vec::new(), Err("gone".to_owned()), Ok(()), &resolve),
        Err("failed to load contract cache: gone".to_owned())
    );
    assert_eq!(
        doc_pins_for_manifest_sets(&Vec::new(), Ok(()), Err("gone".to_owned()), &resolve),
        Err("failed to load pairing cache: gone".to_owned())
    );
    assert_eq!(minting_task_failure("x"), "doc pin minting task failed: x");
}

#[test]
fn a_pin_is_built_from_the_directory_of_its_file() {
    let node = pin(PinKind::Node, "arm", "v1", "a");
    let parsed = |path: &str, name: &str| PinOutcome::Parsed {
        manifest_path: path.to_owned(),
        manifest: manifest(name, "v1", &[]),
    };
    let (dir, found) =
        materialize_pinned_node(&node, parsed("/c/arm/peppy.json5", "arm")).unwrap();
    assert_eq!(dir, "/c/arm");
    assert_eq!(found.name, "arm");
    let fail = |outcome: PinOutcome| materialize_pinned_node(&node, outcome).unwrap_err();
    assert_eq!(
        fail(parsed("/c/arm/peppy.json5", "leg")),
        "pinned node `arm:v1` resolved to bytes declaring `leg:v1`; the cache or the pin is wrong"
    );
    assert_eq!(
        fail(parsed("/", "arm")),
        "pinned node `arm:v1` resolved to /, which has no parent directory"
    );
    assert_eq!(
        fail(PinOutcome::TaskFailed("x".to_owned())),
        "materialization task for node `arm:v1` failed: x"
    );
    assert_eq!(fail(PinOutcome::Unresolved("x".to_owned())), "x");
    assert_eq!(
        fail(PinOutcome::NotUtf8("x".to_owned())),
        "pinned node `arm:v1` content is not UTF-8: x"
    );
    assert_eq!(
        fail(PinOutcome::Unparsable("x".to_owned())),
        "failed to parse pinned node `arm:v1`: x"
    );
}

#[test]
fn a_set_comes_out_root_first_whatever_was_done_first() {
    let tasks = pin_tasks(
        pin(PinKind::Node, "camera", "v1", "a"),
        vec![pin(PinKind::Node, "driver", "v1", "b")],
    );
    assert!(tasks[0].1 && !tasks[1].1);
    let done = |name: &str, is_root: bool| PinResult {
        pin: pin(PinKind::Node, name, "v1", "a"),
        is_root,
        result: Ok((format!("/c/{name}"), manifest(name, "v1", &[]))),
    };
    let nodes = materialize_pin_set(vec![done("driver", false), done("camera", true)]).unwrap();
    assert_eq!(nodes[0].pin.name, "camera");
    assert_eq!(nodes[1].root_dir, "/c/driver");
    let failed = PinResult { result: Err("offline".to_owned()), ..done("camera", true) };
    assert_eq!(
        materialize_pin_set(vec![done("driver", false), failed]).err(),
        Some("offline".to_owned())
    );
    let closure = PinnedClosure { nodes };
    assert_eq!(closure.dep_pins(), vec![pin(PinKind::Node, "driver", "v1", "a")]);
    assert_eq!(closure.manifests().len(), 2);
    let nodes = root_first(closure.nodes);
    assert!(nodes[0].is_root);
}

#[test]
fn a_walk_covers_the_closure_of_its_root() {
    let mut walk = ClosureWalk::new("camera", "v1");
    let key = walk.next().unwrap();
    assert!(key.is_root && key.name == "camera");
    let root = || materialized("camera", "v1", &[("driver", "v1"), ("bus", "v1")], true);
    assert!(walk.materialized(root()));
    assert!(!walk.materialized(root()), "it is answered for once");
    let mut names = Vec::new();
    while let Some(key) = walk.next() {
        names.push(key.name.clone());
        if key.name == "bus" {
            assert!(walk.not_found(&key.name, &key.tag));
            assert!(!walk.not_found("camera", "v1"), "it is a node already");
        } else {
            let driver = |is_root| materialized("driver", "v1", &[("camera", "v1")], is_root);
            assert!(!walk.materialized(driver(true)), "the root is another node");
            assert!(walk.materialized(driver(false)));
        }
    }
    names.sort();
    assert_eq!(names, vec!["bus", "driver"]);
    let problems = walk.finish("/cache", "refresh").err().expect("a dependency is missing");
    assert!(problems.iter().any(|line| line.contains("bus:v1")), "{problems:?}");

    let mut walk = ClosureWalk::new("camera", "v1");
    walk.next();
    walk.materialized(materialized("camera", "v1", &[("driver", "v1")], true));
    let key = walk.next().unwrap();
    assert!(!key.is_root && key.name == "driver");
    walk.materialized(materialized("driver", "v1", &[("camera", "v1")], false));
    assert!(walk.next().is_none());
    assert!(walk.open.is_empty() && walk.pending.is_empty());
    let closure = walk.finish("/cache", "refresh").unwrap_or_else(|_| panic!("complete"));
    assert_eq!(closure.nodes.len(), 2);
    assert!(closure.nodes[0].is_root && closure.nodes[0].pin.name == "camera");
    assert!(!closure.nodes[1].is_root);

    let mut walk = ClosureWalk::new("camera", "v1");
    walk.next();
    let report = "camera:v1 is in two repositories".to_owned();
    assert!(!walk.claimed_twice("driver", "v1", report.clone()));
    assert!(walk.claimed_twice("camera", "v1", report.clone()));
    assert!(walk.next().is_none());
    assert_eq!(walk.finish("/cache", "refresh").err(), Some(vec![report]));
}

#[test]
fn only_portable_pins_leave_this_machine() {
    assert_eq!(portable_pin_refusal(&pin(PinKind::Node, "arm", "v1", "a")), None);
    let local = PinnedItem {
        origin: EntryOrigin::Fs { path: "/home/arm".to_owned() },
        ..pin(PinKind::Node, "arm", "v1", "a")
    };
    assert!(portable_pin_refusal(&local).is_some());
    assert!(may_block(&pin(PinKind::Node, "arm", "v1", "a"), None));
    assert!(may_block(&local, None));
    assert!(!may_block(&local, Some(&EntryOrigin::Fs { path: "/x".to_owned() })));
    assert_eq!(item_label(PinKind::Contract, "frames", "v1"), "contract `frames:v1`");
    assert!(check_declared(&local, &manifest("arm", "v1", &[])).is_ok());
}

#[test]
fn pins_are_decoded_and_split() {
    let pins = decode_pins(vec![
        Ok(pin(PinKind::Node, "arm", "v1", "a")),
        Ok(doc_pin(PinKind::Contract, "frames", "b")),
    ])
    .unwrap();
    let (nodes, documents) = split_pins(pins);
    assert_eq!(nodes.len(), 1);
    assert_eq!(documents.len(), 1);
    assert!(decode_pins(vec![Err("bad".to_owned())]).unwrap_err().contains("bad"));
    assert_eq!(
        encode_pins(&documents, vec![Ok("{}".to_owned())]),
        Ok(vec!["{}".to_owned()])
    );
    assert!(encode_pins(&nodes, vec![Err("bad".to_owned())]).unwrap_err().contains("bad"));
}

fn action(step: Option<BatchStep>) -> BatchAction {
    step.expect("the event answers").action
}

fn report(log: &str) -> AddReport {
    AddReport { success: true, error_message: None, log_path: log.to_owned() }
}

fn names(list: &[&str]) -> Vec<(String, String)> {
    list.iter().map(|name| (name.to_string(), "v1".to_string())).collect()
}

fn two_nodes() -> BatchAdd {
    BatchAdd::new(vec![
        materialized("camera", "v1", &[("driver", "v1")], true),
        materialized("driver", "v1", &[], false),
    ])
}

#[test]
fn a_batch_adds_dependencies_first() {
    let mut batch = two_nodes();
    assert!(matches!(action(batch.step(BatchEvent::InStack(Vec::new()))), BatchAction::Sort));
    let sorted = BatchEvent::Sorted(Ok(names(&["driver", "camera"])));
    assert!(matches!(action(batch.step(sorted)), BatchAction::Compare(1)));
    assert!(matches!(action(batch.step(BatchEvent::Identical(false))), BatchAction::Add(1)));
    let added = BatchEvent::Added { report: Ok(report("/logs/driver")), replaced: false };
    assert!(matches!(action(batch.step(added)), BatchAction::Add(0)));
    let added = BatchEvent::Added { report: Ok(report("/logs/camera")), replaced: false };
    match action(batch.step(added)) {
        BatchAction::Succeed { log_path, name, tag } => {
            assert_eq!(log_path.as_deref(), Some("/logs/camera"));
            assert_eq!((name.as_str(), tag.as_str()), ("camera", "v1"));
        }
        _ => panic!("every node is added"),
    }
}

#[test]
fn a_failed_batch_is_undone_backwards() {
    let mut batch = two_nodes();
    batch.step(BatchEvent::InStack(Vec::new()));
    batch.step(BatchEvent::Sorted(Ok(names(&["driver", "camera"]))));
    batch.step(BatchEvent::Identical(false));
    batch.step(BatchEvent::Added { report: Ok(report("/logs/driver")), replaced: true });
    let failed = AddReport {
        success: false,
        error_message: Some("broken".to_owned()),
        log_path: "/logs/camera".to_owned(),
    };
    match action(batch.step(BatchEvent::Added { report: Ok(failed), replaced: false })) {
        BatchAction::Fail { undo, text } => {
            assert!(text.contains("broken"), "{text}");
            assert_eq!(undo.len(), 1);
            assert_eq!(undo[0].name, "driver");
            assert!(undo[0].restore, "what was replaced is put back");
        }
        _ => panic!("a failed add fails the batch"),
    }
}

#[test]
fn a_batch_that_is_given_up_is_undone() {
    let mut batch = two_nodes();
    assert!(two_nodes().abandon().is_empty(), "nothing was added yet");
    batch.step(BatchEvent::InStack(Vec::new()));
    batch.step(BatchEvent::Sorted(Ok(names(&["driver", "camera"]))));
    batch.step(BatchEvent::Identical(false));
    batch.step(BatchEvent::Added { report: Ok(report("/logs/driver")), replaced: false });
    let undo = batch.abandon();
    assert_eq!(undo.len(), 1);
    assert_eq!(undo[0].name, "driver");
    assert!(batch.abandon().is_empty(), "it is undone once");
    let mut done = two_nodes();
    done.step(BatchEvent::InStack(Vec::new()));
    done.step(BatchEvent::Sorted(Ok(names(&["driver", "camera"]))));
    done.step(BatchEvent::Identical(true));
    done.step(BatchEvent::Added { report: Ok(report("/logs/camera")), replaced: false });
    assert!(done.abandon().is_empty(), "a batch that succeeded stays");
}

#[test]
fn an_add_that_is_not_undone_is_logged() {
    let undo = |restore: bool| Undo { name: "a".to_owned(), tag: "v1".to_owned(), restore };
    assert_eq!(
        rollback_warning(&undo(true), "gone"),
        "Batch-add rollback (restore previous) failed for a:v1: gone"
    );
    assert_eq!(rollback_warning(&undo(false), "gone"), "Batch-add rollback failed for a:v1: gone");
}

#[test]
fn a_batch_with_gaps_adds_nothing() {
    let mut batch =
        BatchAdd::new(vec![materialized("camera", "v1", &[("driver", "v2")], true)]);
    match action(batch.step(BatchEvent::InStack(Vec::new()))) {
        BatchAction::RefuseGaps(lines) => assert!(lines[1].contains("`driver:v2`"), "{lines:?}"),
        _ => panic!("a gap is refused"),
    }
}

#[test]
fn undoing_goes_from_the_last_add_to_the_first() {
    let undo = |name: &str, restore: bool| Undo {
        name: name.to_owned(),
        tag: "v1".to_owned(),
        restore,
    };
    let order = rollback(&vec![undo("a", true), undo("b", false)]);
    assert_eq!(order[0].name, "b");
    assert_eq!(order[1].name, "a");
    assert!(order[1].restore && !order[0].restore);
}

#[test]
fn only_the_root_takes_the_goals_environment() {
    let env = vec![("A".to_owned(), "1".to_owned())];
    assert_eq!(sub_goal(true, &env, true).env_vars, env);
    assert!(sub_goal(false, &env, true).env_vars.is_empty());
    let same = Some("abc".to_owned());
    assert!(stack_holds_identical(&Some(same.clone()), &same));
    assert!(!stack_holds_identical(&None, &same));
    assert!(!stack_holds_identical(&Some(Some("other".to_owned())), &same));
}

#[test]
fn a_closure_comes_from_its_pins_or_is_resolved_here() {
    let step = plan_closure(
        ClosureSource::Pinned {
            root: Ok(pin(PinKind::Node, "camera", "v1", "a")),
            pins: vec![
                Ok(pin(PinKind::Node, "driver", "v1", "b")),
                Ok(doc_pin(PinKind::Contract, "frames", "c")),
            ],
        },
        Ok(false),
        "/cache",
    );
    match step.work {
        Ok(ClosureWork::Materialize { root, node_pins, doc_pins }) => {
            assert_eq!(root.name, "camera");
            assert_eq!(node_pins.len(), 1);
            assert_eq!(doc_pins.len(), 1);
            assert!(materializing_line(&root, &node_pins).contains("camera"));
        }
        _ => panic!("a pinned closure is materialized"),
    }
    let step = plan_closure(
        ClosureSource::ResolveRef { name: "camera".to_owned(), tag: "v1".to_owned() },
        Ok(false),
        "/cache",
    );
    assert!(matches!(step.work, Ok(ClosureWork::Resolve { .. })));
    let step = plan_closure(
        ClosureSource::ResolveRef { name: "camera".to_owned(), tag: "v1".to_owned() },
        Ok(true),
        "/cache",
    );
    assert!(step.work.is_err());
    assert!(plan_closure(ClosureSource::Other, Ok(false), "/cache").work.is_err());
    assert_eq!(sub_add_log_name("arm", "v1", "20260101"), "arm_v1_20260101.log");
    assert!(sub_add_log_failure("full").contains("full"));
}
