use core_node::builder::{
    check_buildable, prepare_build, BuildAction, BuildCandidate, BuildEvent, BuildGoal, BuildHost,
    NodeBuild, Settlement,
};
use core_node::env::PeppygenLanguage;
use core_node::info::{
    answer_info, encoding_problem, route_info, run_log_path, InfoAnswer, InfoError, InfoOutcome,
    InfoRun, InstanceFacts, NodeFacts,
};
use core_node::init::templates::{
    apply_python_templates, apply_rust_templates, static_file_target, InitContent, InitSettings,
    PYTHON_MAIN,
};
use core_node::run::watch::InstanceState;
use core_node::node_build::{
    check_pending, report_build, PendingBuild, PendingNode, PendingReport,
};
use core_node::sets::{replace_sets, slot_failure, SlotMembers, SlotSet};

fn candidate() -> BuildCandidate {
    BuildCandidate { wrong_stage: None, has_working_dir: true, generation: 4 }
}

#[test]
fn a_node_is_built_where_it_can_be() {
    assert_eq!(check_buildable("arm", "v1", &Some(candidate()), true), Ok(4));
    let absent = check_buildable("arm", "v1", &None, true).unwrap_err();
    assert!(absent.contains("arm:v1"), "{absent}");
    let staged = BuildCandidate { wrong_stage: Some("Building".to_string()), ..candidate() };
    let text = check_buildable("arm", "v1", &Some(staged), true).unwrap_err();
    assert!(text.contains("Building"), "{text}");
    let bare = BuildCandidate { has_working_dir: false, ..candidate() };
    assert!(check_buildable("arm", "v1", &Some(bare), true).is_err());
}

#[test]
fn a_build_has_its_environment() {
    let goal = |env_vars: Vec<(String, String)>| BuildGoal {
        node_name: "arm".to_string(),
        node_tag: "v1".to_string(),
        env_vars,
    };
    let build_host = BuildHost {
        forbidden: vec!["LD_PRELOAD".to_string()],
        language: PeppygenLanguage::Rust,
        sccache_available: true,
        apptainer_bin: "apptainer".to_string(),
    };
    let env = prepare_build(&goal(Vec::new()), &build_host).ok().expect("prepared");
    assert!(env.env_vars.iter().any(|(key, _)| key == "RUSTC_WRAPPER"));
    assert!(!env.feedback.is_empty());
    let bad = goal(vec![("LD_PRELOAD".to_string(), "x".to_string())]);
    assert!(prepare_build(&bad, &build_host).is_err());
}

fn begun() -> NodeBuild {
    NodeBuild::new("arm".to_string(), "v1".to_string(), 4)
}

#[test]
fn a_build_that_succeeds_is_reported() {
    let mut build = begun();
    assert!(matches!(build.step(BuildEvent::Detached(Ok(()))), Some(BuildAction::Build)));
    let built =
        BuildEvent::Built { result: Ok("/images/arm.sif".to_string()), cancelled: false };
    match build.step(built) {
        Some(BuildAction::Succeed(path)) => assert_eq!(path, "/images/arm.sif"),
        _ => panic!("the build succeeded"),
    }
}

#[test]
fn a_failed_build_settles_its_node() {
    let settle = |action: Option<BuildAction>| match action {
        Some(BuildAction::Fail { settle, text, .. }) => (settle, text),
        _ => panic!("expected a failure"),
    };
    let mut build = begun();
    build.step(BuildEvent::Detached(Ok(())));
    let failed = BuildEvent::Built { result: Err("no compiler".to_string()), cancelled: false };
    let (settlement, text) = settle(build.step(failed));
    assert_eq!(settlement, Settlement::Remove);
    assert!(text.contains("no compiler"), "{text}");
    let mut build = begun();
    build.step(BuildEvent::Detached(Ok(())));
    let superseded = BuildEvent::Built { result: Err("stopped".to_string()), cancelled: true };
    assert_eq!(settle(build.step(superseded)).0, Settlement::RollBack);
    let mut build = begun();
    let (settlement, text) = settle(build.step(BuildEvent::Detached(Err(5))));
    assert_eq!(settlement, Settlement::Keep);
    assert!(text.contains('5') || text.contains("arm"), "{text}");
}

#[test]
fn a_pending_build_is_reported_with_its_node() {
    let pending = |has_input: bool| {
        Some(PendingNode { has_input, stage: "Added".to_string() })
    };
    assert_eq!(check_pending("arm", "v1", &pending(true)), Ok(()));
    assert!(check_pending("arm", "v1", &pending(false)).unwrap_err().contains("Added"));
    assert!(check_pending("arm", "v1", &None).unwrap_err().contains("arm"));
    assert!(matches!(
        report_build(PendingBuild::Built(Ok("/x".to_string()))),
        PendingReport::Success(ref path) if path == "/x"
    ));
    assert!(matches!(
        report_build(PendingBuild::Built(Err("bad".to_string()))),
        PendingReport::Failure { remove: true, ref text } if text == "Failed to build node: bad"
    ));
    assert!(matches!(
        report_build(PendingBuild::Refused("no".to_string())),
        PendingReport::Failure { remove: false, ref text } if text == "no"
    ));
    assert!(matches!(
        report_build(PendingBuild::Panicked("boom".to_string())),
        PendingReport::Failure { remove: true, ref text } if text == "node_build task panicked: boom"
    ));
}

fn facts_of(id: &str, healthy: bool) -> InstanceFacts<u8> {
    InstanceFacts {
        instance_id: id.to_string(),
        state: InstanceState::Running,
        healthy,
        slot_bindings: id.len() as u8,
    }
}

fn node_facts() -> Option<NodeFacts<&'static str, &'static str, u8>> {
    Some(NodeFacts {
        config: "manifest",
        stage: "built",
        instances: vec![facts_of("arm_1", true), facts_of("left_arm", false)],
        add_log_path: Some("/logs/add.log".to_string()),
    })
}

#[test]
fn a_question_about_a_node_is_answered() {
    let print = || Ok("abc".to_string());
    let slots = |id: &str| format!("slots of {id}");
    match answer_info(Ok(()), node_facts(), print(), "/logs", &slots) {
        Ok(InfoAnswer::Found(info)) => {
            assert_eq!((info.config, info.stage), ("manifest", "built"));
            assert_eq!(info.config_integrity, "abc");
            assert_eq!(info.add_log_path, Some("/logs/add.log".to_string()));
            assert_eq!(info.run_log_paths, vec!["/logs/arm_1.log", "/logs/left_arm.log"]);
            assert_eq!(info.instances.len(), 2);
            assert_eq!(info.instances[1].instance_id, "left_arm");
            assert_eq!(info.instances[1].state, InstanceState::Running);
            assert!(!info.instances[1].healthy);
            assert_eq!(info.instances[1].slot_bindings, 8);
            assert_eq!(info.instances[1].pairing_slots, "slots of left_arm");
        }
        _ => panic!("the stack holds the node"),
    }
    let nothing: Option<NodeFacts<u8, u8, u8>> = None;
    assert!(matches!(
        answer_info(Ok(()), nothing, print(), "/logs", &slots),
        Ok(InfoAnswer::NotInStack)
    ));
    assert!(matches!(
        answer_info(Err("bad".to_string()), node_facts(), print(), "/logs", &slots),
        Err(InfoError::Invalid(ref why)) if why == "bad"
    ));
    assert!(matches!(
        answer_info(Ok(()), node_facts(), Err("unreadable".to_string()), "/logs", &slots),
        Err(InfoError::Internal(ref why)) if why == "unreadable"
    ));
    assert!(matches!(
        encoding_problem("bad"),
        InfoError::Internal(ref why) if why == "failed to encode NodeInfoResponse: bad"
    ));
    assert_eq!(run_log_path("/logs", "arm_1"), "/logs/arm_1.log");
}

#[test]
fn faults_are_laid_at_the_right_door() {
    assert!(matches!(route_info("cli", InfoRun::Answered), InfoOutcome::Answer));
    assert!(matches!(route_info("cli", InfoRun::TimedOut), InfoOutcome::Timeout));
    assert!(matches!(
        route_info("cli", InfoRun::Failed(InfoError::Invalid("bad".to_string()))),
        InfoOutcome::InvalidRequest { ref identifier, ref reason }
            if identifier == "cli" && reason.contains("bad")
    ));
    assert!(matches!(
        route_info("cli", InfoRun::Failed(InfoError::Internal("bad".to_string()))),
        InfoOutcome::ServiceError { ref reason, .. } if reason.contains("bad")
    ));
}

fn set(id: &str, link: &str, members: SlotMembers<u8, u8>) -> SlotSet<u8, u8> {
    SlotSet { instance_id: id.to_string(), link_id: link.to_string(), members }
}

#[test]
fn sets_go_to_the_instances_that_run() {
    let plan = replace_sets(
        vec![
            set("arm_1", "sources", SlotMembers::Producers(1)),
            set("arm_2", "sources", SlotMembers::Producers(2)),
            set("arm_1", "cameras", SlotMembers::Observed(3)),
        ],
        &vec!["arm_1".to_string()],
        &vec!["arm_1".to_string()],
    );
    assert_eq!(plan.producers.len(), 1);
    assert_eq!(plan.producers[0].members, 1);
    assert_eq!(plan.observers.len(), 1);
    assert_eq!(plan.observers[0].link_id, "cameras");
    assert_eq!(plan.failures.len(), 1);
    assert!(plan.failures[0].contains("arm_2"), "{}", plan.failures[0]);
    assert!(slot_failure("arm_1", "sources", "late").contains("late"));
}

fn settings() -> InitSettings<'static> {
    InitSettings {
        pepygen_path: "gen",
        pepylib_path: "lib",
        python_min_version: "3.10",
        python_max_version: "3.13",
        rust_base_image: "rust:1",
        python_base_image: "python:3",
    }
}

#[test]
fn a_new_rust_node_has_its_files() {
    let embedded = vec![
        "node_init/python/extra.py".to_string(),
        "node_init/rust/src/main.rs".to_string(),
        "node_init/rusty/lib.rs".to_string(),
    ];
    let files = apply_rust_templates("arm", "/n/arm", true, settings(), &embedded);
    assert_eq!(files.len(), 4);
    assert_eq!(files[0].path, "/n/arm/src/main.rs");
    assert!(matches!(
        files[0].content,
        InitContent::Embedded("node_init/rust/src/main.rs")
    ));
    let paths: Vec<&str> = files.iter().map(|file| file.path.as_str()).collect();
    assert!(paths.contains(&"/n/arm/Cargo.toml"), "{paths:?}");
    assert!(paths.contains(&"/n/arm/peppy.json5"), "{paths:?}");
    assert!(files.iter().any(|file| matches!(
        file.content,
        InitContent::RustCargo(ref cargo) if cargo.node_name == "arm" && cargo.pepygen_path == "gen"
    )));
    let plain = apply_rust_templates("arm", "/n/arm", false, settings(), &embedded);
    assert_eq!(plain.len() + 1, files.len(), "a container has an image to build");
}

#[test]
fn a_new_python_node_has_its_files() {
    let files = apply_python_templates("arm", "/n/arm", false, settings());
    assert!(files
        .iter()
        .any(|file| matches!(file.content, InitContent::Text(text) if text == PYTHON_MAIN)));
    assert!(files.iter().any(|file| file.path == "/n/arm/pyproject.toml"));
    assert!(!files.iter().any(|file| matches!(file.content, InitContent::Embedded(_))));
    let boxed = apply_python_templates("arm", "/n/arm", true, settings());
    assert!(boxed.iter().any(|file| matches!(
        file.content,
        InitContent::PythonImage(ref image) if image.base_image == "python:3"
    )));
}

#[test]
fn embedded_files_are_copied_below_their_prefix() {
    assert_eq!(
        static_file_target("rust", "rust/src/main.rs", "/n/arm"),
        Some("/n/arm/src/main.rs".to_string())
    );
    assert_eq!(static_file_target("rust", "rusty/src/main.rs", "/n/arm"), None);
}
