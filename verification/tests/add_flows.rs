use core_node::add::download::{
    download_http_bundle, resolve_http_source_download_and_extract, Download, DownloadEvent,
    DownloadStep, HttpEvent, HttpStep, Progress,
};
use core_node::add::git::{
    config_path_for, probe_failure, refspecs, FetchStep, GitAction, GitEvent, GitSource,
    GitUrl,
    ProbeFetch, ProbeProblem, ShallowCheckError,
};
use core_node::add::http::{
    bundle_file_name, check_http_source, decode_sha256_hex, download_failure, download_line,
    encode_hex, sanitize_http_filename, staging_dir_name, DownloadProblem,
};
use core_node::add::machine::{
    copies_library, superseded_text, AddAction, AddEvent, AddPhase, NodeAdd, ResolvedNode,
    SyncEnd,
};
use core_node::add::staged::{
    begin_work, describe_join_error, finish_work, StagingOwners, WorkEnd,
};
use core_node::add::{
    canonical_log_name, log_label_from_source, log_name, plan_shutdown, resolve_node_add_source,
    source_checks, CleanupDir, NodeSource, SourceChecks, SourceWork,
};
use core_node::archive::SourceUrl;
use core_node::common::PanicPayload;
use core_node::remove::TrackedInstance;
use core_node::run::watch::InstanceState;
use core_node::time::Span;
use sha2::{Digest, Sha256};

const URL: &str = "http://127.0.0.1:8080/bundle.tar.zst";

fn url(text: &str) -> SourceUrl {
    SourceUrl::parse(text).expect("a URL")
}

fn sha256_hex(data: &[u8]) -> String {
    encode_hex(Sha256::digest(data).as_slice())
}

fn start(expected: Option<&str>) -> Result<Download, String> {
    download_http_bundle(
        url(URL),
        "/tmp/op/bundle.tar.zst".to_string(),
        expected,
        false,
        Span::from_secs(0),
    )
}

/// Downloads these bytes in two pieces; what was written, whether the file was
/// removed, and how it ended.
fn download(bundle: &[u8], expected: Option<&str>) -> (Vec<u8>, bool, Result<(), String>) {
    let mut run = match start(expected) {
        Ok(run) => run,
        Err(text) => return (Vec::new(), false, Err(text)),
    };
    let middle = bundle.len() / 2;
    let mut pieces = vec![Vec::new(), bundle[middle..].to_vec(), bundle[..middle].to_vec()];
    let mut written = Vec::new();
    let mut removed = false;
    let mut event = DownloadEvent::Responded(Some(bundle.len() as u64));
    loop {
        event = match run.step(event).expect("the event answers") {
            DownloadStep::Create => DownloadEvent::Created(Ok(())),
            DownloadStep::Read(_) => DownloadEvent::Read(Ok(pieces.pop().unwrap())),
            DownloadStep::Write(bytes) => {
                written.extend(bytes);
                DownloadEvent::Written(Ok(()), Span::from_secs(0))
            }
            DownloadStep::Flush => DownloadEvent::Flushed(Ok(())),
            DownloadStep::Remove => {
                removed = true;
                DownloadEvent::Removed
            }
            DownloadStep::Done => return (written, removed, Ok(())),
            DownloadStep::Fail(text) => return (written, removed, Err(text)),
        }
    }
}

#[test]
fn test_download_http_bundle_checksum_mismatch() {
    let wrong_hash = "a".repeat(64);
    let (_, removed, result) = download(b"hello world", Some(&wrong_hash));
    assert!(result.is_err());
    let err = result.unwrap_err();
    assert!(
        err.contains("checksum mismatch"),
        "error should mention checksum mismatch, got: {}",
        err
    );
    assert_eq!(
        err,
        format!(
            "SHA256 checksum mismatch for {}: expected {}, computed {}",
            URL,
            wrong_hash,
            sha256_hex(b"hello world")
        )
    );
    assert!(removed, "bundle file should be cleaned up on mismatch");
}

#[test]
fn test_download_http_bundle_checksum_ok() {
    let correct_hash = sha256_hex(b"hello world");
    assert_eq!(
        correct_hash,
        "b94d27b9934d3e08a52e52d7da7dabfac484efe37a5380ee9088f7ace2efcde9"
    );
    let (written, removed, result) = download(b"hello world", Some(&correct_hash));
    assert!(result.is_ok(), "expected Ok, got: {:?}", result);
    assert!(!removed, "bundle file should exist after successful download");
    assert_eq!(written, b"hello world");
}

#[test]
fn test_download_http_bundle_no_checksum_skips_verification() {
    let (written, removed, result) = download(b"hello world", None);
    assert!(result.is_ok(), "expected Ok, got: {:?}", result);
    assert!(!removed, "bundle file should exist");
    assert_eq!(written, b"hello world");
}

#[test]
fn a_checksum_of_another_length_is_refused_before_the_request() {
    let err = start(Some("abcd")).err().expect("refused");
    assert!(err.starts_with(&format!("Invalid SHA256 for {URL}: ")), "{err}");
}

#[test]
fn a_download_tells_its_progress_now_and_again() {
    let mut run =
        download_http_bundle(url(URL), "/d".to_string(), None, true, Span::from_secs(0)).unwrap();
    run.step(DownloadEvent::Responded(Some(100)));
    run.step(DownloadEvent::Created(Ok(())));
    run.step(DownloadEvent::Read(Ok(vec![0; 40])));
    assert!(matches!(
        run.step(DownloadEvent::Written(Ok(()), Span::from_millis(499))),
        Some(DownloadStep::Read(None))
    ));
    run.step(DownloadEvent::Read(Ok(vec![0; 10])));
    assert!(matches!(
        run.step(DownloadEvent::Written(Ok(()), Span::from_millis(500))),
        Some(DownloadStep::Read(Some(Progress { downloaded: 50, total: Some(100) })))
    ));
    run.step(DownloadEvent::Read(Ok(vec![0; 10])));
    assert!(matches!(
        run.step(DownloadEvent::Written(Ok(()), Span::from_millis(900))),
        Some(DownloadStep::Read(None))
    ));
}

#[test]
fn a_download_names_what_failed() {
    let fail = |step: Option<DownloadStep>| match step {
        Some(DownloadStep::Fail(text)) => text,
        _ => panic!("expected a failure"),
    };
    let begun = || start(None).unwrap();
    assert_eq!(
        fail(begun().step(DownloadEvent::Refused(404))),
        format!("Failed to download bundle from {URL}: unexpected status code 404")
    );
    assert_eq!(
        fail(begun().step(DownloadEvent::RequestFailed("offline".to_string()))),
        format!("Failed to download bundle from {URL}: offline")
    );
    let mut run = begun();
    run.step(DownloadEvent::Responded(None));
    assert_eq!(
        fail(run.step(DownloadEvent::Created(Err("full".to_string())))),
        "Failed to create bundle file /tmp/op/bundle.tar.zst: full"
    );
    let mut run = begun();
    run.step(DownloadEvent::Responded(None));
    run.step(DownloadEvent::Created(Ok(())));
    assert_eq!(
        fail(run.step(DownloadEvent::Read(Err("reset".to_string())))),
        format!("Failed to read response body from {URL}: reset")
    );
    let mut run = begun();
    run.step(DownloadEvent::Responded(None));
    run.step(DownloadEvent::Created(Ok(())));
    run.step(DownloadEvent::Read(Ok(vec![1])));
    assert_eq!(
        fail(run.step(DownloadEvent::Written(Err("full".to_string()), Span::from_secs(0)))),
        "Failed to write bundle file /tmp/op/bundle.tar.zst: full"
    );
    let mut run = begun();
    run.step(DownloadEvent::Responded(None));
    run.step(DownloadEvent::Created(Ok(())));
    run.step(DownloadEvent::Read(Ok(Vec::new())));
    assert_eq!(
        fail(run.step(DownloadEvent::Flushed(Err("full".to_string())))),
        "Failed to flush bundle file /tmp/op/bundle.tar.zst: full"
    );
}

#[test]
fn a_source_is_downloaded_into_a_directory_of_its_own() {
    let mut run = resolve_http_source_download_and_extract(
        url("https://example.com/a/node.tar.zst"),
        Some("aa".to_string()),
        "/downloads".to_string(),
        &staging_dir_name("20260101", "abc"),
    )
    .unwrap_or_else(|text| panic!("{text}"));
    let staging = "/downloads/node_add_20260101_abc";
    assert!(matches!(
        run.step(HttpEvent::Made(Ok(()))),
        Some(HttpStep::Make(ref dir)) if dir == staging
    ));
    assert!(matches!(
        run.step(HttpEvent::Made(Ok(()))),
        Some(HttpStep::Make(ref dir)) if *dir == format!("{staging}/extracted")
    ));
    match run.step(HttpEvent::Made(Ok(()))) {
        Some(HttpStep::Download { url, to, sha256 }) => {
            assert_eq!(url.text, "https://example.com/a/node.tar.zst");
            assert_eq!(to, format!("{staging}/node.tar.zst"));
            assert_eq!(sha256.as_deref(), Some("aa"));
        }
        _ => panic!("the archive is downloaded"),
    }
    assert!(matches!(
        run.step(HttpEvent::Downloaded(Ok(()))),
        Some(HttpStep::Extract { .. })
    ));
    assert!(matches!(
        run.step(HttpEvent::Extracted(Ok(()))),
        Some(HttpStep::RemoveBundle(_))
    ));
    assert!(matches!(run.step(HttpEvent::BundleRemoved), Some(HttpStep::Locate(_))));
    match run.step(HttpEvent::Located(Ok("/x/node".to_string()))) {
        Some(HttpStep::Done { source_path, cleanup_dir }) => {
            assert_eq!(source_path, "/x/node");
            assert_eq!(cleanup_dir, staging);
        }
        _ => panic!("the node is there"),
    }
}

#[test]
fn a_failed_source_is_cleaned_up() {
    let begun = || {
        resolve_http_source_download_and_extract(
            url("https://example.com/node.tar.zst"),
            None,
            "/downloads".to_string(),
            "op",
        )
        .unwrap_or_else(|text| panic!("{text}"))
    };
    let mut run = begun();
    run.step(HttpEvent::Made(Ok(())));
    run.step(HttpEvent::Made(Ok(())));
    run.step(HttpEvent::Made(Ok(())));
    run.step(HttpEvent::Downloaded(Ok(())));
    assert!(matches!(
        run.step(HttpEvent::Extracted(Err("bad archive".to_string()))),
        Some(HttpStep::Clean(ref dir)) if dir == "/downloads/op"
    ));
    assert!(matches!(
        run.step(HttpEvent::Cleaned),
        Some(HttpStep::Fail(ref text))
            if text == "bad archive (source: https://example.com/node.tar.zst)"
    ));
    let mut run = begun();
    assert!(matches!(
        run.step(HttpEvent::Made(Err("full".to_string()))),
        Some(HttpStep::Fail(ref text)) if text == "Failed to create HTTP download directory: full"
    ));
}

#[test]
fn only_archives_over_http_are_downloaded() {
    assert!(check_http_source(&url("https://example.com/node.tar.zst")).is_ok());
    assert_eq!(
        check_http_source(&url("ftp://example.com/node.tar.zst")),
        Err("HTTP source URL must use http or https (got scheme 'ftp')".to_string())
    );
    assert_eq!(
        check_http_source(&url("https://example.com/node.zip")),
        Err(
            "Only tar.zst (.tar.zstd/.tar.zst/.tzst) archives are supported for HTTP sources"
                .to_string()
        )
    );
}

#[test]
fn downloaded_files_have_plain_names() {
    assert_eq!(sanitize_http_filename("a b.tar.zst"), "a_b.tar.zst");
    assert_eq!(sanitize_http_filename(""), "bundle.tar.zst");
    assert_eq!(bundle_file_name(&url("https://example.com/a/b/node.tzst")), "node.tzst");
    assert_eq!(bundle_file_name(&url("https://example.com/")), "bundle.tar.zst");
}

#[test]
fn hexadecimal_digits_are_read_back() {
    let bytes: Vec<u8> = (0..32).map(|i| i * 8 + 7).collect();
    assert_eq!(decode_sha256_hex(&encode_hex(&bytes)), Ok(bytes));
    assert_eq!(
        decode_sha256_hex(&"AB".repeat(32)),
        Ok(vec![0xab; 32]),
        "capitals are digits too"
    );
    assert!(decode_sha256_hex("ab").is_err());
}

#[test]
fn a_download_reads_well() {
    assert_eq!(
        download_line("1.0 MB", Some(("4.0 MB", 25))),
        "Downloading: 1.0 MB / 4.0 MB (25%)"
    );
    assert_eq!(download_line("1.0 MB", None), "Downloading: 1.0 MB");
    assert_eq!(
        download_failure(&url(URL), &DownloadProblem::Join("gone".to_string())),
        "Failed to join HTTP download task: gone"
    );
}

fn fs(path: &str) -> NodeSource {
    NodeSource::Fs(path.to_string())
}

#[test]
fn a_source_says_how_it_is_brought_here() {
    let work = |source: &NodeSource| resolve_node_add_source(source, "abc", "launch");
    assert!(matches!(
        work(&fs("/nodes/arm")),
        Ok(SourceWork::Read { ref config_path }) if config_path == "/nodes/arm/peppy.json5"
    ));
    assert!(matches!(
        work(&fs("/nodes/arm.tar.zst")),
        Ok(SourceWork::Extract { verify_hash: true })
    ));
    assert!(matches!(
        resolve_node_add_source(&fs("/nodes/arm.tar.zst"), "launch", "launch"),
        Ok(SourceWork::Extract { verify_hash: false })
    ));
    let git = NodeSource::Git {
        repo_url: repo("https://Example.com/hub"),
        repo_path: "arm".to_string(),
        repo_ref: None,
    };
    assert!(matches!(
        work(&git),
        Ok(SourceWork::Clone { ref announced })
            if announced == "Cloning repository https://example.com/hub..."
    ));
    let http = NodeSource::Http { url: url(URL), sha256: None };
    assert!(matches!(
        work(&http),
        Ok(SourceWork::Download { ref announced })
            if *announced == format!("Downloading bundle from {URL}...")
    ));
    let repo = NodeSource::RepoNode { name: "arm".to_string(), tag: "v1".to_string() };
    assert_eq!(
        work(&repo).err(),
        Some("internal error: RepoNode reached the single-source add path".to_string())
    );
    assert_eq!(log_label_from_source(&repo, &None, &None), "arm_v1");
    assert_eq!(log_label_from_source(&fs("/nodes/arm"), &None, &None), "arm");
    let node = Some(("arm".to_string(), "v2".to_string()));
    assert_eq!(log_label_from_source(&fs("/nodes/x"), &None, &node), "arm_v2");
    for remote in [&git, &http] {
        let label = log_label_from_source(remote, &None, &None);
        assert_eq!(label.len(), 36);
        let parts: Vec<usize> = label.split('-').map(|part| part.len()).collect();
        assert_eq!(parts, vec![8, 4, 4, 4, 12]);
        assert_ne!(label, log_label_from_source(remote, &None, &None));
    }
    assert_eq!(log_name("arm", "20260101"), "arm_20260101.log");
    assert_eq!(canonical_log_name("arm", "v1", "20260101"), "arm_v1_20260101.log");
}

#[test]
fn a_launch_skips_the_checks() {
    let all = source_checks(&fs("/nodes/arm"), "abc", "launch");
    assert!(all.auto_sync && all.hash_of_dir && all.fingerprint && !all.hash_of_archive);
    let none = source_checks(&fs("/nodes/arm"), "launch", "launch");
    assert!(!none.auto_sync && !none.hash_of_dir && !none.fingerprint);
}

#[test]
fn a_directory_that_is_taken_is_not_removed() {
    let mut dir = CleanupDir::new(Some("/x".to_string()));
    assert_eq!(dir.take(), Some("/x".to_string()));
    assert_eq!(dir.take(), None);
}

#[test]
fn running_instances_are_stopped_and_starting_ones_refuse() {
    let instance = |id: &str, state: InstanceState| TrackedInstance {
        instance_id: id.to_string(),
        state,
    };
    let stops = plan_shutdown(
        "arm",
        "v1",
        &vec![
            instance("a", InstanceState::Running),
            instance("b", InstanceState::Finished),
            instance("c", InstanceState::Running),
        ],
    );
    assert_eq!(stops, Ok(vec!["a".to_string(), "c".to_string()]));
    let refused = plan_shutdown("arm", "v1", &vec![instance("a", InstanceState::Starting)]);
    assert!(refused.unwrap_err().contains("arm:v1"));
}

fn checks(all: bool) -> SourceChecks {
    SourceChecks { auto_sync: all, hash_of_dir: all, hash_of_archive: false, fingerprint: all }
}

fn node() -> ResolvedNode {
    ResolvedNode { name: "arm".to_string(), tag: "v1".to_string(), has_cleanup: true }
}

fn add(all: bool) -> NodeAdd {
    NodeAdd::new(checks(all), None, "/logs/first.log".to_string())
}

fn next(run: &mut NodeAdd, event: AddEvent) -> AddAction {
    run.step(event).expect("the event answers").action
}

#[test]
fn an_add_goes_through_its_checks() {
    let mut run = add(true);
    let perform = |action: AddAction, wanted: AddPhase| match action {
        AddAction::Perform(phase) => assert_eq!(phase, wanted),
        _ => panic!("expected {wanted:?}"),
    };
    perform(next(&mut run, AddEvent::Resolved(Ok(node()))), AddPhase::AutoSync);
    perform(next(&mut run, AddEvent::Synced(SyncEnd::Done)), AddPhase::VerifyHash);
    perform(next(&mut run, AddEvent::HashVerified(Ok(()))), AddPhase::RenameLog);
    perform(
        next(&mut run, AddEvent::LogRenamed("/logs/arm.log".to_string())),
        AddPhase::VerifyFingerprint,
    );
    perform(next(&mut run, AddEvent::FingerprintVerified(Ok(()))), AddPhase::Copy);
    perform(next(&mut run, AddEvent::Copied(Ok(Vec::new()))), AddPhase::CheckDependencies);
    perform(
        next(&mut run, AddEvent::DependenciesChecked(Vec::new())),
        AddPhase::ResolveConsumed,
    );
    perform(next(&mut run, AddEvent::ConsumedResolved(Ok(()))), AddPhase::ResolveConforms);
    perform(next(&mut run, AddEvent::ConformsResolved(Ok(()))), AddPhase::Generate);
    perform(next(&mut run, AddEvent::Generated(Ok(()))), AddPhase::ReadInstances);
    let running = ["arm_1", "arm_2"]
        .map(|id| TrackedInstance {
            instance_id: id.to_string(),
            state: InstanceState::Running,
        })
        .into_iter()
        .collect();
    match next(&mut run, AddEvent::InstancesRead(Some(running))) {
        AddAction::Stop(ids) => assert_eq!(ids, vec!["arm_1", "arm_2"]),
        _ => panic!("what runs is stopped first, all at once"),
    }
    let stopped = run.step(AddEvent::Stopped).expect("the event answers");
    assert_eq!(stopped.lines, vec!["arm_1 has been stopped", "arm_2 has been stopped"]);
    perform(stopped.action, AddPhase::Push);
    perform(next(&mut run, AddEvent::Pushed(Ok(()))), AddPhase::Find);
    match next(&mut run, AddEvent::Found(true)) {
        AddAction::Succeed { log_path, name, tag, drop_source } => {
            assert_eq!(log_path, "/logs/arm.log");
            assert_eq!((name.as_str(), tag.as_str()), ("arm", "v1"));
            assert!(drop_source);
        }
        _ => panic!("the node is added"),
    }
}

#[test]
fn a_node_without_running_instances_is_pushed_at_once() {
    for found in [None, Some(Vec::new())] {
        let mut run = add(false);
        run.phase = AddPhase::ReadInstances;
        assert!(matches!(
            next(&mut run, AddEvent::InstancesRead(found)),
            AddAction::Perform(AddPhase::Push)
        ));
    }
}

#[test]
fn directories_that_are_left_out_are_told() {
    let mut run = add(false);
    next(&mut run, AddEvent::Resolved(Ok(node())));
    next(&mut run, AddEvent::LogRenamed("/logs/arm.log".to_string()));
    let left_out = vec![".git".to_string(), "target".to_string()];
    let step = run.step(AddEvent::Copied(Ok(left_out))).expect("the event answers");
    assert_eq!(step.lines, vec!["Excluded directories from copy: .git, target"]);
}

#[test]
fn a_refused_environment_leaves_no_source_behind() {
    let refusal = Some("Forbidden environment variable: PATH".to_string());
    let mut run = NodeAdd::new(checks(false), refusal, "/logs/first.log".to_string());
    next(&mut run, AddEvent::Resolved(Ok(node())));
    match next(&mut run, AddEvent::LogRenamed("/logs/arm.log".to_string())) {
        AddAction::Fail { log_path, text, drop_source, drop_copy } => {
            assert_eq!(log_path, "/logs/arm.log");
            assert_eq!(text, "Forbidden environment variable: PATH");
            assert!(drop_source && !drop_copy);
        }
        _ => panic!("a refused environment fails the add"),
    }
    let mut run = add(false);
    next(&mut run, AddEvent::Resolved(Ok(node())));
    match next(&mut run, AddEvent::Panicked("boom".to_string())) {
        AddAction::Fail { log_path, drop_source, .. } => {
            assert_eq!(log_path, "/logs/first.log");
            assert!(drop_source);
        }
        _ => panic!("a panic fails the add"),
    }
}

#[test]
fn a_failed_add_drops_its_copy() {
    let mut run = add(false);
    next(&mut run, AddEvent::Resolved(Ok(node())));
    next(&mut run, AddEvent::LogRenamed("/logs/arm.log".to_string()));
    next(&mut run, AddEvent::Copied(Ok(Vec::new())));
    match next(&mut run, AddEvent::DependenciesChecked(vec!["bus:v1 is missing".to_string()])) {
        AddAction::Fail { text, drop_source, drop_copy, .. } => {
            assert!(text.contains("bus:v1"), "{text}");
            assert!(drop_source && drop_copy);
        }
        _ => panic!("an unmet dependency fails the add"),
    }
    let mut run = add(false);
    match next(&mut run, AddEvent::Resolved(Err("no such source".to_string()))) {
        AddAction::Fail { text, drop_copy, .. } => {
            assert!(text.contains("no such source"));
            assert!(!drop_copy, "nothing was copied yet");
        }
        _ => panic!("a source that is not there fails the add"),
    }
    let mut run = add(false);
    match next(&mut run, AddEvent::Panicked("boom".to_string())) {
        AddAction::Fail { text, .. } => assert!(text.contains("boom"), "{text}"),
        _ => panic!("a panic fails the add"),
    }
    assert!(!superseded_text().is_empty());
    assert_ne!(copies_library(true), copies_library(false));
}

#[test]
fn a_successful_job_leaves_the_staging_directory_to_the_add() {
    let mut owners = StagingOwners::new();
    owners.share();
    assert_eq!(begin_work("waldo:v1", false), Ok(()));
    assert_eq!(finish_work("waldo:v1", WorkEnd::Done(Ok(()))), Ok(()));
    assert!(!owners.job_done(), "a returned job holds no reference to the staging directory");
    assert!(owners.add_done(), "the last owner removes the staging directory");
}

#[test]
fn a_failing_job_returns_its_error_and_the_add_discards_the_staging() {
    let mut owners = StagingOwners::new();
    owners.share();
    let text = "Failed to generate peppygen library: boom".to_string();
    assert_eq!(
        finish_work("waldo:v1", WorkEnd::Done(Err(text.clone()))),
        Err(text),
        "a work error comes back verbatim"
    );
    assert!(!owners.job_done());
    assert!(owners.add_done());
}

#[test]
fn a_panicking_job_returns_the_panic_and_releases_the_staging() {
    let mut owners = StagingOwners::new();
    owners.share();
    let payload = PanicPayload::Text("kaboom in the generator".to_string());
    let message = finish_work("waldo:v1", WorkEnd::Panicked(payload))
        .expect_err("a panic is reported as an error");
    assert!(
        message.contains("staged work for waldo:v1 panicked")
            && message.contains("kaboom in the generator"),
        "the error names the node and the panic: {message}"
    );
    assert!(!owners.job_done());
    assert!(owners.add_done());
    let lost = describe_join_error("waldo:v1", &Some(PanicPayload::Other));
    assert!(lost.contains("waldo:v1"), "{lost}");
}

#[test]
fn a_job_dropped_before_it_starts_skips_its_work_and_releases_the_staging() {
    let mut owners = StagingOwners::new();
    owners.share();
    assert!(!owners.add_done(), "the queued job still owns the staging directory");
    assert!(begin_work("waldo:v1", true).is_err(), "a job whose add is gone skips its work");
    assert!(owners.job_done(), "the skipped job removes the staging directory it was left");
}

#[test]
fn a_job_dropped_after_it_starts_keeps_its_staging_until_it_returns() {
    let mut owners = StagingOwners::new();
    owners.share();
    assert_eq!(begin_work("waldo:v1", false), Ok(()));
    assert!(!owners.add_done(), "the running job still owns the staging directory");
    assert!(
        owners.job_done(),
        "the abandoned job removes the staging directory when it returns"
    );
}

fn repo(text: &str) -> GitUrl {
    GitUrl::parse(text).unwrap_or_else(|| panic!("{text}"))
}

fn source_of(path: &str) -> GitSource {
    GitSource::new(path, &repo("https://example.com/hub"), None).ok().unwrap().0
}

#[test]
fn a_repository_is_looked_at_before_it_is_cloned() {
    let name = Some("main".to_string());
    let (mut source, step) =
        GitSource::new("arms/left", &repo("https://EXAMPLE.com/hub"), name.clone())
            .unwrap_or_else(|text| panic!("{text}"));
    assert_eq!(step.line.as_deref(), Some("Checking node config..."));
    match step.action {
        GitAction::Probe { url, repo_ref, config_path } => {
            assert_eq!(url, "https://example.com/hub");
            assert_eq!(repo_ref, name);
            assert_eq!(config_path, "arms/left/peppy.json5");
        }
        _ => panic!("the look comes first"),
    }
    let step = source.step(GitEvent::Probed(Ok(Ok(())))).unwrap();
    assert!(matches!(step.action, GitAction::MakeTempDir));
    let step = source.step(GitEvent::TempDirMade(Ok("/tmp/clone".to_string()))).unwrap();
    match step.action {
        GitAction::Clone { url, repo_ref, dir } => {
            assert_eq!(url, "https://example.com/hub");
            assert_eq!(repo_ref, name);
            assert_eq!(dir, "/tmp/clone");
        }
        _ => panic!("the repository is cloned"),
    }
    let step = source.step(GitEvent::Cloned(Ok(Ok(())))).unwrap();
    assert!(matches!(
        step.action,
        GitAction::Parse(ref path) if path == "/tmp/clone/arms/left/peppy.json5"
    ));
    match source.step(GitEvent::Parsed(Ok(()))).unwrap().action {
        GitAction::Resolved { root, checkout } => {
            assert_eq!(root, "/tmp/clone/arms/left");
            assert_eq!(checkout, "/tmp/clone");
        }
        _ => panic!("the node is there"),
    }
}

#[test]
fn the_url_of_a_repository_is_read() {
    let url = repo("ssh://git@Example.com:22/hub");
    assert_eq!(url.shown, "ssh://git@example.com:22/hub");
    assert_eq!(url.text.as_deref(), Some("ssh://git@example.com:22/hub"));
    assert!(GitUrl::parse("").is_none());
}

#[test]
fn a_bad_declaration_is_refused_and_a_failed_look_is_not() {
    let mut source = source_of("arms/left");
    let bad = ShallowCheckError::InvalidConfig("no name".to_string());
    match source.step(GitEvent::Probed(Ok(Err(bad)))).unwrap().action {
        GitAction::Fail { remove, text, .. } => {
            assert_eq!(remove, None);
            assert!(text.contains("no name"), "{text}");
        }
        _ => panic!("a bad declaration is refused"),
    }
    let mut source = source_of("arms/left");
    let failed = ShallowCheckError::ShallowFetchFailed("no depth".to_string());
    let step = source.step(GitEvent::Probed(Ok(Err(failed)))).unwrap();
    assert!(matches!(step.action, GitAction::MakeTempDir));
    let url = repo("https://example.com/hub");
    assert_eq!(
        GitSource::new("../outside", &url, None).err(),
        Some("repo_path must not contain '..'".to_string())
    );
    assert_eq!(
        GitSource::new("", &url, None).err(),
        Some("repo_path must not be empty".to_string())
    );
    let bytes = GitUrl { shown: "?".to_string(), text: None };
    assert_eq!(
        GitSource::new("arms", &bytes, None).err(),
        Some("repo_url must be valid UTF-8".to_string())
    );
}

#[test]
fn a_ref_is_asked_for_under_each_of_its_names() {
    let names = refspecs(Some("v1"));
    assert!(names.len() > 1 && names.iter().all(|name| name.contains("v1")));
    let (mut probe, first) = ProbeFetch::new(Some("v1"));
    assert_eq!(first, names[0]);
    match probe.tried(Err("unknown".to_string())) {
        FetchStep::Try(name) => assert_eq!(name, names[1]),
        _ => panic!("the next name is tried"),
    }
    assert!(matches!(probe.tried(Ok(())), FetchStep::Fetched));
    let (mut probe, _) = ProbeFetch::new(None);
    assert!(matches!(probe.tried(Err("gone".to_string())), FetchStep::GiveUp(ref why) if why == "gone"));
    assert_eq!(config_path_for("arms/left"), "arms/left/peppy.json5");
    assert_eq!(config_path_for("arms/Left.JSON5"), "arms/Left.JSON5");
    assert_eq!(config_path_for("arms/left.txt"), "arms/left.txt/peppy.json5");
    assert!(matches!(
        probe_failure("peppy.json5", &ProbeProblem::Parse("bad".to_string())),
        ShallowCheckError::InvalidConfig(_)
    ));
    assert!(matches!(
        probe_failure("peppy.json5", &ProbeProblem::Fetch("bad".to_string())),
        ShallowCheckError::ShallowFetchFailed(_)
    ));
}
