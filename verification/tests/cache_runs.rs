use core_node::archive::SourceUrl;
use core_node::bundle_cache::ensure::{ensure_bundle, BundleEvent, BundleStep, Extracted};
use core_node::cache::git::{
    adopt_checkout, checkout_dir_for, clear_failure, discard_warning, ensure_checkout_at_commit,
    is_checked_out_at, last_used_marker, prune_checkouts, recently_used, AdoptEvent, AdoptStep,
    Adoption, CachedDir, CheckoutAction, CheckoutAt, CheckoutEvent, ClearProblem,
    PRUNE_GRACE_SECS,
};
use core_node::git_cache;
use core_node::time::Span;

const URL: &str = "/src/source-repo";
const DIRS: &str = "/cache/checkouts";

fn commit(c: &str) -> String {
    c.repeat(40)
}

fn checkout(repo_ref: Option<&str>, commit: &str) -> CheckoutAt {
    ensure_checkout_at_commit(
        DIRS,
        URL.to_string(),
        repo_ref.map(|name| name.to_string()),
        commit.to_string(),
    )
}

fn dir(path: &str, used: Option<u64>) -> CachedDir {
    CachedDir { path: path.to_string(), is_dir: true, used: used.map(Span::from_secs) }
}

#[test]
fn checkout_dir_for_distinct_commits_distinct_dirs() {
    let url = "https://example.com/repo.git";
    let a = commit("a");
    let b = commit("b");
    assert_ne!(checkout_dir_for(DIRS, url, &a), checkout_dir_for(DIRS, url, &b));
    assert_eq!(checkout_dir_for(DIRS, url, &a), checkout_dir_for(DIRS, url, &a));
}

#[test]
fn ensure_checkout_at_commit_reuses_a_populated_dir_without_fetching() {
    let first = commit("1");
    let mut run = checkout(Some("main"), &first);
    let there = run.dir.clone();
    let step = run.step(CheckoutEvent::Inspected(true)).expect("an answer");
    assert!(matches!(step.action, CheckoutAction::HandOut));
    assert_eq!(
        step.line,
        Some(format!("Reusing cached checkout of {} at {}", first, there))
    );
    assert!(run.step(CheckoutEvent::Inspected(true)).is_none(), "the checkout is over");
}

#[test]
fn ensure_checkout_at_commit_resolves_a_commit_the_branch_moved_past() {
    let first = commit("1");
    let mut run = checkout(Some("main"), &first);
    run.step(CheckoutEvent::Inspected(false));
    let step = run.step(CheckoutEvent::Cleared(Ok(()))).unwrap();
    assert!(matches!(step.action, CheckoutAction::Clone));
    let step = run.step(CheckoutEvent::Cloned(Ok(()))).unwrap();
    assert!(matches!(step.action, CheckoutAction::CheckOut));
    // The clone is shallow and the branch has moved on.
    let step = run.step(CheckoutEvent::CheckedOut(Err("missing".to_string()))).unwrap();
    assert!(matches!(step.action, CheckoutAction::FetchHash));
    assert_eq!(
        step.line,
        Some(format!("Commit {} is not in the shallow clone of {}; fetching it", first, URL))
    );
    let step = run.step(CheckoutEvent::FetchedHash(false)).unwrap();
    assert!(matches!(step.action, CheckoutAction::FetchRef(ref name) if name == "main"));
    let step =
        run.step(CheckoutEvent::FetchedRef { result: Ok(()), has_commit: true }).unwrap();
    assert!(matches!(step.action, CheckoutAction::CheckOut));
    let step = run.step(CheckoutEvent::CheckedOut(Ok(()))).unwrap();
    assert!(matches!(step.action, CheckoutAction::HandOut));

    let tip = checkout(Some("main"), &commit("2"));
    assert_ne!(run.dir, tip.dir, "two commits are two checkouts");
}

#[test]
fn ensure_checkout_at_commit_refuses_a_commit_the_remote_does_not_have() {
    let absent = commit("0");
    let mut run = checkout(Some("main"), &absent);
    run.step(CheckoutEvent::Inspected(false));
    run.step(CheckoutEvent::Cleared(Ok(())));
    run.step(CheckoutEvent::Cloned(Ok(())));
    run.step(CheckoutEvent::CheckedOut(Err("missing".to_string())));
    run.step(CheckoutEvent::FetchedHash(false));
    let step =
        run.step(CheckoutEvent::FetchedRef { result: Ok(()), has_commit: false }).unwrap();
    match step.action {
        CheckoutAction::Fail(error) => assert!(
            error.contains(&absent) && error.contains("not reachable"),
            "the refusal names the commit it could not reach, got: {error}"
        ),
        _ => panic!("a commit the remote never had cannot be checked out"),
    }
}

#[test]
fn ensure_checkout_at_commit_replaces_an_incomplete_checkout() {
    let first = commit("1");
    // A directory without `.git` is at no commit.
    assert!(!is_checked_out_at(false, &Some(first.clone()), &first));
    let mut run = checkout(Some("main"), &first);
    let step = run.step(CheckoutEvent::Inspected(false)).unwrap();
    assert!(matches!(step.action, CheckoutAction::Clear));
    let step = run.step(CheckoutEvent::Cleared(Ok(()))).unwrap();
    assert!(matches!(step.action, CheckoutAction::Clone));
    assert_eq!(
        step.line,
        Some(format!("Cloning {} at {} into cache at {}", URL, first, run.dir))
    );
    run.step(CheckoutEvent::Cloned(Ok(())));
    let step = run.step(CheckoutEvent::CheckedOut(Ok(()))).unwrap();
    assert!(matches!(step.action, CheckoutAction::HandOut));
    assert_eq!(run.dir, checkout_dir_for(DIRS, URL, &first));
}

#[test]
fn the_failures_of_a_checkout_have_their_texts() {
    let first = commit("1");
    let fail = |step: Option<core_node::cache::git::CheckoutStep>| match step.unwrap().action {
        CheckoutAction::Fail(text) => text,
        _ => panic!("expected a failure"),
    };
    let mut run = checkout(None, &first);
    run.step(CheckoutEvent::Inspected(false));
    assert_eq!(fail(run.step(CheckoutEvent::Cleared(Err("no".to_string())))), "no");
    let mut run = checkout(None, &first);
    run.step(CheckoutEvent::Inspected(false));
    run.step(CheckoutEvent::Cleared(Ok(())));
    assert_eq!(fail(run.step(CheckoutEvent::Cloned(Err("offline".to_string())))), "offline");
    let mut run = checkout(None, &first);
    run.step(CheckoutEvent::Inspected(false));
    run.step(CheckoutEvent::Cleared(Ok(())));
    run.step(CheckoutEvent::Cloned(Ok(())));
    run.step(CheckoutEvent::CheckedOut(Err("missing".to_string())));
    run.step(CheckoutEvent::FetchedHash(false));
    let event = CheckoutEvent::FetchedRef { result: Err("gone".to_string()), has_commit: false };
    assert_eq!(fail(run.step(event)), format!("Failed to fetch HEAD from {}: gone", URL));
    let mut run = checkout(None, &first);
    run.step(CheckoutEvent::Inspected(false));
    run.step(CheckoutEvent::Cleared(Ok(())));
    run.step(CheckoutEvent::Cloned(Ok(())));
    run.step(CheckoutEvent::CheckedOut(Err("missing".to_string())));
    run.step(CheckoutEvent::FetchedHash(true));
    assert_eq!(
        fail(run.step(CheckoutEvent::CheckedOut(Err("locked".to_string())))),
        format!("Failed to check out commit {} of {} after fetching it: locked", first, URL)
    );
}

fn donation(commit: &str) -> Adoption {
    adopt_checkout("/cache/git", URL.to_string(), commit.to_string(), "/tmp/clone".to_string())
}

#[test]
fn adopt_checkout_takes_over_a_clone_made_elsewhere() {
    let first = commit("1");
    let mut run = donation(&first);
    let place = checkout_dir_for("/cache/git", URL, &first);
    assert!(matches!(
        run.step(AdoptEvent::Inspected(false)),
        Some(AdoptStep::Clear(ref dir)) if *dir == place
    ));
    match run.step(AdoptEvent::Cleared(Ok(()))) {
        Some(AdoptStep::Move { from, to }) => {
            assert_eq!(from, "/tmp/clone");
            assert_eq!(to, place);
        }
        _ => panic!("the clone is moved into its place"),
    }
    match run.step(AdoptEvent::Moved(Ok(()))) {
        Some(AdoptStep::End { touch, discard, line }) => {
            assert_eq!(touch, Some(place.clone()));
            assert_eq!(discard, None);
            assert_eq!(line, Some(format!("Adopted the clone of {URL} at {first} as {place}")));
        }
        _ => panic!("the clone is adopted"),
    }
    // From then on the checkout is at its commit and needs no remote.
    assert!(is_checked_out_at(true, &Some(first.clone()), &first));
    let mut run = checkout(None, &first);
    let line = run.step(CheckoutEvent::Inspected(true)).unwrap().line.unwrap();
    assert!(line.starts_with("Reusing cached checkout"));
}

#[test]
fn adopt_checkout_keeps_the_checkout_already_at_the_key() {
    let first = commit("1");
    let place = checkout_dir_for("/cache/git", URL, &first);
    let mut run = donation(&first);
    match run.step(AdoptEvent::Inspected(true)) {
        Some(AdoptStep::End { touch, discard, line }) => {
            assert_eq!(touch, Some(place));
            assert_eq!(discard.as_deref(), Some("/tmp/clone"), "the clone is not left behind");
            assert_eq!(line, None);
        }
        _ => panic!("a populated place is left alone"),
    }
    assert!(run.step(AdoptEvent::Moved(Ok(()))).is_none());
}

#[test]
fn a_clone_that_cannot_be_adopted_is_dropped() {
    let kept_out = |step: Option<AdoptStep>| match step {
        Some(AdoptStep::End { touch: None, discard, line }) => {
            assert_eq!(discard.as_deref(), Some("/tmp/clone"));
            line.unwrap()
        }
        _ => panic!("the clone is dropped"),
    };
    let text = format!("Keeping the clone of {URL} out of the checkout cache: busy");
    let mut run = donation(&commit("1"));
    run.step(AdoptEvent::Inspected(false));
    assert_eq!(kept_out(run.step(AdoptEvent::Cleared(Err("busy".to_string())))), text);
    let mut run = donation(&commit("1"));
    run.step(AdoptEvent::Inspected(false));
    run.step(AdoptEvent::Cleared(Ok(())));
    assert_eq!(kept_out(run.step(AdoptEvent::Moved(Err("busy".to_string())))), text);
    assert_eq!(
        discard_warning("/tmp/clone", "busy"),
        "Failed to remove the clone at /tmp/clone: busy"
    );
}

#[test]
fn prune_checkouts_removes_only_what_no_entry_names() {
    let url = "https://example.com/hub.git";
    let live = commit("a");
    let superseded = commit("b");
    let live_dir = checkout_dir_for(DIRS, url, &live);
    let superseded_dir = checkout_dir_for(DIRS, url, &superseded);
    let entries = vec![dir(&live_dir, None), dir(&superseded_dir, None)];
    let pruned = prune_checkouts(
        DIRS,
        &entries,
        &vec![(url.to_string(), live.clone())],
        Span::from_secs(100_000),
    );
    assert_eq!(pruned, vec![superseded_dir]);
}

#[test]
fn a_named_checkout_is_spared_however_its_path_is_written() {
    let named = (URL.to_string(), commit("a"));
    let path = checkout_dir_for("/cache//checkouts/", URL, &commit("a"));
    let now = Span::from_secs(100_000);
    assert!(prune_checkouts(DIRS, &vec![dir(&path, None)], &vec![named], now).is_empty());
}

#[test]
fn prune_checkouts_keeps_a_checkout_handed_out_recently() {
    let first = checkout_dir_for(DIRS, URL, &commit("1"));
    let entries = vec![dir(&first, Some(99_999))];
    let now = Span::from_secs(100_000);
    assert!(prune_checkouts(DIRS, &entries, &Vec::new(), now).is_empty());
    let later = Span::from_secs(100_000 + PRUNE_GRACE_SECS);
    assert_eq!(prune_checkouts(DIRS, &entries, &Vec::new(), later), vec![first]);
}

#[test]
fn the_grace_ends_with_its_hour() {
    let used = Some(Span::from_secs(1_000));
    assert!(recently_used(used, Span::from_secs(1_000 + PRUNE_GRACE_SECS - 1)));
    assert!(!recently_used(used, Span::from_secs(1_000 + PRUNE_GRACE_SECS)));
    assert!(!recently_used(None, Span::from_secs(0)));
    assert_eq!(last_used_marker("/c/x"), "/c/x/.git/peppy-last-used");
}

#[test]
fn what_is_in_the_way_of_a_checkout_is_named() {
    assert_eq!(
        clear_failure(&ClearProblem::Parent { path: "/c".to_string(), why: "no".to_string() }),
        "Failed to create git_checkouts parent /c: no"
    );
    assert_eq!(
        clear_failure(&ClearProblem::Leftover { path: "/c/x".to_string(), why: "no".to_string() }),
        "Failed to remove incomplete checkout at /c/x: no"
    );
}

#[test]
fn a_checkout_of_a_ref_is_brought_up_to_date() {
    let mut run = git_cache::ensure_checkout(DIRS, "https://example.com/r.git", Some("v1"));
    assert!(matches!(
        run.step(git_cache::CheckoutEvent::ParentMade(Ok(()))),
        Some(git_cache::CheckoutStep::Look)
    ));
    match run.step(git_cache::CheckoutEvent::Looked { populated: true, present: true }) {
        Some(git_cache::CheckoutStep::Open { announced }) => {
            assert_eq!(announced, format!("Reusing cached checkout at {}", run.dir))
        }
        _ => panic!("a checkout that is there is opened"),
    }
    match run.step(git_cache::CheckoutEvent::Opened(Ok(()))) {
        Some(git_cache::CheckoutStep::Fetch { refspec, shallow }) => {
            assert_eq!(refspec, "v1");
            assert!(shallow);
        }
        _ => panic!("an opened checkout is fetched"),
    }
    match run.step(git_cache::CheckoutEvent::Fetched(Err("offline".to_string()))) {
        Some(git_cache::CheckoutStep::Checkout { line, name }) => {
            assert_eq!(name, "v1");
            assert_eq!(
                line.as_deref(),
                Some("Fetch for cached checkout failed (offline); using existing working tree")
            );
        }
        _ => panic!("a fetch that fails is survived"),
    }
    assert!(matches!(
        run.step(git_cache::CheckoutEvent::CheckedOut(Ok(()))),
        Some(git_cache::CheckoutStep::Done { line: None })
    ));
    assert!(run.step(git_cache::CheckoutEvent::Wiped).is_none());
}

#[test]
fn a_checkout_that_is_not_there_is_cloned() {
    let mut run = git_cache::ensure_checkout(DIRS, "file:///srv/r.git", None);
    run.step(git_cache::CheckoutEvent::ParentMade(Ok(())));
    assert!(matches!(
        run.step(git_cache::CheckoutEvent::Looked { populated: false, present: true }),
        Some(git_cache::CheckoutStep::Wipe)
    ));
    match run.step(git_cache::CheckoutEvent::Wiped) {
        Some(git_cache::CheckoutStep::Clone { announced, shallow }) => {
            assert_eq!(announced, format!("Cloning file:///srv/r.git into cache at {}", run.dir));
            assert!(!shallow, "a repository on this machine is not cloned shallowly");
        }
        _ => panic!("expected a clone"),
    }
    assert!(matches!(
        run.step(git_cache::CheckoutEvent::Cloned(Ok(()))),
        Some(git_cache::CheckoutStep::Done { line: None })
    ));
}

#[test]
fn a_checkout_names_what_failed() {
    let fail = |step: Option<git_cache::CheckoutStep>| match step {
        Some(git_cache::CheckoutStep::Fail(text)) => text,
        _ => panic!("expected a failure"),
    };
    let mut run = git_cache::ensure_checkout(DIRS, URL, Some("v1"));
    assert_eq!(
        fail(run.step(git_cache::CheckoutEvent::ParentMade(Err("full".to_string())))),
        "Failed to create git_checkouts parent /cache/checkouts: full"
    );
    let mut run = git_cache::ensure_checkout(DIRS, URL, Some("v1"));
    run.step(git_cache::CheckoutEvent::ParentMade(Ok(())));
    run.step(git_cache::CheckoutEvent::Looked { populated: false, present: false });
    assert_eq!(
        fail(run.step(git_cache::CheckoutEvent::Cloned(Err("offline".to_string())))),
        format!("Failed to clone {}: offline", URL)
    );
    let mut run = git_cache::ensure_checkout(DIRS, URL, Some("v1"));
    run.step(git_cache::CheckoutEvent::ParentMade(Ok(())));
    run.step(git_cache::CheckoutEvent::Looked { populated: true, present: true });
    assert_eq!(
        fail(run.step(git_cache::CheckoutEvent::Opened(Err("broken".to_string())))),
        format!("Failed to open cached checkout at {}: broken", run.dir)
    );
    let mut run = git_cache::ensure_checkout(DIRS, URL, Some("v1"));
    run.step(git_cache::CheckoutEvent::ParentMade(Ok(())));
    run.step(git_cache::CheckoutEvent::Looked { populated: false, present: false });
    run.step(git_cache::CheckoutEvent::Cloned(Ok(())));
    assert_eq!(
        fail(run.step(git_cache::CheckoutEvent::CheckedOut(Err("unknown".to_string())))),
        "Failed to checkout ref 'v1': unknown"
    );
}

fn bundle(sha256: Option<&str>) -> core_node::bundle_cache::ensure::EnsureBundle {
    let url = SourceUrl::parse("https://example.com/node.tar.zst").unwrap();
    ensure_bundle("/cache/bundles", &url, sha256)
}

#[test]
fn a_current_bundle_is_reused() {
    let mut run = bundle(Some("aa"));
    let event = BundleEvent::Checked {
        present: true,
        marker: Some("aa\n".to_string()),
        located: Some("/cache/bundles/x/node".to_string()),
    };
    match run.step(event) {
        Some(BundleStep::Reuse { root, announced }) => {
            assert_eq!(root, "/cache/bundles/x/node");
            assert_eq!(announced, "Reusing cached bundle at /cache/bundles/x/node");
        }
        _ => panic!("a current entry is reused"),
    }
}

#[test]
fn a_stale_bundle_is_replaced_and_recorded() {
    let mut run = bundle(Some("aa"));
    let target = run.target.clone();
    let event = BundleEvent::Checked {
        present: true,
        marker: Some("bb".to_string()),
        located: Some("/elsewhere".to_string()),
    };
    match run.step(event) {
        Some(BundleStep::DropStale { dir, .. }) => assert_eq!(dir, target),
        _ => panic!("an entry of another checksum is dropped"),
    }
    assert!(matches!(
        run.step(BundleEvent::StaleDropped),
        Some(BundleStep::MakeParent(ref dir)) if dir == "/cache/bundles"
    ));
    match run.step(BundleEvent::ParentMade(Ok(()))) {
        Some(BundleStep::Download { url, sha256 }) => {
            assert_eq!(url.text, "https://example.com/node.tar.zst");
            assert_eq!(sha256.as_deref(), Some("aa"));
        }
        _ => panic!("the archive is downloaded"),
    }
    let extracted = Extracted {
        source_path: "/tmp/op/extracted/node".to_string(),
        cleanup_dir: Some("/tmp/op".to_string()),
    };
    assert!(matches!(
        run.step(BundleEvent::Downloaded(Ok(extracted))),
        Some(BundleStep::Clear(ref dir)) if *dir == target
    ));
    assert!(matches!(run.step(BundleEvent::Cleared), Some(BundleStep::MakeParent(_))));
    match run.step(BundleEvent::ParentMade(Ok(()))) {
        Some(BundleStep::Promote { from, to }) => {
            assert_eq!(from, "/tmp/op/extracted/node");
            assert_eq!(to, target);
        }
        _ => panic!("the extracted directory is moved"),
    }
    assert!(matches!(
        run.step(BundleEvent::Promoted(Ok(()))),
        Some(BundleStep::DropDownload(ref dir)) if dir == "/tmp/op"
    ));
    match run.step(BundleEvent::DownloadDropped) {
        Some(BundleStep::Mark { path, content }) => {
            assert!(path.ends_with(".sha256"));
            assert_eq!(content, "aa");
        }
        _ => panic!("the checksum is recorded"),
    }
    assert!(matches!(
        run.step(BundleEvent::Marked(Ok(()))),
        Some(BundleStep::Locate(ref dir)) if *dir == target
    ));
    assert!(matches!(
        run.step(BundleEvent::Located(Ok("/root".to_string()))),
        Some(BundleStep::Done(ref root)) if root == "/root"
    ));
}

#[test]
fn a_bundle_names_what_failed() {
    let fail = |step: Option<BundleStep>| match step {
        Some(BundleStep::Fail(text)) => text,
        _ => panic!("expected a failure"),
    };
    let missing = || BundleEvent::Checked { present: false, marker: None, located: None };
    let mut run = bundle(None);
    assert_eq!(
        fail(run.step(BundleEvent::TaskFailed("gone".to_string()))),
        "Bundle cache join error: gone"
    );
    let mut run = bundle(None);
    run.step(missing());
    assert_eq!(
        fail(run.step(BundleEvent::ParentMade(Err("full".to_string())))),
        "Failed to create http_bundles parent /cache/bundles: full"
    );
    let mut run = bundle(None);
    run.step(missing());
    run.step(BundleEvent::ParentMade(Ok(())));
    assert_eq!(fail(run.step(BundleEvent::Downloaded(Err("offline".to_string())))), "offline");
    let mut run = bundle(None);
    run.step(missing());
    run.step(BundleEvent::ParentMade(Ok(())));
    let extracted = Extracted { source_path: "/x".to_string(), cleanup_dir: None };
    run.step(BundleEvent::Downloaded(Ok(extracted)));
    run.step(BundleEvent::Cleared);
    run.step(BundleEvent::ParentMade(Ok(())));
    assert_eq!(
        fail(run.step(BundleEvent::Promoted(Err("busy".to_string())))),
        format!("Failed to promote extracted bundle into cache at {}: busy", run.target)
    );
}
