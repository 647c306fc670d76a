use core_node::archive::SourceUrl;
use core_node::bundle_cache::{
    bundle_failure, cached_node_root, extract_dir_for, marker_path, recorded_sha, reuse_line,
    BundleProblem, CachedBundle,
};
use core_node::cache::key::{entry_for, short_hash, slug};
use core_node::cache::keyed_lock::KeyedLocks;
use core_node::cache::materialize::{
    parse_failure, root_of_entry, silent_feedback, MaterializeFeedback, Materialized,
};
use core_node::git_cache::{cache_hash, hex_short, is_populated, url_slug};

#[test]
fn slug_sanitizes_url_characters() {
    assert_eq!(
        slug("https://github.com/foo/bar.git", "repo"),
        "https___github.com_foo_bar.git"
    );
}

#[test]
fn slug_returns_fallback_for_empty_cleaned_string() {
    assert_eq!(slug("", "repo"), "repo");
    assert_eq!(slug("////", "bundle"), "bundle");
}

#[test]
fn short_hash_differs_on_qualifier() {
    let a = short_hash("https://example.com/repo.git", Some("v1"));
    let b = short_hash("https://example.com/repo.git", Some("v2"));
    let c = short_hash("https://example.com/repo.git", None);
    assert_ne!(a, b);
    assert_ne!(a, c);
}

#[test]
fn short_hash_stable_for_same_input() {
    let a = short_hash("https://example.com/repo.git", Some("main"));
    let b = short_hash("https://example.com/repo.git", Some("main"));
    assert_eq!(a, b);
}

#[test]
fn short_hash_is_the_beginning_of_the_sha256() {
    // SHA-256 of "a\0b" and of "a\0".
    assert_eq!(short_hash("a", Some("b")), "59b271ae1bbcb1d3");
    assert_eq!(short_hash("a", None), "ffe9aaeaa2a2d504");
}

#[test]
fn slug_is_cut_to_forty_characters() {
    let long = "x".repeat(60);
    assert_eq!(slug(&long, "repo"), "x".repeat(40));
}

#[test]
fn a_slug_is_a_plain_name_on_values() {
    let name = slug("../../etc/passwd", "repo");
    assert!(!name.contains('/'));
    assert_eq!(name, ".._.._etc_passwd");
}

#[test]
fn url_slug_rejects_dangerous_chars() {
    assert_eq!(
        url_slug("https://github.com/foo/bar.git"),
        "https___github.com_foo_bar.git"
    );
    assert_eq!(url_slug(""), "repo");
}

#[test]
fn cache_hash_is_sixteen_hexadecimal_digits() {
    let hash = cache_hash("https://example.com/repo.git", Some("v1"));
    assert_eq!(hash.len(), 16);
    assert!(hash.chars().all(|c| c.is_ascii_hexdigit()));
    assert_eq!(hash, short_hash("https://example.com/repo.git", Some("v1")));
}

#[test]
fn hex_short_writes_two_digits_for_each_byte() {
    assert_eq!(hex_short(&[0, 1, 171, 255]), "0001abff");
}

#[test]
fn checkout_dir_for_distinct_refs_distinct_dirs() {
    let a = core_node::git_cache::checkout_dir_for("/d", "https://example.com/repo.git", Some("v1"));
    let b = core_node::git_cache::checkout_dir_for("/d", "https://example.com/repo.git", Some("v2"));
    let c = core_node::git_cache::checkout_dir_for("/d", "https://example.com/repo.git", None);
    assert_ne!(a, b);
    assert_ne!(a, c);
    assert_ne!(b, c);
}

#[test]
fn checkout_dir_for_same_url_same_ref_same_dir() {
    let a =
        core_node::git_cache::checkout_dir_for("/d", "https://example.com/repo.git", Some("main"));
    let b =
        core_node::git_cache::checkout_dir_for("/d", "https://example.com/repo.git", Some("main"));
    assert_eq!(a, b);
}

#[test]
fn checkout_dirs_stand_below_the_cache_directory() {
    let dir =
        core_node::git_cache::checkout_dir_for("/d/checkouts", "https://example.com/r", Some("v1"));
    let expected = format!(
        "/d/checkouts/https___example.com_r-{}",
        short_hash("https://example.com/r", Some("v1"))
    );
    assert_eq!(dir, expected);
}

#[test]
fn a_working_tree_is_told_by_its_git_directory() {
    assert!(is_populated("/d/x", |path: &str| path == "/d/x/.git"));
    assert!(!is_populated("/d/x", |path: &str| path == "/d/x"));
}

#[test]
fn extract_dir_for_distinct_sha_distinct_dirs() {
    let url = SourceUrl::parse("https://example.com/node.tar.zst").unwrap();
    let a = extract_dir_for("/d", &url, Some("aa"));
    let b = extract_dir_for("/d", &url, Some("bb"));
    assert_ne!(a, b);
}

#[test]
fn extract_dir_for_same_url_and_sha_same_dir() {
    let url = SourceUrl::parse("https://example.com/node.tar.zst").unwrap();
    let a = extract_dir_for("/d", &url, Some("aa"));
    let b = extract_dir_for("/d", &url, Some("aa"));
    assert_eq!(a, b);
}

#[test]
fn an_entry_is_named_after_its_url_and_hash() {
    let name = entry_for("https://example.com/node.tar.zst", None, "bundle");
    assert_eq!(
        name,
        format!(
            "https___example.com_node.tar.zst-{}",
            short_hash("https://example.com/node.tar.zst", None)
        )
    );
}

#[test]
fn a_marker_stands_beside_its_entry() {
    assert_eq!(marker_path("/cache/entry-0123"), "/cache/entry-0123.sha256");
    // What stands behind a dot in the last name is replaced.
    assert_eq!(marker_path("/cache/node.tar"), "/cache/node.sha256");
}

#[test]
fn a_recorded_checksum_is_read_without_white_space() {
    assert_eq!(recorded_sha(Some("  abc\n")), Some("abc".to_string()));
    assert_eq!(recorded_sha(Some(" \n")), None);
    assert_eq!(recorded_sha(None), None);
}

#[test]
fn only_a_current_entry_is_used() {
    let root = Some("/cache/e/node".to_string());
    assert!(matches!(
        cached_node_root(true, Some("aa"), Some("aa\n"), &root),
        CachedBundle::Hit(dir) if dir == "/cache/e/node"
    ));
    assert!(matches!(cached_node_root(true, Some("aa"), Some("bb"), &root), CachedBundle::Stale));
    assert!(matches!(cached_node_root(true, Some("aa"), None, &root), CachedBundle::Stale));
    assert!(matches!(cached_node_root(true, None, None, &root), CachedBundle::Hit(_)));
    assert!(matches!(cached_node_root(true, None, None, &None), CachedBundle::Miss));
    assert!(matches!(cached_node_root(false, Some("aa"), Some("aa"), &root), CachedBundle::Miss));
}

#[test]
fn bundle_problems_have_their_texts() {
    assert_eq!(
        bundle_failure(&BundleProblem::Join("gone".to_string())),
        "Bundle cache join error: gone"
    );
    assert_eq!(
        bundle_failure(&BundleProblem::Parent { path: "/p".to_string(), why: "no".to_string() }),
        "Failed to create http_bundles parent /p: no"
    );
    assert_eq!(
        bundle_failure(&BundleProblem::Promote { path: "/t".to_string(), why: "no".to_string() }),
        "Failed to promote extracted bundle into cache at /t: no"
    );
    assert_eq!(
        bundle_failure(&BundleProblem::Marker { path: "/m".to_string(), why: "no".to_string() }),
        "Failed to write bundle sha marker /m: no"
    );
    assert_eq!(reuse_line("/r"), "Reusing cached bundle at /r");
}

#[test]
fn callers_on_one_directory_share_a_lock() {
    let mut locks = KeyedLocks::new();
    let first = locks.lock_for("/a");
    let second = locks.lock_for("/a");
    let other = locks.lock_for("/b");
    assert_eq!(first, second);
    assert_ne!(first, other);
}

#[test]
fn a_lock_that_nobody_holds_is_forgotten() {
    let mut locks = KeyedLocks::new();
    let first = locks.lock_for("/a");
    locks.lock_for("/a");
    locks.release(first);
    assert_eq!(locks.lock_for("/a"), first, "one holder is left");
    locks.release(first);
    locks.release(first);
    let again = locks.lock_for("/a");
    assert_ne!(again, first);
    assert_eq!(locks.entries.len(), 1);
}

#[test]
fn an_entry_is_built_from_the_directory_of_its_file() {
    let outcome =
        Materialized::Resolved { manifest_path: "/n/arm/peppy.json5".to_string(), parsed: Ok(()) };
    assert_eq!(root_of_entry("arm", "v1", &outcome), Ok("/n/arm".to_string()));
    let outcome =
        Materialized::Resolved { manifest_path: "/".to_string(), parsed: Ok(()) };
    assert_eq!(
        root_of_entry("arm", "v1", &outcome),
        Err("node `arm:v1` resolved to /, which has no parent directory".to_string())
    );
    let outcome = Materialized::Resolved {
        manifest_path: "/n/arm/peppy.json5".to_string(),
        parsed: Err("bad".to_string()),
    };
    assert_eq!(
        root_of_entry("arm", "v1", &outcome),
        Err("Failed to parse node config at /n/arm/peppy.json5: bad".to_string())
    );
    assert_eq!(
        root_of_entry("arm", "v1", &Materialized::TaskFailed("gone".to_string())),
        Err("materialization task for `arm:v1` failed: gone".to_string())
    );
    assert_eq!(
        root_of_entry("arm", "v1", &Materialized::Unresolved("no".to_string())),
        Err("node `arm:v1`: no".to_string())
    );
    assert_eq!(parse_failure("/c", "bad"), "Failed to parse node config at /c: bad");
}

#[test]
fn silent_feedback_keeps_no_line() {
    let mut silent = silent_feedback();
    silent.emit("a line".to_string());
    assert!(silent.lines.is_empty());
    let mut audible = MaterializeFeedback { audible: true, lines: Vec::new() };
    audible.emit("a line".to_string());
    assert_eq!(audible.lines, vec!["a line".to_string()]);
}
