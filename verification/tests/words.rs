use core_node::archive::{
    is_supported_archive_path, is_supported_http_archive, listing_failure, locate_node_root_dir,
    ExtractedDir, ListingProblem, SourceUrl,
};
use core_node::common::{
    encoding_failure, generate_random_id, generate_uuid, id_of, panic_message, uuid_of,
    PanicPayload,
};
use core_node::git_utils::{
    checkout_candidates, fetches_shallowly, head_failure, is_local_url, progress_line,
    sanitize_repo_path, HeadProblem, ProgressThrottle, TransferVerb,
};
use core_node::order::{insert_text, side_of, sorted_set, Side};
use core_node::paths::{is_same_path, join_path};
use core_node::text::{
    ends_with, has_char, join, split, starts_with, to_decimal, to_hex, to_lower, to_upper, trim,
};
use core_node::time::Span;

#[test]
fn texts_are_trimmed_of_white_space() {
    assert_eq!(trim("  a b\t\n"), "a b");
    assert_eq!(trim("\u{3000}a\u{a0}"), "a");
    assert_eq!(trim(&trim(" x ")), "x");
    assert_eq!(trim(" \n"), "");
}

#[test]
fn texts_are_searched() {
    assert!(starts_with("abc", "ab") && !starts_with("abc", "b"));
    assert!(ends_with("abc", "bc") && !ends_with("c", "bc"));
    assert!(has_char("añb", 'ñ') && !has_char("ab", 'ñ'));
    assert_eq!(split("a/b//c", '/'), vec!["a", "b", "", "c"]);
    assert_eq!(join(&vec!["a".to_string(), "b".to_string()], ", "), "a, b");
}

#[test]
fn letters_change_their_case() {
    assert_eq!(to_lower("AB-Ä1"), "ab-Ä1", "only plain letters do");
    assert_eq!(to_upper("path_x1"), "PATH_X1");
}

#[test]
fn numbers_are_written_down() {
    assert_eq!(to_decimal(0), "0");
    assert_eq!(to_decimal(u64::MAX), "18446744073709551615");
    assert_eq!(to_hex(&[0, 15, 16, 255]), "000f10ff");
}

#[test]
fn texts_have_an_order() {
    assert!(matches!(side_of("a", "b"), Side::Before));
    assert!(matches!(side_of("b", "a"), Side::After));
    assert!(matches!(side_of("ab", "ab"), Side::Same));
    assert!(matches!(side_of("a", "ab"), Side::Before));
    let set = sorted_set(&vec!["b".to_string(), "a".to_string(), "b".to_string()]);
    assert_eq!(set, vec!["a", "b"]);
    let mut set = set;
    assert!(insert_text(&mut set, "aa".to_string()));
    assert!(!insert_text(&mut set, "aa".to_string()));
    assert_eq!(set, vec!["a", "aa", "b"]);
}

#[test]
fn paths_are_joined_with_one_slash() {
    assert_eq!(join_path("/a", "b"), "/a/b");
    assert_eq!(join_path("/a/", "b"), "/a/b");
    assert_eq!(join_path("", "b"), "b");
}

#[test]
fn archives_are_told_by_their_names() {
    for name in ["a.tar.zst", "a.tar.zstd", "a.tzst", "A.TAR.ZST"] {
        assert!(is_supported_archive_path(name), "{name}");
    }
    assert!(!is_supported_archive_path("a.tar.gz"));
    let url = SourceUrl::parse("HTTPS://Example.com/a/node.tar.zst?token=1").unwrap();
    assert_eq!(url.scheme, "https");
    assert_eq!(url.path, "/a/node.tar.zst");
    assert_eq!(url.text, "https://example.com/a/node.tar.zst?token=1");
    assert!(is_supported_http_archive(&url));
    assert!(SourceUrl::parse("no url").is_none());
}

#[test]
fn a_node_is_found_in_what_was_extracted() {
    let entry = |path: &str, has_config: bool| ExtractedDir { path: path.to_string(), has_config };
    assert_eq!(locate_node_root_dir("/x", true, &Ok(Vec::new())), Ok("/x".to_string()));
    assert_eq!(
        locate_node_root_dir("/x", false, &Ok(vec![entry("/x/a", false), entry("/x/b", true)])),
        Ok("/x/b".to_string())
    );
    assert!(locate_node_root_dir("/x", false, &Ok(vec![entry("/x/a", false)])).is_err());
    assert!(
        locate_node_root_dir("/x", false, &Ok(vec![entry("/x/a", true), entry("/x/b", true)]))
            .is_err()
    );
    assert_eq!(
        locate_node_root_dir("/x", false, &Err("unreadable".to_string())),
        Err("unreadable".to_string())
    );
    assert!(listing_failure("/x", &ListingProblem::Directory("no".to_string())).contains("/x"));
}

#[test]
fn ids_are_twelve_hexadecimal_digits() {
    assert_eq!(id_of(&[0, 1, 2, 253, 254, 255]), "000102fdfeff");
    let id = generate_random_id();
    assert_eq!(id.len(), 12);
    assert!(id.chars().all(|c| c.is_ascii_hexdigit()));
    let others: Vec<String> = (0..8).map(|_| generate_random_id()).collect();
    assert!(others.iter().any(|other| *other != id), "ids are drawn anew");
}

#[test]
fn uuids_are_marked_as_random_ones() {
    assert_eq!(uuid_of([255; 16]), "ffffffff-ffff-4fff-bfff-ffffffffffff");
    assert_eq!(uuid_of([0; 16]), "00000000-0000-4000-8000-000000000000");
    let bytes = [0, 1, 2, 3, 4, 5, 6, 7, 8, 9, 10, 11, 12, 13, 14, 15];
    assert_eq!(uuid_of(bytes), "00010203-0405-4607-8809-0a0b0c0d0e0f");
    assert_eq!(generate_uuid().len(), 36);
    assert_ne!(generate_uuid(), generate_uuid());
}

#[test]
fn panics_and_encodings_have_their_texts() {
    assert_eq!(panic_message(&PanicPayload::Text("boom".to_string())), "boom");
    assert!(!panic_message(&PanicPayload::Other).is_empty());
    assert_eq!(encoding_failure("bad"), "Failed to encode response: bad");
}

#[test]
fn paths_in_a_repository_stay_inside() {
    assert_eq!(sanitize_repo_path(" /arms/left "), Ok("arms/left".to_string()));
    assert!(sanitize_repo_path("").is_err());
    assert!(sanitize_repo_path("a/../../b").is_err());
    assert!(sanitize_repo_path("..").is_err());
    assert_eq!(sanitize_repo_path("a..b/c"), Ok("a..b/c".to_string()));
}

#[test]
fn a_ref_is_looked_for_under_its_names() {
    assert_eq!(
        checkout_candidates("v1"),
        vec!["v1", "refs/tags/v1", "refs/heads/v1", "refs/remotes/origin/v1"]
    );
    assert!(checkout_candidates("  ").is_empty());
    assert!(is_local_url("/srv/r.git") && is_local_url("file:///r") && !is_local_url("git@x:y"));
    assert!(fetches_shallowly("https://x/y", true) && !fetches_shallowly("/srv/r.git", true));
    assert!(head_failure(&HeadProblem::NoHead("x".to_string())).contains('x'));
}

#[test]
fn progress_is_told_now_and_again() {
    let line = progress_line(TransferVerb::Cloning, "https://x/y", 5, 10, "1.0 MB");
    assert!(line.starts_with("Cloning") && line.contains("1.0 MB"), "{line}");
    let mut throttle = ProgressThrottle::new();
    assert!(throttle.is_due(Span::from_millis(0)));
    assert!(!throttle.is_due(Span::from_millis(499)));
    assert!(throttle.is_due(Span::from_millis(500)));
}

#[test]
fn white_space_is_what_unicode_lists() {
    for c in '\u{0}'..=char::MAX {
        assert_eq!(trim(&c.to_string()).is_empty(), c.is_whitespace(), "{c:?}");
    }
}

#[test]
fn paths_are_compared_by_their_components() {
    let paths = [
        "", "/", "//", ".", "./", "..", "/.", "/..", "a", "a/", "a//", "./a", ".//a", "././a",
        "a/.", "a/./b", "a/b", "a//b", "/a", "/a/b", "//a/b", "/./a/b", "/a/b/.", "/a/../b",
        "a/..", "../a", "/run//agent.sock", "/run/agent.sock", ".a", "a.", "/.a",
    ];
    for a in paths {
        for b in paths {
            let same = std::path::Path::new(a) == std::path::Path::new(b);
            assert_eq!(is_same_path(a, b), same, "{a:?} and {b:?}");
        }
    }
    assert!(is_same_path("/run//agent.sock", "/run/./agent.sock/"));
    assert!(!is_same_path("./a", "a"));
}
