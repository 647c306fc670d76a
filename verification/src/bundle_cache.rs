//! The cache of extracted archives, one for each URL and checksum.
use crate::archive::SourceUrl;
use crate::cache::key::{entry_for, entry_name};
use crate::paths::{extended_path, join_path, joined_path, with_extension};
use crate::text::{opt_str, str_eq, trim, trimmed};
use vstd::prelude::*;
use vstd::string::*;

pub mod ensure;

verus! {

/// Where the archive at a URL is extracted to.
pub open spec fn extract_path(
    bundles_dir: Seq<char>,
    url: Seq<char>,
    sha256: Option<Seq<char>>,
) -> Seq<char> {
    joined_path(bundles_dir, entry_name(url, sha256, "bundle"@))
}

/// Where the archive at a URL is extracted to, whether or not it is there.
pub fn extract_dir_for(bundles_dir: &str, url: &SourceUrl, sha256: Option<&str>) -> (r: String)
    ensures
        r@ == extract_path(bundles_dir@, url.text@, opt_str(sha256)),
{
    join_path(bundles_dir, entry_for(url.text.as_str(), sha256, "bundle").as_str())
}

/// The file beside an entry that records the entry's checksum.
pub fn marker_path(dir: &str) -> (r: String)
    ensures
        r@ == extended_path(dir@, "sha256"@),
{
    proof {
        reveal_strlit("sha256");
    }
    with_extension(dir, "sha256")
}

/// The checksum in a marker's content: without white space around it, and none
/// where nothing else is there.
pub open spec fn recorded(content: Option<Seq<char>>) -> Option<Seq<char>> {
    match content {
        Some(text) if trimmed(text).len() > 0 => Some(trimmed(text)),
        _ => None,
    }
}

/// The checksum in a marker's content, where the marker could be read.
pub fn recorded_sha(content: Option<&str>) -> (r: Option<String>)
    ensures
        match r {
            Some(sha) => recorded(opt_str(content)) == Some(sha@),
            None => recorded(opt_str(content)) is None,
        },
{
    match content {
        None => None,
        Some(text) => {
            let sha = trim(text);
            if sha.as_str().is_empty() {
                None
            } else {
                Some(sha)
            }
        },
    }
}

/// What is done with a cache entry.
pub enum CachedBundle {
    /// It is used, and this is the node's directory in it.
    Hit(String),
    /// There is nothing to use.
    Miss,
    /// Its checksum is another one: it is removed with its marker, and there is
    /// nothing to use.
    Stale,
}

/// Whether an entry's checksum is the one that is asked for; any is, where none
/// is asked for.
pub open spec fn is_current(sha256: Option<Seq<char>>, marker: Option<Seq<char>>) -> bool {
    match sha256 {
        None => true,
        Some(expected) => expected == (match recorded(marker) {
            Some(sha) => sha,
            None => ""@,
        }),
    }
}

/// What is done with a cache entry. `located` is the node's directory in it,
/// where it has one.
pub fn cached_node_root(
    present: bool,
    sha256: Option<&str>,
    marker: Option<&str>,
    located: &Option<String>,
) -> (r: CachedBundle)
    ensures
        if !present {
            r is Miss
        } else if !is_current(opt_str(sha256), opt_str(marker)) {
            r is Stale
        } else {
            match *located {
                Some(root) => r matches CachedBundle::Hit(told) && told@ == root@,
                None => r is Miss,
            }
        },
{
    if !present {
        return CachedBundle::Miss;
    }
    if let Some(expected) = sha256 {
        let found: String = match recorded_sha(marker) {
            Some(sha) => sha,
            None => "".to_owned(),
        };
        if !str_eq(found.as_str(), expected) {
            return CachedBundle::Stale;
        }
    }
    match located {
        Some(root) => CachedBundle::Hit(root.clone()),
        None => CachedBundle::Miss,
    }
}

/// The line about an entry that is used.
pub fn reuse_line(root: &str) -> (r: String)
    ensures
        r@ == "Reusing cached bundle at "@ + root@,
{
    let mut line: String = "Reusing cached bundle at ".to_owned();
    line.append(root);
    line
}

/// Why an archive could not be put into the cache.
pub enum BundleProblem {
    Join(String),
    Parent { path: String, why: String },
    Promote { path: String, why: String },
    Marker { path: String, why: String },
}

/// The text of a `BundleProblem`.
pub open spec fn problem_text(problem: BundleProblem) -> Seq<char> {
    match problem {
        BundleProblem::Join(why) => "Bundle cache join error: "@ + why@,
        BundleProblem::Parent { path, why } => "Failed to create http_bundles parent "@ + path@
            + ": "@ + why@,
        BundleProblem::Promote { path, why } => "Failed to promote extracted bundle into cache at "@
            + path@ + ": "@ + why@,
        BundleProblem::Marker { path, why } => "Failed to write bundle sha marker "@ + path@ + ": "@
            + why@,
    }
}

/// The text of a `BundleProblem`.
pub fn bundle_failure(problem: &BundleProblem) -> (r: String)
    ensures
        r@ == problem_text(*problem),
{
    match problem {
        BundleProblem::Join(why) => {
            let mut text: String = "Bundle cache join error: ".to_owned();
            text.append(why.as_str());
            text
        },
        BundleProblem::Parent { path, why } => {
            let mut text: String = "Failed to create http_bundles parent ".to_owned();
            text.append(path.as_str());
            text.append(": ");
            text.append(why.as_str());
            text
        },
        BundleProblem::Promote { path, why } => {
            let mut text: String = "Failed to promote extracted bundle into cache at ".to_owned();
            text.append(path.as_str());
            text.append(": ");
            text.append(why.as_str());
            text
        },
        BundleProblem::Marker { path, why } => {
            let mut text: String = "Failed to write bundle sha marker ".to_owned();
            text.append(path.as_str());
            text.append(": ");
            text.append(why.as_str());
            text
        },
    }
}

/// What an entry records is what it is used for: an entry made for a checksum,
/// with that checksum in its marker, is current for it, whatever white space
/// surrounds the record.
pub proof fn a_recorded_entry_is_current(sha256: Seq<char>, marker: Seq<char>)
    requires
        trimmed(marker) == sha256,
        sha256.len() > 0,
    ensures
        is_current(Some(sha256), Some(marker)),
{
}

/// An entry is used only where it is there, holds a node, and its marker records the
/// checksum that is asked for; one that records another is stale, and never used.
pub proof fn only_a_matching_entry_is_used(
    present: bool,
    sha256: Option<&str>,
    marker: Option<&str>,
    located: Option<String>,
    r: CachedBundle,
)
    requires
        call_ensures(cached_node_root, (present, sha256, marker, &located), r),
    ensures
        r is Hit ==> present && located is Some,
        r matches CachedBundle::Hit(root) ==> (located matches Some(dir) && root@ == dir@),
        r is Hit ==> (sha256 matches Some(expected) ==> (expected@.len() > 0 ==> (
        marker matches Some(text) && trimmed(text@) == expected@))),
        r is Stale ==> present && (sha256 matches Some(expected) && (marker matches Some(text)
            ==> trimmed(text@) != expected@)),
        present && sha256 is None ==> (r is Hit <==> located is Some),
        !present ==> r is Miss,
        present && (sha256 matches Some(expected) && expected@.len() > 0 && (
        marker matches Some(text) ==> trimmed(text@) != expected@)) ==> r is Stale,
{
    reveal_strlit("");
    if let Some(expected) = sha256 {
        if let Some(text) = marker {
            if trimmed(text@).len() == 0 {
                assert(trimmed(text@) =~= ""@);
            }
        }
    }
}

/// A record is what is left of a marker without the white space around it, and none
/// where nothing is left.
pub proof fn a_record_is_what_a_marker_holds(content: Option<&str>, r: Option<String>)
    requires
        call_ensures(recorded_sha, (content,), r),
    ensures
        r is Some <==> (content matches Some(text) && trimmed(text@).len() > 0),
        r matches Some(sha) ==> (content matches Some(text) && sha@ == trimmed(text@)),
{
}

} // verus!
