//! Archives of nodes: which files and URLs are taken for one, and where the node
//! is in what was extracted.
use crate::order::{lemma_picked_next, lemma_picked_none, picked, picked_at};
use crate::paths::{join_path, joined_path};
use crate::text::{ends_with, has_suffix, lowered, to_lower};
use vstd::prelude::*;
use vstd::string::*;

verus! {

/// The file that declares a node.
pub const NODE_CONFIG_FILE: &'static str = "peppy.json5";

/// Whether a path ends like an archive, in capitals or not.
pub open spec fn is_archive(path: Seq<char>) -> bool {
    let low = lowered(path);
    has_suffix(low, ".tar.zst"@) || has_suffix(low, ".tar.zstd"@) || has_suffix(low, ".tzst"@)
}

/// Whether a path ends like an archive, in capitals or not.
pub fn is_supported_archive_path(path: &str) -> (r: bool)
    ensures
        r == is_archive(path@),
{
    let low = to_lower(path);
    ends_with(low.as_str(), ".tar.zst") || ends_with(low.as_str(), ".tar.zstd") || ends_with(
        low.as_str(),
        ".tzst",
    )
}

/// Whether a file is taken for an archive.
pub fn is_supported_fs_archive(path: &str) -> (r: bool)
    ensures
        r == is_archive(path@),
{
    is_supported_archive_path(path)
}

/// What a URL consists of, as far as sources need it: its text in full, its
/// scheme and its path; nothing for a text that is no URL.
pub uninterp spec fn url_parts(text: Seq<char>) -> Option<(Seq<char>, Seq<char>, Seq<char>)>;

/// `url::Url::parse`, and of the URL its `as_str`, `scheme` and `path`: functions
/// of the text alone.
#[verifier::external_body]
fn parse_url(text: &str) -> (r: Option<(String, String, String)>)
    ensures
        match r {
            Some(parts) => url_parts(text@) == Some((parts.0@, parts.1@, parts.2@)),
            None => url_parts(text@) is None,
        },
{
    match url::Url::parse(text) {
        Ok(url) => Some(
            (url.as_str().to_owned(), url.scheme().to_owned(), url.path().to_owned()),
        ),
        Err(_) => None,
    }
}

/// The URL of a source.
pub struct SourceUrl {
    /// The URL in full.
    pub text: String,
    pub scheme: String,
    pub path: String,
}

impl View for SourceUrl {
    type V = (Seq<char>, Seq<char>, Seq<char>);

    open spec fn view(&self) -> (Seq<char>, Seq<char>, Seq<char>) {
        (self.text@, self.scheme@, self.path@)
    }
}

impl Clone for SourceUrl {
    fn clone(&self) -> (r: Self)
        ensures
            r@ == self@,
    {
        SourceUrl {
            text: self.text.clone(),
            scheme: self.scheme.clone(),
            path: self.path.clone(),
        }
    }
}

impl SourceUrl {
    /// Reads a URL; nothing where the text is none.
    pub fn parse(text: &str) -> (r: Option<SourceUrl>)
        ensures
            match r {
                Some(url) => url_parts(text@) == Some((url.text@, url.scheme@, url.path@)),
                None => url_parts(text@) is None,
            },
    {
        match parse_url(text) {
            Some((text, scheme, path)) => Some(SourceUrl { text, scheme, path }),
            None => None,
        }
    }
}

/// Whether a URL is taken for that of an archive.
pub fn is_supported_http_archive(url: &SourceUrl) -> (r: bool)
    ensures
        r == is_archive(url.path@),
{
    is_supported_archive_path(url.path.as_str())
}

/// An entry of an extracted archive's directory.
pub struct ExtractedDir {
    pub path: String,
    /// Whether it is a directory that holds a node's declaration.
    pub has_config: bool,
}

/// The directories that hold a node's declaration, in order.
pub open spec fn node_dirs(entries: Seq<ExtractedDir>) -> Seq<Seq<char>>
    decreases entries.len(),
{
    if entries.len() == 0 {
        Seq::empty()
    } else {
        let before = node_dirs(entries.drop_last());
        if entries.last().has_config {
            before.push(entries.last().path@)
        } else {
            before
        }
    }
}

/// The refusal of an archive without a node, or with several.
pub open spec fn no_node_text() -> Seq<char> {
    "Bundle does not contain "@ + NODE_CONFIG_FILE@
        + " at the root (or exactly one top-level folder)"@
}

/// Where the node is in what was extracted: at the root, or in the one folder
/// there that holds a node. `entries` are the entries of the root, or why they
/// could not be listed.
pub fn locate_node_root_dir(
    extracted_dir: &str,
    config_at_root: bool,
    entries: &Result<Vec<ExtractedDir>, String>,
) -> (r: Result<String, String>)
    ensures
        if config_at_root {
            r matches Ok(dir) && dir@ == extracted_dir@
        } else {
            match *entries {
                Err(why) => r matches Err(text) && text@ == why@,
                Ok(list) => {
                    let dirs = node_dirs(list@);
                    match r {
                        Ok(dir) => dirs.len() == 1 && dir@ == dirs[0],
                        Err(text) => dirs.len() != 1 && text@ == no_node_text(),
                    }
                },
            }
        },
{
    if config_at_root {
        return Ok(extracted_dir.to_owned());
    }
    let list = match entries {
        Err(why) => {
            return Err(why.clone());
        },
        Ok(list) => list,
    };
    let mut found: usize = 0;
    let mut at: usize = 0;
    let mut i: usize = 0;
    proof {
        assert(node_dirs(list@.take(0)).len() == 0);
    }
    while i < list.len()
        invariant
            i <= list@.len(),
            found <= i,
            found == node_dirs(list@.take(i as int)).len(),
            found > 0 ==> at < list@.len() && node_dirs(list@.take(i as int)).last()
                == list@[at as int].path@,
        decreases list.len() - i,
    {
        proof {
            assert(list@.take(i + 1).drop_last() =~= list@.take(i as int));
        }
        if list[i].has_config {
            found += 1;
            at = i;
        }
        i += 1;
    }
    proof {
        assert(list@.take(list@.len() as int) =~= list@);
    }
    if found == 1 {
        return Ok(list[at].path.clone());
    }
    let mut text: String = "Bundle does not contain ".to_owned();
    text.append(NODE_CONFIG_FILE);
    text.append(" at the root (or exactly one top-level folder)");
    Err(text)
}

/// Why the directory of an extracted archive could not be read.
pub enum ListingProblem {
    Directory(String),
    Entry(String),
    EntryKind { entry: String, why: String },
}

/// The text of a `ListingProblem`.
pub fn listing_failure(extracted_dir: &str, problem: &ListingProblem) -> (r: String)
    ensures
        r@ == match *problem {
            ListingProblem::Directory(why) => "Failed to list extracted bundle directory "@
                + extracted_dir@ + ": "@ + why@,
            ListingProblem::Entry(why) => "Failed to read extracted bundle directory entry in "@
                + extracted_dir@ + ": "@ + why@,
            ListingProblem::EntryKind { entry, why } =>
                "Failed to read file type for extracted bundle entry "@ + entry@ + ": "@ + why@,
        },
{
    match problem {
        ListingProblem::Directory(why) => {
            let mut text: String = "Failed to list extracted bundle directory ".to_owned();
            text.append(extracted_dir);
            text.append(": ");
            text.append(why.as_str());
            text
        },
        ListingProblem::Entry(why) => {
            let mut text: String = "Failed to read extracted bundle directory entry in ".to_owned();
            text.append(extracted_dir);
            text.append(": ");
            text.append(why.as_str());
            text
        },
        ListingProblem::EntryKind { entry, why } => {
            let mut text: String =
                "Failed to read file type for extracted bundle entry ".to_owned();
            text.append(entry.as_str());
            text.append(": ");
            text.append(why.as_str());
            text
        },
    }
}

/// The path of a node's declaration in its directory.
pub fn config_path_in(dir: &str) -> (r: String)
    ensures
        r@ == joined_path(dir@, NODE_CONFIG_FILE@),
{
    join_path(dir, NODE_CONFIG_FILE)
}

/// Whether a path in small letters is this beginning with the ending of an archive
/// behind it.
pub open spec fn is_named_archive(low: Seq<char>, head: Seq<char>) -> bool {
    low == head + ".tar.zst"@ || low == head + ".tar.zstd"@ || low == head + ".tzst"@
}

/// A file is taken for an archive exactly where its path, in small letters, is some
/// beginning with one of the three endings behind it.
pub proof fn an_archive_ends_like_one(path: &str, r: bool)
    requires
        call_ensures(is_supported_archive_path, (path,), r),
    ensures
        r <==> exists|head: Seq<char>| #[trigger] is_named_archive(lowered(path@), head),
{
    let low = lowered(path@);
    if r {
        let suffix = if has_suffix(low, ".tar.zst"@) {
            ".tar.zst"@
        } else if has_suffix(low, ".tar.zstd"@) {
            ".tar.zstd"@
        } else {
            ".tzst"@
        };
        let head = low.take(low.len() - suffix.len());
        assert(low =~= head + suffix) by {
            assert(low.skip(low.len() - suffix.len()) == suffix);
        }
        assert(is_named_archive(low, head));
    }
    if exists|head: Seq<char>| #[trigger] is_named_archive(low, head) {
        let head = choose|head: Seq<char>| #[trigger] is_named_archive(low, head);
        assert((head + ".tar.zst"@).skip(head.len() as int) =~= ".tar.zst"@);
        assert((head + ".tar.zstd"@).skip(head.len() as int) =~= ".tar.zstd"@);
        assert((head + ".tzst"@).skip(head.len() as int) =~= ".tzst"@);
    }
}

/// Whether the entry at a place holds a node's declaration.
pub open spec fn declares(entries: Seq<ExtractedDir>) -> spec_fn(int) -> bool {
    |k: int| 0 <= k < entries.len() && entries[k].has_config
}

/// The path of the entry at a place.
pub open spec fn path_at(entries: Seq<ExtractedDir>) -> spec_fn(int) -> Seq<char> {
    |k: int| entries[k].path@
}

/// The directories of nodes are those of the entries that declare one, in order.
proof fn lemma_node_dirs(entries: Seq<ExtractedDir>, n: int)
    requires
        0 <= n <= entries.len(),
    ensures
        picked(n, declares(entries), path_at(entries), node_dirs(entries.take(n))),
    decreases n,
{
    if n == 0 {
        lemma_picked_none(declares(entries), path_at(entries));
        assert(node_dirs(entries.take(0)) =~= Seq::<Seq<char>>::empty());
    } else {
        lemma_node_dirs(entries, n - 1);
        lemma_picked_next(
            n - 1,
            declares(entries),
            path_at(entries),
            node_dirs(entries.take(n - 1)),
        );
        assert(entries.take(n).drop_last() =~= entries.take(n - 1));
    }
}

/// A node is found exactly where the root declares one or exactly one entry does, and
/// it is found there.
pub proof fn the_one_node_of_an_archive_is_found(
    extracted_dir: &str,
    config_at_root: bool,
    entries: Result<Vec<ExtractedDir>, String>,
    r: Result<String, String>,
)
    requires
        call_ensures(locate_node_root_dir, (extracted_dir, config_at_root, &entries), r),
    ensures
        config_at_root ==> (r matches Ok(dir) && dir@ == extracted_dir@),
        !config_at_root ==> (entries matches Err(why) ==> (r matches Err(text) && text@ == why@)),
        !config_at_root ==> (entries matches Ok(list) ==> (r is Ok <==> exists|k: int|
            0 <= k < list@.len() && (#[trigger] list@[k]).has_config && forall|j: int|
                0 <= j < list@.len() && j != k ==> !(#[trigger] list@[j]).has_config)),
        !config_at_root ==> (entries matches Ok(list) ==> (r matches Ok(dir) ==> exists|k: int|
            0 <= k < list@.len() && (#[trigger] list@[k]).has_config && list@[k].path@ == dir@)),
{
    if !config_at_root {
        if let Ok(list) = entries {
            let n = list@.len() as int;
            let wanted = declares(list@);
            let told = path_at(list@);
            let dirs = node_dirs(list@);
            lemma_node_dirs(list@, n);
            assert(list@.take(n) =~= list@);
            let at = choose|at: Seq<int>| #[trigger] picked_at(n, wanted, told, dirs, at);
            if r is Ok {
                let k = at[0];
                assert(wanted(k));
                assert(list@[k].has_config && list@[k].path@ == dirs[0]);
                assert forall|j: int| 0 <= j < n && j != k implies !(#[trigger] list@[j]).has_config by {
                    if list@[j].has_config {
                        assert(wanted(j));
                        let i = choose|i: int| 0 <= i < at.len() && at[i] == j;
                        assert(i == 0);
                    }
                }
            } else if exists|k: int|
                0 <= k < n && (#[trigger] list@[k]).has_config && forall|j: int|
                    0 <= j < n && j != k ==> !(#[trigger] list@[j]).has_config {
                let k = choose|k: int|
                    0 <= k < n && (#[trigger] list@[k]).has_config && forall|j: int|
                        0 <= j < n && j != k ==> !(#[trigger] list@[j]).has_config;
                assert(wanted(k));
                let i = choose|i: int| 0 <= i < at.len() && at[i] == k;
                if at.len() > 1 {
                    let other: int = if i == 0 {
                        1
                    } else {
                        0
                    };
                    assert(at[0] < at[1]);
                    assert(wanted(at[other]));
                    if i > 1 {
                        assert(at[0] < at[i]);
                    }
                    assert(list@[at[other]].has_config);
                }
            }
        }
    }
}

} // verus!
