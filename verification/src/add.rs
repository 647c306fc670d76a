//! Adding a node to the stack: where it comes from, what is checked before it is
//! taken, and what is cleaned up on every way out.
pub mod download;
pub mod git;
pub mod http;
pub mod machine;
pub mod staged;

use crate::archive::{
    config_path_in, is_archive, is_supported_fs_archive, SourceUrl, NODE_CONFIG_FILE,
};
use self::git::GitUrl;
use crate::common::{generate_uuid, uuid_text};
use crate::order::{lemma_picked_next, lemma_picked_none, picked};
use crate::paths::{file_name, joined_path, last_name};
use crate::remove::TrackedInstance;
use crate::run::watch::InstanceState;
use crate::text::{mentions, str_eq, texts, what_is_written_is_mentioned};
use vstd::prelude::*;
use vstd::string::*;

verus! {

/// A directory that is removed in the end, unless somebody takes it.
pub struct CleanupDir(pub Option<String>);

impl CleanupDir {
    /// A directory to remove in the end, where there is one.
    pub fn new(dir: Option<String>) -> (r: Self)
        ensures
            r.0 == dir,
    {
        CleanupDir(dir)
    }

    /// Takes the directory: it is not removed any more.
    pub fn take(&mut self) -> (r: Option<String>)
        ensures
            r == old(self).0,
            final(self).0 is None,
    {
        self.0.take()
    }
}

/// Where a node comes from.
pub enum NodeSource {
    /// A directory or an archive on this machine.
    Fs(String),
    /// A path in a repository, at a ref.
    Git { repo_url: GitUrl, repo_path: String, repo_ref: Option<String> },
    /// An archive at a URL.
    Http { url: SourceUrl, sha256: Option<String> },
    /// A node of a repository that this machine knows.
    RepoNode { name: String, tag: String },
}

/// What is checked of a source. A launch of the stack skips the checks that
/// compare a node with what its author last generated.
#[derive(Clone, Copy, Debug, PartialEq, Eq, Structural)]
pub struct SourceChecks {
    /// Generate what is missing beside the sources.
    pub auto_sync: bool,
    /// Compare the generator's commit with the goal's, beside the sources.
    pub hash_of_dir: bool,
    /// The same, in an extracted archive.
    pub hash_of_archive: bool,
    /// Compare the fingerprint of the declaration with the generated one.
    pub fingerprint: bool,
}

/// What is checked of a source, and whether the add is part of a launch.
pub open spec fn checks_of(source: NodeSource, launch: bool) -> SourceChecks {
    match source {
        NodeSource::Fs(path) => SourceChecks {
            auto_sync: !launch && !is_archive(path@),
            hash_of_dir: !launch && !is_archive(path@),
            hash_of_archive: !launch && is_archive(path@),
            fingerprint: !launch,
        },
        _ => SourceChecks {
            auto_sync: false,
            hash_of_dir: false,
            hash_of_archive: false,
            fingerprint: false,
        },
    }
}

/// What is checked of a source. `launch_marker` stands in place of the commit in
/// the goals of a launch.
pub fn source_checks(source: &NodeSource, git_hash: &str, launch_marker: &str) -> (r: SourceChecks)
    ensures
        r == checks_of(*source, git_hash@ == launch_marker@),
{
    let launch = str_eq(git_hash, launch_marker);
    match source {
        NodeSource::Fs(path) => {
            let archive = is_supported_fs_archive(path.as_str());
            SourceChecks {
                auto_sync: !launch && !archive,
                hash_of_dir: !launch && !archive,
                hash_of_archive: !launch && archive,
                fingerprint: !launch,
            }
        },
        _ => SourceChecks {
            auto_sync: false,
            hash_of_dir: false,
            hash_of_archive: false,
            fingerprint: false,
        },
    }
}

/// Only sources on this machine are checked, and those of a launch are not.
pub proof fn a_launch_checks_nothing(source: NodeSource, launch: bool)
    ensures
        launch || !(source is Fs) ==> checks_of(source, launch) == (SourceChecks {
            auto_sync: false,
            hash_of_dir: false,
            hash_of_archive: false,
            fingerprint: false,
        }),
        !(checks_of(source, launch).hash_of_dir && checks_of(source, launch).hash_of_archive),
        checks_of(source, launch).fingerprint == (checks_of(source, launch).hash_of_dir
            || checks_of(source, launch).hash_of_archive),
{
}

/// How a source is brought here.
pub enum SourceWork {
    /// Extract the archive, compare the generator's commit in it where that is
    /// asked for, and remove it in the end.
    Extract { verify_hash: bool },
    /// Read the declaration in the directory, which stays as it is.
    Read { config_path: String },
    /// Clone the repository, announced by this line.
    Clone { announced: String },
    /// Download the archive, announced by this line.
    Download { announced: String },
}

/// How a source is brought here; and the refusal of one that does not belong
/// here.
pub fn resolve_node_add_source(source: &NodeSource, git_hash: &str, launch_marker: &str) -> (r:
    Result<SourceWork, String>)
    ensures
        match *source {
            NodeSource::Fs(path) => if is_archive(path@) {
                r == Ok::<SourceWork, String>(
                    SourceWork::Extract {
                        verify_hash: checks_of(
                            *source,
                            git_hash@ == launch_marker@,
                        ).hash_of_archive,
                    },
                )
            } else {
                r matches Ok(SourceWork::Read { config_path }) && config_path@ == joined_path(
                    path@,
                    NODE_CONFIG_FILE@,
                )
            },
            NodeSource::Git { repo_url, .. } => r matches Ok(SourceWork::Clone { announced })
                && announced@ == "Cloning repository "@ + repo_url.shown@ + "..."@,
            NodeSource::Http { url, .. } => r matches Ok(SourceWork::Download { announced })
                && announced@ == "Downloading bundle from "@ + url.text@ + "..."@,
            NodeSource::RepoNode { .. } => r matches Err(text) && text@
                == "internal error: RepoNode reached the single-source add path"@,
        },
{
    match source {
        NodeSource::Fs(path) => {
            if is_supported_fs_archive(path.as_str()) {
                let checks = source_checks(source, git_hash, launch_marker);
                return Ok(SourceWork::Extract { verify_hash: checks.hash_of_archive });
            }
            Ok(SourceWork::Read { config_path: config_path_in(path.as_str()) })
        },
        NodeSource::Git { repo_url, .. } => {
            let mut announced: String = "Cloning repository ".to_owned();
            announced.append(repo_url.shown.as_str());
            announced.append("...");
            Ok(SourceWork::Clone { announced })
        },
        NodeSource::Http { url, .. } => {
            let mut announced: String = "Downloading bundle from ".to_owned();
            announced.append(url.text.as_str());
            announced.append("...");
            Ok(SourceWork::Download { announced })
        },
        NodeSource::RepoNode { .. } => Err(
            "internal error: RepoNode reached the single-source add path".to_owned(),
        ),
    }
}

/// A node's name and tag in a file's name.
pub open spec fn log_label(name: Seq<char>, tag: Seq<char>) -> Seq<char> {
    name + "_"@ + tag
}

/// A node's name and tag in a file's name.
fn label_words(name: &str, tag: &str) -> (r: String)
    ensures
        r@ == log_label(name@, tag@),
{
    let mut text: String = name.to_owned();
    text.append("_");
    text.append(tag);
    text
}

/// The label of a source on this machine. `in_archive` is the identity that an
/// archive declares, `in_dir` the one that a directory does.
pub open spec fn fs_label(
    path: Seq<char>,
    in_archive: Option<(String, String)>,
    in_dir: Option<(String, String)>,
) -> Seq<char> {
    match (is_archive(path), in_archive) {
        (true, Some(node)) => log_label(node.0@, node.1@),
        _ => match in_dir {
            Some(node) => log_label(node.0@, node.1@),
            None => match last_name(path) {
                Some(name) => name,
                None => "unknown"@,
            },
        },
    }
}

/// A label for an add's log before the source is brought here: the node's name
/// and tag where they are at hand, else a UUID, which tells the add apart.
pub fn log_label_from_source(
    source: &NodeSource,
    in_archive: &Option<(String, String)>,
    in_dir: &Option<(String, String)>,
) -> (r: String)
    ensures
        match *source {
            NodeSource::Fs(path) => r@ == fs_label(path@, *in_archive, *in_dir),
            NodeSource::RepoNode { name, tag } => r@ == log_label(name@, tag@),
            _ => exists|bytes: Seq<u8>| bytes.len() == 16 && r@ == #[trigger] uuid_text(bytes),
        },
{
    match source {
        NodeSource::Fs(path) => {
            if is_supported_fs_archive(path.as_str()) {
                if let Some(node) = in_archive {
                    return label_words(node.0.as_str(), node.1.as_str());
                }
            }
            if let Some(node) = in_dir {
                return label_words(node.0.as_str(), node.1.as_str());
            }
            match file_name(path.as_str()) {
                Some(name) => name,
                None => "unknown".to_owned(),
            }
        },
        NodeSource::Git { .. } | NodeSource::Http { .. } => generate_uuid(),
        NodeSource::RepoNode { name, tag } => label_words(name.as_str(), tag.as_str()),
    }
}

/// The name of an add's log.
pub fn log_name(label: &str, timestamp: &str) -> (r: String)
    ensures
        r@ == label@ + "_"@ + timestamp@ + ".log"@,
{
    let mut name: String = label.to_owned();
    name.append("_");
    name.append(timestamp);
    name.append(".log");
    name
}

/// The name of an add's log once the node is known.
pub fn canonical_log_name(name: &str, tag: &str, timestamp: &str) -> (r: String)
    ensures
        r@ == log_label(name@, tag@) + "_"@ + timestamp@ + ".log"@,
{
    log_name(label_words(name, tag).as_str(), timestamp)
}

/// The ids of the running instances, in order.
pub open spec fn running_ids(instances: Seq<TrackedInstance>) -> Seq<Seq<char>>
    decreases instances.len(),
{
    if instances.len() == 0 {
        Seq::empty()
    } else {
        let before = running_ids(instances.drop_last());
        if instances.last().state == InstanceState::Running {
            before.push(instances.last().instance_id@)
        } else {
            before
        }
    }
}

/// Whether an instance is starting.
pub open spec fn has_starting(instances: Seq<TrackedInstance>) -> bool {
    exists|k: int| 0 <= k < instances.len() && (#[trigger] instances[k]).state == InstanceState::Starting
}

/// The refusal to replace a node of which an instance is starting.
pub open spec fn starting_text(name: Seq<char>, tag: Seq<char>) -> Seq<char> {
    "node '"@ + name + ":"@ + tag
        + "' has an instance in Starting state; cannot overwrite a node with live instances"@
}

/// Which instances are stopped before a node is replaced: those that run. An
/// instance that is starting cannot be reached yet, and the replacement is
/// refused.
pub fn plan_shutdown(name: &str, tag: &str, instances: &Vec<TrackedInstance>) -> (r: Result<
    Vec<String>,
    String,
>)
    ensures
        match r {
            Ok(ids) => !has_starting(instances@) && texts(ids@) == running_ids(instances@),
            Err(text) => has_starting(instances@) && text@ == starting_text(name@, tag@),
        },
{
    let mut ids: Vec<String> = Vec::new();
    let mut i: usize = 0;
    proof {
        assert(texts(ids@) =~= running_ids(instances@.take(0)));
    }
    while i < instances.len()
        invariant
            i <= instances@.len(),
            texts(ids@) == running_ids(instances@.take(i as int)),
            forall|k: int|
                0 <= k < i ==> (#[trigger] instances@[k]).state != InstanceState::Starting,
        decreases instances.len() - i,
    {
        let instance = &instances[i];
        if instance.state == InstanceState::Starting {
            let mut text: String = "node '".to_owned();
            text.append(name);
            text.append(":");
            text.append(tag);
            text.append(
                "' has an instance in Starting state; cannot overwrite a node with live instances",
            );
            proof {
                assert(instances@[i as int].state == InstanceState::Starting);
            }
            return Err(text);
        }
        proof {
            assert(instances@.take(i + 1).drop_last() =~= instances@.take(i as int));
        }
        if instance.state == InstanceState::Running {
            let ghost before = texts(ids@);
            ids.push(instance.instance_id.clone());
            proof {
                assert(texts(ids@) =~= before.push(instance.instance_id@));
            }
        }
        i += 1;
    }
    proof {
        assert(instances@.take(instances@.len() as int) =~= instances@);
    }
    Ok(ids)
}

/// Whether the instance at a place is in a state.
pub open spec fn in_state(instances: Seq<TrackedInstance>, state: InstanceState) -> spec_fn(
    int,
) -> bool {
    |k: int| instances[k].state == state
}

/// The id of the instance at a place.
pub open spec fn id_at(instances: Seq<TrackedInstance>) -> spec_fn(int) -> Seq<char> {
    |k: int| instances[k].instance_id@
}

/// The running ids are those of the instances that run.
proof fn lemma_running_ids(instances: Seq<TrackedInstance>, n: int)
    requires
        0 <= n <= instances.len(),
    ensures
        picked(
            n,
            in_state(instances, InstanceState::Running),
            id_at(instances),
            running_ids(instances.take(n)),
        ),
    decreases n,
{
    let wanted = in_state(instances, InstanceState::Running);
    let told = id_at(instances);
    if n == 0 {
        lemma_picked_none(wanted, told);
        assert(running_ids(instances.take(0)) =~= Seq::<Seq<char>>::empty());
    } else {
        lemma_running_ids(instances, n - 1);
        assert(instances.take(n).drop_last() =~= instances.take(n - 1));
        lemma_picked_next(n - 1, wanted, told, running_ids(instances.take(n - 1)));
    }
}

/// A node is replaced exactly where no instance of it is starting, and what is
/// stopped for that are its running instances, all of them, in their order, and no
/// other.
pub proof fn what_runs_is_stopped_before_a_node_is_replaced(
    name: &str,
    tag: &str,
    instances: Vec<TrackedInstance>,
    r: Result<Vec<String>, String>,
)
    requires
        call_ensures(plan_shutdown, (name, tag, &instances), r),
    ensures
        r is Err <==> exists|k: int|
            0 <= k < instances@.len() && (#[trigger] instances@[k]).state == InstanceState::Starting,
        r matches Ok(ids) ==> picked(
            instances@.len() as int,
            in_state(instances@, InstanceState::Running),
            id_at(instances@),
            texts(ids@),
        ),
{
    lemma_running_ids(instances@, instances@.len() as int);
    assert(instances@.take(instances@.len() as int) =~= instances@);
}

/// A source on this machine that is no part of a launch is always compared with
/// what its author last generated, in the way that suits it; no other source is.
pub proof fn every_local_source_is_compared(
    source: NodeSource,
    git_hash: &str,
    launch_marker: &str,
    r: SourceChecks,
)
    requires
        call_ensures(source_checks, (&source, git_hash, launch_marker), r),
    ensures
        r.fingerprint <==> source is Fs && git_hash@ != launch_marker@,
        r.fingerprint <==> r.hash_of_dir || r.hash_of_archive,
        !(r.hash_of_dir && r.hash_of_archive),
        r.hash_of_dir ==> (source matches NodeSource::Fs(path) && !is_archive(path@)),
        r.hash_of_archive ==> (source matches NodeSource::Fs(path) && is_archive(path@)),
        r.auto_sync == r.hash_of_dir,
{
}

/// Every source is brought here as what it is: an archive is extracted, a directory is
/// read in place, a repository is cloned and a URL downloaded, each announced; a node of a
/// repository does not come this way. The commit in an archive is compared unless the add
/// is part of a launch.
pub proof fn a_source_is_brought_as_what_it_is(
    source: NodeSource,
    git_hash: &str,
    launch_marker: &str,
    r: Result<SourceWork, String>,
)
    requires
        call_ensures(resolve_node_add_source, (&source, git_hash, launch_marker), r),
    ensures
        r is Err <==> source is RepoNode,
        r matches Ok(work) ==> (work is Clone <==> source is Git),
        r matches Ok(work) ==> (work is Download <==> source is Http),
        r matches Ok(work) ==> (work is Extract <==> (source matches NodeSource::Fs(path)
            && is_archive(path@))),
        r matches Ok(SourceWork::Extract { verify_hash }) ==> (verify_hash <==> git_hash@
            != launch_marker@),
        r matches Ok(SourceWork::Read { config_path }) ==> (source matches NodeSource::Fs(path)
            && config_path@ == joined_path(path@, "peppy.json5"@)),
        r matches Ok(SourceWork::Clone { announced }) ==> (source matches NodeSource::Git {
            repo_url,
            ..
        } && mentions(announced@, repo_url.shown@)),
        r matches Ok(SourceWork::Download { announced }) ==> (source matches NodeSource::Http {
            url,
            ..
        } && mentions(announced@, url.text@)),
{
    match source {
        NodeSource::Git { repo_url, .. } => {
            what_is_written_is_mentioned("Cloning repository "@, repo_url.shown@, "..."@);
        },
        NodeSource::Http { url, .. } => {
            what_is_written_is_mentioned("Downloading bundle from "@, url.text@, "..."@);
        },
        _ => {},
    }
}

/// An add's log is labelled with the node's name and tag where they are at hand: those of
/// a repository's node, those that an archive declares, or those that a directory does;
/// else with the last name of the path.
pub proof fn a_log_is_labelled_with_its_node(
    source: NodeSource,
    in_archive: Option<(String, String)>,
    in_dir: Option<(String, String)>,
    r: String,
)
    requires
        call_ensures(log_label_from_source, (&source, &in_archive, &in_dir), r),
    ensures
        source matches NodeSource::RepoNode { name, tag } ==> r@ == name@ + "_"@ + tag@,
        source matches NodeSource::Fs(path) ==> (is_archive(path@) ==> (in_archive matches Some(node)
            ==> r@ == node.0@ + "_"@ + node.1@)),
        source matches NodeSource::Fs(path) ==> (!(is_archive(path@) && in_archive is Some) ==> (
        in_dir matches Some(node) ==> r@ == node.0@ + "_"@ + node.1@)),
        source matches NodeSource::Fs(path) ==> (in_dir is None && !(is_archive(path@)
            && in_archive is Some) ==> (last_name(path@) matches Some(name) ==> r@ == name)),
{
}

} // verus!
