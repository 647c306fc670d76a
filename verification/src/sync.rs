//! Synchronizing a node: the checks of its directory and manifest, the report
//! of what its dependencies lack, and the provenance of what was resolved.
use crate::order::{ascending, insert_text, lemma_picked_next, lemma_picked_none, picked};
use crate::text::{
    a_join_mentions_every_text, join, joined, lowercase, mentions, mentions_carry_over, str_eq,
    texts, unicode_lowered, what_is_written_is_mentioned,
};
use vstd::prelude::*;
use vstd::string::*;

verus! {

/// A node's name and tag, as they are written together.
pub open spec fn label_text(name: Seq<char>, tag: Seq<char>) -> Seq<char> {
    name + ":"@ + tag
}

/// A node's name and tag, as they are written together.
pub fn label(name: &str, tag: &str) -> (r: String)
    ensures
        r@ == label_text(name@, tag@),
{
    let mut out: String = name.to_owned();
    out.append(":");
    out.append(tag);
    out
}

/// What is wrong with one dependency of a manifest.
pub enum DependencyError {
    /// The dependency is not there.
    MissingDependency { dependency: String, dependency_tag: String },
    /// The dependency does not expose an interface.
    MissingInterface {
        interface_kind: String,
        interface_name: String,
        dependency: String,
        dependency_tag: String,
    },
    /// An interface names a link that the manifest does not declare.
    UndeclaredLinkId { link_id: String },
    /// Anything else; it is not reported here.
    Other,
}

/// The text of an error about an interface.
pub open spec fn interface_text(error: DependencyError) -> Option<Seq<char>> {
    match error {
        DependencyError::MissingInterface {
            interface_kind,
            interface_name,
            dependency,
            dependency_tag,
        } => Some(
            "expects "@ + unicode_lowered(interface_kind@) + " `"@ + interface_name@ + "` from `"@
                + dependency@ + ":"@ + dependency_tag@ + "`, but it is not exposed"@,
        ),
        DependencyError::UndeclaredLinkId { link_id } => Some(
            "references undeclared link_id `"@ + link_id@ + "`"@,
        ),
        _ => None,
    }
}

/// The texts of the errors about interfaces, in order.
pub open spec fn interface_texts(errors: Seq<DependencyError>) -> Seq<Seq<char>>
    decreases errors.len(),
{
    if errors.len() == 0 {
        Seq::empty()
    } else {
        let before = interface_texts(errors.drop_last());
        match interface_text(errors.last()) {
            Some(text) => before.push(text),
            None => before,
        }
    }
}

/// Whether a dependency is reported missing.
pub open spec fn reported_missing(errors: Seq<DependencyError>, name: Seq<char>) -> bool {
    exists|k: int|
        0 <= k < errors.len() && ((#[trigger] errors[k]) matches DependencyError::MissingDependency {
            dependency,
            dependency_tag,
        } && name == label_text(dependency@, dependency_tag@))
}

/// A text between backquotes.
pub open spec fn quoted(text: Seq<char>) -> Seq<char> {
    "`"@ + text + "`"@
}

/// The report of missing dependencies.
pub open spec fn missing_text(missing: Seq<Seq<char>>) -> Seq<char> {
    "depends on "@ + joined(missing.map_values(|name: Seq<char>| quoted(name)), ", "@) + ", but "@
        + if missing.len() == 1 {
        "it does"@
    } else {
        "they do"@
    } + " not exist in the stack"@
}

/// The findings of a report: the missing dependencies first, where there are
/// any.
pub open spec fn findings(missing: Seq<Seq<char>>, interfaces: Seq<Seq<char>>) -> Seq<Seq<char>> {
    if missing.len() == 0 {
        interfaces
    } else {
        seq![missing_text(missing)] + interfaces
    }
}

/// Whether a report says of a node what its dependency errors amount to:
/// every missing dependency once, in order, then the interfaces.
pub open spec fn reports(
    errors: Seq<DependencyError>,
    name: Seq<char>,
    tag: Seq<char>,
    text: Seq<char>,
) -> bool {
    exists|missing: Seq<Seq<char>>|
        #[trigger] ascending(missing) && (forall|dep: Seq<char>|
            missing.contains(dep) == reported_missing(errors, dep)) && text == "`"@ + name + ":"@
            + tag + " "@ + joined(findings(missing, interface_texts(errors)), "; "@)
}

/// Whether nothing is to be reported.
pub open spec fn clean(errors: Seq<DependencyError>) -> bool {
    (forall|dep: Seq<char>| !reported_missing(errors, dep)) && interface_texts(errors).len() == 0
}

/// A list of texts, each between backquotes.
fn quote_all(list: &Vec<String>) -> (r: Vec<String>)
    ensures
        texts(r@) == texts(list@).map_values(|name: Seq<char>| quoted(name)),
{
    let mut out: Vec<String> = Vec::new();
    let mut i: usize = 0;
    while i < list.len()
        invariant
            i <= list@.len(),
            out@.len() == i,
            forall|k: int| 0 <= k < i ==> (#[trigger] out@[k])@ == quoted(list@[k]@),
        decreases list.len() - i,
    {
        let mut text: String = "`".to_owned();
        text.append(list[i].as_str());
        text.append("`");
        out.push(text);
        i += 1;
    }
    proof {
        assert(texts(out@) =~= texts(list@).map_values(|name: Seq<char>| quoted(name)));
    }
    out
}

/// The text of an error about an interface.
fn interface_finding(error: &DependencyError) -> (r: Option<String>)
    ensures
        match r {
            Some(text) => interface_text(*error) == Some(text@),
            None => interface_text(*error) is None,
        },
{
    match error {
        DependencyError::MissingInterface {
            interface_kind,
            interface_name,
            dependency,
            dependency_tag,
        } => {
            let mut text: String = "expects ".to_owned();
            text.append(lowercase(interface_kind.as_str()).as_str());
            text.append(" `");
            text.append(interface_name.as_str());
            text.append("` from `");
            text.append(dependency.as_str());
            text.append(":");
            text.append(dependency_tag.as_str());
            text.append("`, but it is not exposed");
            Some(text)
        },
        DependencyError::UndeclaredLinkId { link_id } => {
            let mut text: String = "references undeclared link_id `".to_owned();
            text.append(link_id.as_str());
            text.append("`");
            Some(text)
        },
        _ => None,
    }
}

/// Sorts dependency errors into missing dependencies, each once and in order,
/// and findings about interfaces.
fn sort_errors(errors: &Vec<DependencyError>) -> (r: (Vec<String>, Vec<String>))
    ensures
        ascending(texts(r.0@)),
        forall|dep: Seq<char>| texts(r.0@).contains(dep) == reported_missing(errors@, dep),
        texts(r.1@) == interface_texts(errors@),
{
    let mut missing: Vec<String> = Vec::new();
    let mut interfaces: Vec<String> = Vec::new();
    let mut i: usize = 0;
    proof {
        assert(texts(interfaces@) =~= interface_texts(errors@.take(0)));
    }
    while i < errors.len()
        invariant
            i <= errors@.len(),
            ascending(texts(missing@)),
            forall|dep: Seq<char>|
                texts(missing@).contains(dep) == reported_missing(errors@.take(i as int), dep),
            texts(interfaces@) == interface_texts(errors@.take(i as int)),
        decreases errors.len() - i,
    {
        let ghost seen = errors@.take(i as int);
        let ghost now = errors@.take(i + 1);
        let ghost before = texts(missing@);
        let ghost listed = texts(interfaces@);
        proof {
            assert(now.drop_last() =~= seen);
            assert forall|dep: Seq<char>| reported_missing(now, dep) == (reported_missing(seen, dep) || (
            errors@[i as int] matches DependencyError::MissingDependency { dependency, dependency_tag }
                && dep == label_text(dependency@, dependency_tag@))) by {
                if reported_missing(seen, dep) {
                    let k = choose|k: int|
                        0 <= k < seen.len() && ((#[trigger] seen[k]) matches DependencyError::MissingDependency {
                            dependency,
                            dependency_tag,
                        } && dep == label_text(dependency@, dependency_tag@));
                    assert(now[k] == seen[k]);
                }
                if reported_missing(now, dep) {
                    let k = choose|k: int|
                        0 <= k < now.len() && ((#[trigger] now[k]) matches DependencyError::MissingDependency {
                            dependency,
                            dependency_tag,
                        } && dep == label_text(dependency@, dependency_tag@));
                    if k < i {
                        assert(seen[k] == now[k]);
                    }
                }
                assert(now[i as int] == errors@[i as int]);
            }
        }
        if let DependencyError::MissingDependency { dependency, dependency_tag } = &errors[i] {
            let _fresh = insert_text(
                &mut missing,
                label(dependency.as_str(), dependency_tag.as_str()),
            );
            proof {
                let after = texts(missing@);
                assert forall|dep: Seq<char>| after.contains(dep) == reported_missing(now, dep) by {
                    assert(after.contains(dep) == after.to_set().contains(dep));
                    assert(before.contains(dep) == before.to_set().contains(dep));
                }
            }
        } else if let Some(text) = interface_finding(&errors[i]) {
            let ghost added = text@;
            interfaces.push(text);
            proof {
                assert(texts(interfaces@) =~= listed.push(added));
            }
        }
        i += 1;
    }
    proof {
        assert(errors@.take(errors@.len() as int) =~= errors@);
    }
    (missing, interfaces)
}

/// The report of what a node's dependencies lack; `None` where they lack
/// nothing.
pub fn dependency_report(
    errors: &Vec<DependencyError>,
    node_name: &str,
    node_tag: &str,
) -> (r: Option<String>)
    ensures
        match r {
            None => clean(errors@),
            Some(text) => !clean(errors@) && reports(errors@, node_name@, node_tag@, text@),
        },
{
    let sorted = sort_errors(errors);
    let missing = sorted.0;
    let mut interfaces = sorted.1;
    if missing.len() == 0 && interfaces.len() == 0 {
        proof {
            assert forall|dep: Seq<char>| !reported_missing(errors@, dep) by {
                assert(!texts(missing@).contains(dep));
            }
            assert(interface_texts(errors@) =~= texts(interfaces@));
        }
        return None;
    }
    let ghost interface_list = texts(interfaces@);
    let mut lines: Vec<String> = Vec::new();
    if missing.len() > 0 {
        let mut text: String = "depends on ".to_owned();
        text.append(join(&quote_all(&missing), ", ").as_str());
        text.append(", but ");
        if missing.len() == 1 {
            text.append("it does");
        } else {
            text.append("they do");
        }
        text.append(" not exist in the stack");
        proof {
            assert(text@ =~= missing_text(texts(missing@)));
        }
        lines.push(text);
    }
    lines.append(&mut interfaces);
    proof {
        assert(texts(lines@) =~= findings(texts(missing@), interface_list));
        if missing@.len() > 0 {
            assert(texts(missing@)[0] == missing@[0]@);
            assert(texts(missing@).contains(missing@[0]@));
            assert(reported_missing(errors@, missing@[0]@));
        }
    }
    let mut report: String = "`".to_owned();
    report.append(node_name);
    report.append(":");
    report.append(node_tag);
    report.append(" ");
    report.append(join(&lines, "; ").as_str());
    proof {
        assert(ascending(texts(missing@)));
        assert(reports(errors@, node_name@, node_tag@, report@));
    }
    Some(report)
}

/// A direct dependency of a manifest, and whether the stack holds it.
pub struct DirectDep {
    pub name: String,
    pub tag: String,
    pub held: bool,
}

/// Whether an earlier entry names the same dependency.
pub open spec fn named_before(deps: Seq<DirectDep>, n: int) -> bool {
    exists|k: int|
        0 <= k < n && (#[trigger] deps[k]).name@ == deps[n].name@ && deps[k].tag@ == deps[n].tag@
}

/// The dependencies that the stack holds, each once, in the order of the
/// manifest.
pub open spec fn held_deps(deps: Seq<DirectDep>, n: int) -> Seq<Seq<char>>
    decreases n,
{
    if n <= 0 || n > deps.len() {
        Seq::empty()
    } else {
        let before = held_deps(deps, n - 1);
        if deps[n - 1].held && !named_before(deps, n - 1) {
            before.push(label_text(deps[n - 1].name@, deps[n - 1].tag@))
        } else {
            before
        }
    }
}

/// Whether an earlier entry names the same dependency.
fn seen_before(deps: &Vec<DirectDep>, n: usize) -> (r: bool)
    requires
        n < deps@.len(),
    ensures
        r == named_before(deps@, n as int),
{
    let mut k: usize = 0;
    while k < n
        invariant
            k <= n < deps@.len(),
            forall|j: int|
                0 <= j < k ==> !((#[trigger] deps@[j]).name@ == deps@[n as int].name@
                    && deps@[j].tag@ == deps@[n as int].tag@),
        decreases n - k,
    {
        if str_eq(deps[k].name.as_str(), deps[n].name.as_str()) && str_eq(
            deps[k].tag.as_str(),
            deps[n].tag.as_str(),
        ) {
            return true;
        }
        k += 1;
    }
    false
}

/// The dependencies that the stack holds, each once, in the order of the
/// manifest.
pub fn stack_provenance(deps: &Vec<DirectDep>) -> (r: Vec<String>)
    ensures
        texts(r@) == held_deps(deps@, deps@.len() as int),
{
    let mut out: Vec<String> = Vec::new();
    let mut i: usize = 0;
    proof {
        assert(texts(out@) =~= Seq::<Seq<char>>::empty());
    }
    while i < deps.len()
        invariant
            i <= deps@.len(),
            texts(out@) == held_deps(deps@, i as int),
        decreases deps.len() - i,
    {
        let ghost before = texts(out@);
        if deps[i].held && !seen_before(deps, i) {
            out.push(label(deps[i].name.as_str(), deps[i].tag.as_str()));
            proof {
                assert(texts(out@) =~= before.push(
                    label_text(deps@[i as int].name@, deps@[i as int].tag@),
                ));
            }
        }
        i += 1;
    }
    out
}

/// Which of two answers resolves a dependency: the stack's, and the
/// repositories' only where the stack has none.
pub fn resolve_dep<T>(stack: Option<T>, repositories: Option<T>) -> (r: Option<T>)
    ensures
        r == if stack is Some {
            stack
        } else {
            repositories
        },
{
    match stack {
        Some(found) => Some(found),
        None => repositories,
    }
}

/// What came of generating a node's interface code.
pub enum GenerateOutcome {
    Done,
    /// The generator failed.
    Generator(String),
    /// The record of the revision could not be written.
    Io(String),
    /// Anything else failed.
    Other(String),
    /// The task that generates failed.
    Task(String),
}

/// The failure of a generation, where it failed.
pub open spec fn generate_text(outcome: GenerateOutcome) -> Option<Seq<char>> {
    match outcome {
        GenerateOutcome::Done => None,
        GenerateOutcome::Generator(why) => Some("Failed to generate peppygen: "@ + why@),
        GenerateOutcome::Io(why) => Some("Failed to write git hash file: "@ + why@),
        GenerateOutcome::Other(why) => Some("Failed to sync node: "@ + why@),
        GenerateOutcome::Task(why) => Some(
            "Failed to generate peppygen (generate task failed): "@ + why@,
        ),
    }
}

/// The failure of a generation, where it failed.
fn generate_failure(outcome: &GenerateOutcome) -> (r: Option<String>)
    ensures
        match r {
            Some(text) => generate_text(*outcome) == Some(text@),
            None => generate_text(*outcome) is None,
        },
{
    match outcome {
        GenerateOutcome::Done => None,
        GenerateOutcome::Generator(why) => {
            let mut text: String = "Failed to generate peppygen: ".to_owned();
            text.append(why.as_str());
            Some(text)
        },
        GenerateOutcome::Io(why) => {
            let mut text: String = "Failed to write git hash file: ".to_owned();
            text.append(why.as_str());
            Some(text)
        },
        GenerateOutcome::Other(why) => {
            let mut text: String = "Failed to sync node: ".to_owned();
            text.append(why.as_str());
            Some(text)
        },
        GenerateOutcome::Task(why) => {
            let mut text: String = "Failed to generate peppygen (generate task failed): ".to_owned();
            text.append(why.as_str());
            Some(text)
        },
    }
}

/// What a synchronization waits for.
#[derive(Clone, Copy, Debug, PartialEq, Eq, Structural)]
pub enum SyncPhase {
    /// A look at the node's directory.
    Root,
    /// The manifest, for the repositories' sake.
    RepoConfig,
    /// The dependencies that come from repositories.
    Repos,
    /// The manifest.
    Config,
    /// The check of the dependencies.
    Dependencies,
    /// The interfaces that the node consumes.
    Interfaces,
    /// The generation.
    Generate,
    Done,
}

/// Where the dependencies came from that were looked for in the repositories.
pub struct Provenance {
    /// Those that the stack held.
    pub from_stack: Vec<String>,
    /// Those that a repository had.
    pub from_repositories: Vec<String>,
}

/// What came of the action that a synchronization waits for.
pub enum SyncEvent {
    Root { exists: bool, is_dir: bool },
    Config { exists: bool, parse_error: Option<String> },
    /// Where the dependencies came from, or why one could not be had.
    Repos(Result<Provenance, String>),
    Validated { errors: Vec<DependencyError>, node_name: String, node_tag: String },
    Collected { error: Option<String>, deps: Vec<DirectDep> },
    Generated(GenerateOutcome),
}

/// What a synchronization does next.
pub enum SyncAction {
    ReadConfig,
    /// Fetch every dependency that the stack does not hold.
    Materialize,
    Validate,
    Collect,
    Generate,
    /// Answer with success, the dependencies that came from the stack and those
    /// that came from repositories.
    Succeed { from_stack: Vec<String>, from_repositories: Vec<String> },
    /// Answer with a failure.
    Fail(String),
}

/// One synchronization.
pub struct NodeSync {
    pub root_dir: String,
    pub config_path: String,
    pub include_repositories: bool,
    pub phase: SyncPhase,
    /// The dependencies that came from the stack, once they are known.
    pub from_stack: Option<Vec<String>>,
    /// The dependencies that came from repositories.
    pub from_repositories: Vec<String>,
}

/// Whether an action fails a synchronization with this text.
pub open spec fn fails(action: SyncAction, text: Seq<char>) -> bool {
    action matches SyncAction::Fail(told) && told@ == text
}

/// The refusal of a node's directory, where it is refused.
pub open spec fn root_refusal(dir: Seq<char>, exists_there: bool, is_dir: bool) -> Option<Seq<char>> {
    if dir.len() == 0 {
        Some("Missing `node_root_dir` in node_sync request"@)
    } else if !exists_there {
        Some("`node_root_dir` does not exist: "@ + dir)
    } else if !is_dir {
        Some("`node_root_dir` is not a directory: "@ + dir)
    } else {
        None
    }
}

/// The refusal of a manifest, where it is refused.
pub open spec fn config_refusal(
    path: Seq<char>,
    exists_there: bool,
    parse_error: Option<String>,
) -> Option<Seq<char>> {
    if !exists_there {
        Some("Node config file does not exist: "@ + path)
    } else {
        match parse_error {
            Some(why) => Some("Failed to parse node config: "@ + why@),
            None => None,
        }
    }
}

/// Whether an event leads a synchronization from one state to another, with
/// this action.
pub open spec fn sync_steps(
    before: NodeSync,
    event: SyncEvent,
    after: NodeSync,
    action: Option<SyncAction>,
) -> bool {
    &&& after.root_dir == before.root_dir
    &&& after.config_path == before.config_path
    &&& after.include_repositories == before.include_repositories
    &&& match (before.phase, event) {
        (SyncPhase::Repos, SyncEvent::Repos(Ok(found))) => after.from_repositories
            == found.from_repositories,
        _ => after.from_repositories == before.from_repositories,
    }
    &&& match (before.phase, event) {
        (SyncPhase::Root, SyncEvent::Root { exists, is_dir }) => after.from_stack == before.from_stack && (action matches Some(act) && match root_refusal(
            before.root_dir@,
            exists,
            is_dir,
        ) {
            Some(text) => after.phase == SyncPhase::Done && fails(act, text),
            None => act is ReadConfig && after.phase == if before.include_repositories {
                SyncPhase::RepoConfig
            } else {
                SyncPhase::Config
            },
        }),
        (SyncPhase::RepoConfig, SyncEvent::Config { exists, parse_error }) => after.from_stack == before.from_stack && (action matches Some(act) && match config_refusal(
            before.config_path@,
            exists,
            parse_error,
        ) {
            Some(text) => after.phase == SyncPhase::Done && fails(act, text),
            None => act is Materialize && after.phase == SyncPhase::Repos,
        }),
        (SyncPhase::Repos, SyncEvent::Repos(result)) => action matches Some(act) && match result {
            Err(why) => after.phase == SyncPhase::Done && fails(act, why@) && after.from_stack
                == before.from_stack,
            Ok(found) => act is ReadConfig && after.phase == SyncPhase::Config && after.from_stack
                == Some(found.from_stack),
        },
        (SyncPhase::Config, SyncEvent::Config { exists, parse_error }) => after.from_stack == before.from_stack && (action matches Some(act) && match config_refusal(
            before.config_path@,
            exists,
            parse_error,
        ) {
            Some(text) => after.phase == SyncPhase::Done && fails(act, text),
            None => act is Validate && after.phase == SyncPhase::Dependencies,
        }),
        (SyncPhase::Dependencies, SyncEvent::Validated { errors, node_name, node_tag }) => action matches Some(act) && (if clean(
            errors@,
        ) {
            act is Collect && after.phase == SyncPhase::Interfaces
        } else {
            after.phase == SyncPhase::Done && (act matches SyncAction::Fail(told) && reports(
                errors@,
                node_name@,
                node_tag@,
                told@,
            ))
        }) && after.from_stack == before.from_stack,
        (SyncPhase::Interfaces, SyncEvent::Collected { error, deps }) => action matches Some(act) && match error {
            Some(why) => after.phase == SyncPhase::Done && fails(act, why@) && after.from_stack
                == before.from_stack,
            None => act is Generate && after.phase == SyncPhase::Generate && match before.from_stack {
                Some(_) => after.from_stack == before.from_stack,
                None => after.from_stack matches Some(list) && texts(list@) == held_deps(
                    deps@,
                    deps@.len() as int,
                ),
            },
        },
        (SyncPhase::Generate, SyncEvent::Generated(outcome)) => action matches Some(act)
            && after.phase == SyncPhase::Done && match generate_text(outcome) {
            Some(text) => fails(act, text),
            None => act matches SyncAction::Succeed { from_stack, from_repositories } && texts(
                from_stack@,
            ) == match before.from_stack {
                Some(list) => texts(list@),
                None => Seq::empty(),
            } && texts(from_repositories@) == texts(before.from_repositories@),
        },
        _ => action is None && after == before,
    }
}

impl NodeSync {
    /// A synchronization at its beginning.
    pub fn new(root_dir: String, config_path: String, include_repositories: bool) -> (r: Self)
        ensures
            r == (NodeSync {
                root_dir,
                config_path,
                include_repositories,
                phase: SyncPhase::Root,
                from_stack: None,
                from_repositories: r.from_repositories,
            }),
            r.from_repositories@.len() == 0,
    {
        NodeSync {
            root_dir,
            config_path,
            include_repositories,
            phase: SyncPhase::Root,
            from_stack: None,
            from_repositories: Vec::new(),
        }
    }

    /// The refusal of the manifest, where it is refused.
    fn refuse_config(&self, exists_there: bool, parse_error: Option<String>) -> (r: Option<String>)
        ensures
            match r {
                Some(text) => config_refusal(self.config_path@, exists_there, parse_error) == Some(
                    text@,
                ),
                None => config_refusal(self.config_path@, exists_there, parse_error) is None,
            },
    {
        if !exists_there {
            let mut text: String = "Node config file does not exist: ".to_owned();
            text.append(self.config_path.as_str());
            return Some(text);
        }
        match parse_error {
            Some(why) => {
                let mut text: String = "Failed to parse node config: ".to_owned();
                text.append(why.as_str());
                Some(text)
            },
            None => None,
        }
    }

    /// The refusal of the node's directory, where it is refused.
    fn refuse_root(&self, exists_there: bool, is_dir: bool) -> (r: Option<String>)
        ensures
            match r {
                Some(text) => root_refusal(self.root_dir@, exists_there, is_dir) == Some(text@),
                None => root_refusal(self.root_dir@, exists_there, is_dir) is None,
            },
    {
        if self.root_dir.as_str().is_empty() {
            return Some("Missing `node_root_dir` in node_sync request".to_owned());
        }
        if !exists_there {
            let mut text: String = "`node_root_dir` does not exist: ".to_owned();
            text.append(self.root_dir.as_str());
            return Some(text);
        }
        if !is_dir {
            let mut text: String = "`node_root_dir` is not a directory: ".to_owned();
            text.append(self.root_dir.as_str());
            return Some(text);
        }
        None
    }

    /// Takes what came of the last action and gives the next one; `None`, and
    /// no change, where the synchronization waits for something else.
    pub fn step(&mut self, event: SyncEvent) -> (r: Option<SyncAction>)
        ensures
            sync_steps(*old(self), event, *final(self), r),
    {
        match (self.phase, event) {
            (SyncPhase::Root, SyncEvent::Root { exists, is_dir }) => {
                if let Some(text) = self.refuse_root(exists, is_dir) {
                    self.phase = SyncPhase::Done;
                    return Some(SyncAction::Fail(text));
                }
                self.phase = if self.include_repositories {
                    SyncPhase::RepoConfig
                } else {
                    SyncPhase::Config
                };
                Some(SyncAction::ReadConfig)
            },
            (SyncPhase::RepoConfig, SyncEvent::Config { exists, parse_error }) => {
                if let Some(text) = self.refuse_config(exists, parse_error) {
                    self.phase = SyncPhase::Done;
                    return Some(SyncAction::Fail(text));
                }
                self.phase = SyncPhase::Repos;
                Some(SyncAction::Materialize)
            },
            (SyncPhase::Repos, SyncEvent::Repos(result)) => match result {
                Err(why) => {
                    self.phase = SyncPhase::Done;
                    Some(SyncAction::Fail(why))
                },
                Ok(found) => {
                    self.from_stack = Some(found.from_stack);
                    self.from_repositories = found.from_repositories;
                    self.phase = SyncPhase::Config;
                    Some(SyncAction::ReadConfig)
                },
            },
            (SyncPhase::Config, SyncEvent::Config { exists, parse_error }) => {
                if let Some(text) = self.refuse_config(exists, parse_error) {
                    self.phase = SyncPhase::Done;
                    return Some(SyncAction::Fail(text));
                }
                self.phase = SyncPhase::Dependencies;
                Some(SyncAction::Validate)
            },
            (SyncPhase::Dependencies, SyncEvent::Validated { errors, node_name, node_tag }) => {
                if let Some(text) = dependency_report(&errors, node_name.as_str(), node_tag.as_str()) {
                    self.phase = SyncPhase::Done;
                    return Some(SyncAction::Fail(text));
                }
                self.phase = SyncPhase::Interfaces;
                Some(SyncAction::Collect)
            },
            (SyncPhase::Interfaces, SyncEvent::Collected { error, deps }) => match error {
                Some(why) => {
                    self.phase = SyncPhase::Done;
                    Some(SyncAction::Fail(why))
                },
                None => {
                    if self.from_stack.is_none() {
                        self.from_stack = Some(stack_provenance(&deps));
                    }
                    self.phase = SyncPhase::Generate;
                    Some(SyncAction::Generate)
                },
            },
            (SyncPhase::Generate, SyncEvent::Generated(outcome)) => {
                self.phase = SyncPhase::Done;
                if let Some(text) = generate_failure(&outcome) {
                    return Some(SyncAction::Fail(text));
                }
                let from_stack = match &self.from_stack {
                    Some(list) => crate::text::copy_all(list),
                    None => Vec::new(),
                };
                proof {
                    assert(self.from_stack is None ==> texts(from_stack@) =~= Seq::empty());
                }
                let from_repositories = crate::text::copy_all(&self.from_repositories);
                Some(SyncAction::Succeed { from_stack, from_repositories })
            },
            _ => None,
        }
    }
}

/// Nothing is generated for a node whose dependencies lack anything, and
/// nothing moves a synchronization that has answered.
pub proof fn unclean_nodes_are_not_generated(
    before: NodeSync,
    event: SyncEvent,
    after: NodeSync,
    action: Option<SyncAction>,
)
    requires
        sync_steps(before, event, after, action),
    ensures
        action == Some(SyncAction::Collect) ==> (event matches SyncEvent::Validated { errors, .. }
            && clean(errors@)),
        after.phase == SyncPhase::Interfaces && before.phase != SyncPhase::Interfaces ==> (
        event matches SyncEvent::Validated { errors, .. } && clean(errors@)),
        action == Some(SyncAction::Generate) ==> before.phase == SyncPhase::Interfaces,
        before.phase == SyncPhase::Done ==> action is None && after == before,
{
}

/// An error about an interface has its text among those of all.
proof fn lemma_interface_texts(errors: Seq<DependencyError>, at: int)
    requires
        0 <= at < errors.len(),
    ensures
        interface_text(errors[at]) matches Some(text) ==> interface_texts(errors).contains(text),
    decreases errors.len(),
{
    let all = interface_texts(errors);
    if let Some(text) = interface_text(errors[at]) {
        if at == errors.len() - 1 {
            assert(all.last() == text);
        } else {
            let less = errors.drop_last();
            lemma_interface_texts(less, at);
            let before = interface_texts(less);
            let k = choose|k: int| 0 <= k < before.len() && before[k] == text;
            assert(all[k] == text);
        }
    }
}

/// Errors that are not reported here have no texts.
proof fn lemma_no_interface_texts(errors: Seq<DependencyError>)
    requires
        forall|k: int| 0 <= k < errors.len() ==> interface_text(#[trigger] errors[k]) is None,
    ensures
        interface_texts(errors).len() == 0,
    decreases errors.len(),
{
    if errors.len() > 0 {
        assert forall|k: int| 0 <= k < errors.drop_last().len() implies interface_text(
            #[trigger] errors.drop_last()[k],
        ) is None by {
            assert(errors.drop_last()[k] == errors[k]);
        }
        lemma_no_interface_texts(errors.drop_last());
        assert(interface_text(errors[errors.len() - 1]) is None);
    }
}

/// Dependencies are clean exactly where nothing about them is to be reported.
proof fn lemma_clean(errors: Seq<DependencyError>)
    ensures
        clean(errors) <==> forall|k: int| 0 <= k < errors.len() ==> (#[trigger] errors[k]) is Other,
{
    if clean(errors) {
        assert forall|k: int| 0 <= k < errors.len() implies (#[trigger] errors[k]) is Other by {
            lemma_interface_texts(errors, k);
            match errors[k] {
                DependencyError::MissingDependency { dependency, dependency_tag } => {
                    assert(reported_missing(errors, label_text(dependency@, dependency_tag@)));
                },
                _ => {},
            }
        }
    }
    if forall|k: int| 0 <= k < errors.len() ==> (#[trigger] errors[k]) is Other {
        lemma_no_interface_texts(errors);
    }
}

/// What is reported of one error: the dependency that is missing, the interface
/// that it does not expose, or the link that is not declared.
pub open spec fn subject_of(error: DependencyError) -> Seq<char> {
    match error {
        DependencyError::MissingDependency { dependency, dependency_tag } => dependency@ + ":"@
            + dependency_tag@,
        DependencyError::MissingInterface { interface_name, .. } => interface_name@,
        DependencyError::UndeclaredLinkId { link_id } => link_id@,
        DependencyError::Other => Seq::empty(),
    }
}

/// An error about an interface mentions its subject.
proof fn lemma_interface_subject(error: DependencyError)
    requires
        interface_text(error) is Some,
    ensures
        mentions(interface_text(error)->0, subject_of(error)),
{
    match error {
        DependencyError::MissingInterface {
            interface_kind,
            interface_name,
            dependency,
            dependency_tag,
        } => {
            let before = "expects "@ + unicode_lowered(interface_kind@) + " `"@;
            let after = "` from `"@ + dependency@ + ":"@ + dependency_tag@
                + "`, but it is not exposed"@;
            what_is_written_is_mentioned(before, interface_name@, after);
            assert(interface_text(error)->0 =~= before + interface_name@ + after);
        },
        DependencyError::UndeclaredLinkId { link_id } => {
            what_is_written_is_mentioned("references undeclared link_id `"@, link_id@, "`"@);
        },
        _ => {},
    }
}

/// A report mentions what each of the errors is about.
proof fn lemma_report(
    errors: Seq<DependencyError>,
    name: Seq<char>,
    tag: Seq<char>,
    text: Seq<char>,
    at: int,
)
    requires
        reports(errors, name, tag, text),
        0 <= at < errors.len(),
        !(errors[at] is Other),
    ensures
        mentions(text, subject_of(errors[at])),
        mentions(text, label_text(name, tag)),
{
    let missing = choose|missing: Seq<Seq<char>>|
        #[trigger] ascending(missing) && (forall|dep: Seq<char>|
            missing.contains(dep) == reported_missing(errors, dep)) && text == "`"@ + name + ":"@
            + tag + " "@ + joined(findings(missing, interface_texts(errors)), "; "@);
    let interfaces = interface_texts(errors);
    let all = findings(missing, interfaces);
    let list = joined(all, "; "@);
    let head = "`"@ + name + ":"@ + tag + " "@;
    what_is_written_is_mentioned(head, list, ""@);
    what_is_written_is_mentioned("`"@, label_text(name, tag), " "@ + list);
    assert(text =~= "`"@ + label_text(name, tag) + (" "@ + list));
    let subject = subject_of(errors[at]);
    match errors[at] {
        DependencyError::MissingDependency { dependency, dependency_tag } => {
            assert(reported_missing(errors, subject));
            assert(missing.contains(subject));
            let k = choose|k: int| 0 <= k < missing.len() && missing[k] == subject;
            let marked = missing.map_values(|name: Seq<char>| quoted(name));
            a_join_mentions_every_text(marked, ", "@, k);
            what_is_written_is_mentioned("`"@, subject, "`"@);
            let names = joined(marked, ", "@);
            mentions_carry_over(names, quoted(subject), subject);
            let tail = ", but "@ + (if missing.len() == 1 {
                "it does"@
            } else {
                "they do"@
            }) + " not exist in the stack"@;
            what_is_written_is_mentioned("depends on "@, names, tail);
            assert(missing_text(missing) =~= "depends on "@ + names + tail);
            mentions_carry_over(missing_text(missing), names, subject);
            assert(all[0] == missing_text(missing));
            a_join_mentions_every_text(all, "; "@, 0);
            mentions_carry_over(list, missing_text(missing), subject);
        },
        _ => {
            lemma_interface_texts(errors, at);
            lemma_interface_subject(errors[at]);
            let told = interface_text(errors[at])->0;
            let k = choose|k: int| 0 <= k < interfaces.len() && interfaces[k] == told;
            let j = if missing.len() == 0 {
                k
            } else {
                k + 1
            };
            assert(all[j] == told);
            a_join_mentions_every_text(all, "; "@, j);
            mentions_carry_over(list, told, subject);
        },
    }
    mentions_carry_over(text, list, subject);
}

/// A node's dependencies are reported exactly where something about them is wrong,
/// and the report names the node and all that is wrong: every dependency that is
/// missing, every interface that is not exposed and every link that is not declared.
pub proof fn a_report_names_all_that_is_wrong(
    errors: Vec<DependencyError>,
    node_name: &str,
    node_tag: &str,
    r: Option<String>,
    at: int,
)
    requires
        call_ensures(dependency_report, (&errors, node_name, node_tag), r),
    ensures
        r is None <==> forall|k: int| 0 <= k < errors@.len() ==> (#[trigger] errors@[k]) is Other,
        r matches Some(text) ==> (0 <= at < errors@.len() && !(errors@[at] is Other) ==> mentions(
            text@,
            subject_of(errors@[at]),
        ) && mentions(text@, node_name@ + ":"@ + node_tag@)),
{
    lemma_clean(errors@);
    if let Some(text) = r {
        if 0 <= at < errors@.len() && !(errors@[at] is Other) {
            lemma_report(errors@, node_name@, node_tag@, text@, at);
        }
    }
}

/// Whether the dependency at a place is held and was not named before.
pub open spec fn is_first_held(deps: Seq<DirectDep>) -> spec_fn(int) -> bool {
    |k: int|
        deps[k].held && forall|j: int|
            0 <= j < k ==> !((#[trigger] deps[j]).name@ == deps[k].name@ && deps[j].tag@
                == deps[k].tag@)
}

/// The dependency at a place, as it is written.
pub open spec fn dep_at(deps: Seq<DirectDep>) -> spec_fn(int) -> Seq<char> {
    |k: int| deps[k].name@ + ":"@ + deps[k].tag@
}

/// The held dependencies are those that the stack holds, once each.
proof fn lemma_held(deps: Seq<DirectDep>, n: int)
    requires
        0 <= n <= deps.len(),
    ensures
        picked(n, is_first_held(deps), dep_at(deps), held_deps(deps, n)),
    decreases n,
{
    if n == 0 {
        lemma_picked_none(is_first_held(deps), dep_at(deps));
    } else {
        lemma_held(deps, n - 1);
        lemma_picked_next(n - 1, is_first_held(deps), dep_at(deps), held_deps(deps, n - 1));
    }
}

/// What came from the stack are the dependencies that it holds, each once, in the
/// order of the manifest.
pub proof fn provenance_lists_what_the_stack_holds(deps: Vec<DirectDep>, r: Vec<String>)
    requires
        call_ensures(stack_provenance, (&deps,), r),
    ensures
        picked(deps@.len() as int, is_first_held(deps@), dep_at(deps@), texts(r@)),
{
    lemma_held(deps@, deps@.len() as int);
}

/// A call of `step` leads a synchronization as `sync_steps` says.
pub proof fn a_call_steps_the_sync(sync: &mut NodeSync, event: SyncEvent, action: Option<SyncAction>)
    requires
        call_ensures(NodeSync::step, (sync, event), action),
    ensures
        sync_steps(*old(sync), event, *final(sync), action),
{
}

/// Whether an event is the one that a synchronization in this phase waits for.
pub open spec fn is_awaited(phase: SyncPhase, event: SyncEvent) -> bool {
    match event {
        SyncEvent::Root { .. } => phase == SyncPhase::Root,
        SyncEvent::Config { .. } => phase == SyncPhase::RepoConfig || phase == SyncPhase::Config,
        SyncEvent::Repos(_) => phase == SyncPhase::Repos,
        SyncEvent::Validated { .. } => phase == SyncPhase::Dependencies,
        SyncEvent::Collected { .. } => phase == SyncPhase::Interfaces,
        SyncEvent::Generated(_) => phase == SyncPhase::Generate,
    }
}

/// The bad news that an event brings a synchronization, where it brings any: a text
/// that its answer mentions.
pub open spec fn bad_news(sync: NodeSync, event: SyncEvent) -> Option<Seq<char>> {
    match event {
        SyncEvent::Root { exists: there, is_dir } => if sync.root_dir@.len() == 0 || !there || !is_dir {
            Some(sync.root_dir@)
        } else {
            None
        },
        SyncEvent::Config { exists: there, parse_error } => if !there {
            Some(sync.config_path@)
        } else {
            match parse_error {
                Some(why) => Some(why@),
                None => None,
            }
        },
        SyncEvent::Repos(Ok(_)) => None,
        SyncEvent::Repos(Err(why)) => Some(why@),
        SyncEvent::Validated { errors, node_name, node_tag } => if exists|k: int|
            0 <= k < errors@.len() && !((#[trigger] errors@[k]) is Other) {
            Some(node_name@ + ":"@ + node_tag@)
        } else {
            None
        },
        SyncEvent::Collected { error, .. } => match error {
            Some(why) => Some(why@),
            None => None,
        },
        SyncEvent::Generated(outcome) => match outcome {
            GenerateOutcome::Done => None,
            GenerateOutcome::Generator(why) => Some(why@),
            GenerateOutcome::Io(why) => Some(why@),
            GenerateOutcome::Other(why) => Some(why@),
            GenerateOutcome::Task(why) => Some(why@),
        },
    }
}

/// The place of a phase in the order of a synchronization.
pub open spec fn place(phase: SyncPhase) -> int {
    match phase {
        SyncPhase::Root => 0,
        SyncPhase::RepoConfig => 1,
        SyncPhase::Repos => 2,
        SyncPhase::Config => 3,
        SyncPhase::Dependencies => 4,
        SyncPhase::Interfaces => 5,
        SyncPhase::Generate => 6,
        SyncPhase::Done => 7,
    }
}

/// Whether a synchronization goes through a phase: the repositories are asked only
/// where the request says so.
pub open spec fn is_asked_for(sync: NodeSync, phase: SyncPhase) -> bool {
    match phase {
        SyncPhase::RepoConfig | SyncPhase::Repos => sync.include_repositories,
        SyncPhase::Done => false,
        _ => true,
    }
}

/// A synchronization moves exactly when it is told what it waits for. Bad news end
/// it with an answer that mentions them.
pub proof fn bad_news_end_a_sync(
    before: NodeSync,
    event: SyncEvent,
    after: NodeSync,
    action: Option<SyncAction>,
)
    requires
        sync_steps(before, event, after, action),
    ensures
        action is Some <==> is_awaited(before.phase, event),
        action is None ==> after == before,
        is_awaited(before.phase, event) ==> (bad_news(before, event) matches Some(why)
            ==> after.phase == SyncPhase::Done && (action matches Some(SyncAction::Fail(text))
            && mentions(text@, why))),
{
    if is_awaited(before.phase, event) {
        if let Some(why) = bad_news(before, event) {
            match event {
                SyncEvent::Root { .. } => {
                    what_is_written_is_mentioned("`node_root_dir` does not exist: "@, why, ""@);
                    what_is_written_is_mentioned("`node_root_dir` is not a directory: "@, why, ""@);
                    if before.root_dir@.len() == 0 {
                        let told = "Missing `node_root_dir` in node_sync request"@;
                        what_is_written_is_mentioned(Seq::empty(), why, told);
                        assert(Seq::<char>::empty() + why + told =~= told);
                    }
                },
                SyncEvent::Config { .. } => {
                    what_is_written_is_mentioned("Node config file does not exist: "@, why, ""@);
                    what_is_written_is_mentioned("Failed to parse node config: "@, why, ""@);
                },
                SyncEvent::Validated { errors, node_name, node_tag } => {
                    lemma_clean(errors@);
                    let at = choose|k: int|
                        0 <= k < errors@.len() && !((#[trigger] errors@[k]) is Other);
                    assert(!clean(errors@));
                    if let Some(SyncAction::Fail(text)) = action {
                        lemma_report(errors@, node_name@, node_tag@, text@, at);
                    }
                },
                SyncEvent::Generated(_) => {
                    what_is_written_is_mentioned("Failed to generate peppygen: "@, why, ""@);
                    what_is_written_is_mentioned("Failed to write git hash file: "@, why, ""@);
                    what_is_written_is_mentioned("Failed to sync node: "@, why, ""@);
                    what_is_written_is_mentioned(
                        "Failed to generate peppygen (generate task failed): "@,
                        why,
                        ""@,
                    );
                },
                _ => {
                    what_is_written_is_mentioned(""@, why, ""@);
                },
            }
        }
    }
}

/// Good news take a synchronization on, past no step that its request asks for, and
/// from the generation to success. Only then does it succeed, with what it learned
/// of where its dependencies came from.
pub proof fn good_news_take_a_sync_on(
    before: NodeSync,
    event: SyncEvent,
    after: NodeSync,
    action: Option<SyncAction>,
)
    requires
        sync_steps(before, event, after, action),
        is_awaited(before.phase, event),
        bad_news(before, event) is None,
    ensures
        place(after.phase) > place(before.phase),
        after.phase == SyncPhase::Done <==> before.phase == SyncPhase::Generate,
        is_asked_for(before, before.phase) && after.phase != SyncPhase::Done ==> is_asked_for(
            before,
            after.phase,
        ),
        forall|phase: SyncPhase|
            #[trigger] is_asked_for(before, phase) && place(phase) > place(before.phase) ==> place(
                after.phase,
            ) <= place(phase),
        action matches Some(act) && match act {
            SyncAction::ReadConfig => after.phase == SyncPhase::RepoConfig || after.phase
                == SyncPhase::Config,
            SyncAction::Materialize => after.phase == SyncPhase::Repos,
            SyncAction::Validate => after.phase == SyncPhase::Dependencies,
            SyncAction::Collect => after.phase == SyncPhase::Interfaces,
            SyncAction::Generate => after.phase == SyncPhase::Generate,
            SyncAction::Succeed { from_stack, from_repositories } => after.phase == SyncPhase::Done
                && texts(from_repositories@) == texts(before.from_repositories@) && (
            before.from_stack matches Some(list) ==> texts(from_stack@) == texts(list@)),
            SyncAction::Fail(_) => false,
        },
        event matches SyncEvent::Repos(Ok(found)) ==> after.from_stack == Some(found.from_stack)
            && after.from_repositories == found.from_repositories,
        !(event is Repos) ==> after.from_repositories == before.from_repositories,
        event matches SyncEvent::Collected { deps, .. } ==> (before.from_stack is None ==> (
        after.from_stack matches Some(list) && picked(
            deps@.len() as int,
            is_first_held(deps@),
            dep_at(deps@),
            texts(list@),
        ))),
        before.from_stack is Some && !(event is Repos) && !(event is Generated) ==> after.from_stack
            == before.from_stack,
{
    match event {
        SyncEvent::Validated { errors, .. } => {
            lemma_clean(errors@);
            assert(clean(errors@));
        },
        SyncEvent::Collected { deps, .. } => {
            lemma_held(deps@, deps@.len() as int);
        },
        _ => {},
    }
}

/// Whether these are the states, the events and the actions of a synchronization
/// from its beginning.
pub open spec fn is_history(
    states: Seq<NodeSync>,
    events: Seq<SyncEvent>,
    actions: Seq<Option<SyncAction>>,
) -> bool {
    &&& states.len() == events.len() + 1
    &&& actions.len() == events.len()
    &&& states[0].phase == SyncPhase::Root
    &&& forall|k: int|
        0 <= k < events.len() ==> sync_steps(
            #[trigger] states[k],
            events[k],
            states[k + 1],
            #[trigger] actions[k],
        )
}

/// Whether a synchronization went through a phase before its `n`-th event, and was
/// told that all went well there.
pub open spec fn went_well(
    states: Seq<NodeSync>,
    events: Seq<SyncEvent>,
    phase: SyncPhase,
    n: int,
) -> bool {
    exists|k: int|
        0 <= k < n && (#[trigger] states[k]).phase == phase && is_awaited(phase, events[k])
            && bad_news(states[k], events[k]) is None
}

/// Whatever the events: a synchronization comes to a phase only through all of
/// those before it that its request asks for, each of which went well; so it
/// succeeds only where the directory, the manifest, the repositories where they are
/// asked, the dependencies, the interfaces and the generation did.
pub proof fn a_sync_succeeds_only_when_every_step_went_well(
    states: Seq<NodeSync>,
    events: Seq<SyncEvent>,
    actions: Seq<Option<SyncAction>>,
    n: int,
)
    requires
        is_history(states, events, actions),
        0 <= n <= events.len(),
    ensures
        states[n].include_repositories == states[0].include_repositories,
        states[n].phase != SyncPhase::Done ==> forall|phase: SyncPhase|
            #[trigger] is_asked_for(states[0], phase) && place(phase) < place(states[n].phase)
                ==> went_well(states, events, phase, n),
        n > 0 && (actions[n - 1] matches Some(act) && act is Succeed) ==> forall|phase: SyncPhase|
            #[trigger] is_asked_for(states[0], phase) ==> went_well(states, events, phase, n),
    decreases n,
{
    if n > 0 {
        a_sync_succeeds_only_when_every_step_went_well(states, events, actions, n - 1);
        let before = states[n - 1];
        let event = events[n - 1];
        let after = states[n];
        assert(sync_steps(states[n - 1], events[n - 1], states[n - 1 + 1], actions[n - 1]));
        bad_news_end_a_sync(before, event, after, actions[n - 1]);
        if is_awaited(before.phase, event) && bad_news(before, event) is None {
            good_news_take_a_sync_on(before, event, after, actions[n - 1]);
        }
        assert forall|phase: SyncPhase|
            #[trigger] is_asked_for(states[0], phase) && ((after.phase != SyncPhase::Done && place(
                phase,
            ) < place(after.phase)) || (actions[n - 1] matches Some(act) && act is Succeed)) implies went_well(
            states,
            events,
            phase,
            n,
        ) by {
            assert(is_asked_for(before, phase));
            if place(phase) < place(before.phase) {
                assert(went_well(states, events, phase, n - 1));
                let k = choose|k: int|
                    0 <= k < n - 1 && (#[trigger] states[k]).phase == phase && is_awaited(
                        phase,
                        events[k],
                    ) && bad_news(states[k], events[k]) is None;
                assert(states[k].phase == phase);
            } else {
                assert(states[n - 1].phase == phase);
            }
        }
    }
}

/// The stack's answer counts before the repositories', and no answer is lost.
pub proof fn the_stack_answers_first<T>(stack: Option<T>, repositories: Option<T>, r: Option<T>)
    requires
        call_ensures(resolve_dep::<T>, (stack, repositories), r),
    ensures
        stack is Some ==> r == stack,
        stack is None ==> r == repositories,
{
}

} // verus!
