//! One add, step by step.
use super::{has_starting, plan_shutdown, running_ids, starting_text, SourceChecks};
use crate::remove::TrackedInstance;
use crate::sync::{label, label_text};
use crate::run::watch::InstanceState;
use crate::text::{copy_all, join, joined, mentions, texts, what_is_written_is_mentioned};
use vstd::prelude::*;
use vstd::string::*;

verus! {

/// What an add waits for.
#[derive(Clone, Copy, Debug, PartialEq, Eq, Structural)]
pub enum AddPhase {
    /// The source.
    Resolve,
    /// The generation of what is missing beside the sources.
    AutoSync,
    /// The comparison of the generator's commit.
    VerifyHash,
    /// The log's name with the node's name and tag in it.
    RenameLog,
    /// The comparison of the declaration's fingerprint.
    VerifyFingerprint,
    /// The working copy.
    Copy,
    /// The findings about the node's dependencies.
    CheckDependencies,
    ResolveConsumed,
    ResolveConforms,
    Generate,
    /// The instances of the node that is replaced.
    ReadInstances,
    /// The stop of those of them that run.
    Stop,
    /// The node's place in the stack.
    Push,
    /// The node that was just pushed.
    Find,
    Over,
}

/// What is known of a source once it is here.
pub struct ResolvedNode {
    pub name: String,
    pub tag: String,
    /// Whether the source is a directory of its own, to be removed.
    pub has_cleanup: bool,
}

/// How the generation beside the sources ended.
pub enum SyncEnd {
    Done,
    Failed(String),
    TaskFailed(String),
}

/// What came of the step that an add waits for.
pub enum AddEvent {
    Resolved(Result<ResolvedNode, String>),
    Synced(SyncEnd),
    HashVerified(Result<(), String>),
    /// The log's path from here on.
    LogRenamed(String),
    FingerprintVerified(Result<(), String>),
    /// The directories that were left out, or why nothing was copied.
    Copied(Result<Vec<String>, String>),
    DependenciesChecked(Vec<String>),
    ConsumedResolved(Result<(), String>),
    ConformsResolved(Result<(), String>),
    Generated(Result<(), String>),
    /// The instances of the node that is replaced, where there is one.
    InstancesRead(Option<Vec<TrackedInstance>>),
    /// Every instance that was to be stopped is gone.
    Stopped,
    Pushed(Result<(), String>),
    Found(bool),
    /// The task panicked.
    Panicked(String),
}

/// What an add does next.
pub enum AddAction {
    /// What the phase is named after.
    Perform(AddPhase),
    /// Stop these instances together. Those that do not go in time are killed, so
    /// a stop cannot fail.
    Stop(Vec<String>),
    /// Hand the working copy to the node, note the log, drop the source's
    /// directory where `drop_source` says so, and report success.
    Succeed { log_path: String, name: String, tag: String, drop_source: bool },
    /// Drop what is to be dropped, write the text to the log and report it with
    /// the log's path.
    Fail { log_path: String, text: String, drop_source: bool, drop_copy: bool },
}

/// What an add does next, and the lines for the feedback before it.
pub struct AddStep {
    pub lines: Vec<String>,
    pub action: AddAction,
}

/// One add.
pub struct NodeAdd {
    pub checks: SourceChecks,
    /// Why the goal's environment is refused, where it is.
    pub env_refusal: Option<String>,
    /// The path under which the log was made.
    pub first_log_path: String,
    pub log_path: String,
    pub name: String,
    pub tag: String,
    pub has_cleanup: bool,
    /// The instances to stop.
    pub stops: Vec<String>,
    pub phase: AddPhase,
}

/// Whether there is a working copy in this phase.
pub open spec fn has_copy(phase: AddPhase) -> bool {
    match phase {
        AddPhase::CheckDependencies
        | AddPhase::ResolveConsumed
        | AddPhase::ResolveConforms
        | AddPhase::Generate
        | AddPhase::ReadInstances
        | AddPhase::Stop
        | AddPhase::Push
        | AddPhase::Find => true,
        _ => false,
    }
}

/// Whether a step fails the add with this text, under the log's path, and drops
/// what the add has in this phase.
pub open spec fn fails(add: NodeAdd, step: AddStep, log_path: Seq<char>, text: Seq<char>) -> bool {
    step.lines@.len() == 0 && (step.action matches AddAction::Fail {
        log_path: path,
        text: told,
        drop_source,
        drop_copy,
    } && path@ == log_path && told@ == text && drop_source == add.has_cleanup && drop_copy
        == has_copy(add.phase))
}

/// Whether a step silently performs a phase.
pub open spec fn performs(step: AddStep, phase: AddPhase) -> bool {
    step.lines@.len() == 0 && step.action == AddAction::Perform(phase)
}

/// The phase after the source is here.
pub open spec fn first_check(checks: SourceChecks) -> AddPhase {
    if checks.auto_sync {
        AddPhase::AutoSync
    } else if checks.hash_of_dir {
        AddPhase::VerifyHash
    } else {
        AddPhase::RenameLog
    }
}

/// The phase after the generation beside the sources.
pub open spec fn second_check(checks: SourceChecks) -> AddPhase {
    if checks.hash_of_dir {
        AddPhase::VerifyHash
    } else {
        AddPhase::RenameLog
    }
}

/// Whether a step stops the instances that are to be stopped, all at once, or
/// pushes the node where there is none.
pub open spec fn stops_all(after: NodeAdd, step: AddStep) -> bool {
    step.lines@.len() == 0 && if after.stops@.len() > 0 {
        after.phase == AddPhase::Stop && (step.action matches AddAction::Stop(ids) && texts(ids@)
            == texts(after.stops@))
    } else {
        after.phase == AddPhase::Push && step.action == AddAction::Perform(AddPhase::Push)
    }
}

/// What is told about instances that were stopped.
pub open spec fn stopped_lines(ids: Seq<Seq<char>>) -> Seq<Seq<char>> {
    ids.map_values(|id: Seq<char>| id + " has been stopped"@)
}

/// Whether everything but the phase is as it was.
pub open spec fn same_but_phase(before: NodeAdd, after: NodeAdd) -> bool {
    after == (NodeAdd { phase: after.phase, ..before })
}

/// Whether a plain step came out: a failure behind a prefix, or the next phase.
pub open spec fn plainly(
    before: NodeAdd,
    after: NodeAdd,
    s: AddStep,
    result: Result<(), String>,
    prefix: Seq<char>,
    next: AddPhase,
) -> bool {
    same_but_phase(before, after) && match result {
        Err(why) => after.phase == AddPhase::Over && fails(
            before,
            s,
            before.log_path@,
            prefix + why@,
        ),
        Ok(_) => after.phase == next && performs(s, next),
    }
}

/// Whether an event leads an add from one state to another, with this step.
pub open spec fn add_steps(
    before: NodeAdd,
    event: AddEvent,
    after: NodeAdd,
    step: Option<AddStep>,
) -> bool {
    match (before.phase, event) {
        (AddPhase::Over, _) => after == before && step is None,
        (_, AddEvent::Panicked(why)) => same_but_phase(before, after) && after.phase
            == AddPhase::Over && (step matches Some(s) && fails(
            before,
            s,
            before.first_log_path@,
            "node_add task panicked: "@ + why@,
        )),
        (AddPhase::Resolve, AddEvent::Resolved(result)) => step matches Some(s) && match result {
            Err(why) => same_but_phase(before, after) && after.phase == AddPhase::Over && fails(
                before,
                s,
                before.log_path@,
                why@,
            ),
            Ok(node) => after == (NodeAdd {
                name: node.name,
                tag: node.tag,
                has_cleanup: node.has_cleanup,
                phase: first_check(before.checks),
                ..before
            }) && performs(s, first_check(before.checks)),
        },
        (AddPhase::AutoSync, AddEvent::Synced(end)) => step matches Some(s) && match end {
            SyncEnd::Done => same_but_phase(before, after) && after.phase == second_check(
                before.checks,
            ) && performs(s, second_check(before.checks)),
            SyncEnd::Failed(why) => same_but_phase(before, after) && after.phase == AddPhase::Over
                && fails(before, s, before.log_path@, "Auto-sync failed: "@ + why@),
            SyncEnd::TaskFailed(why) => same_but_phase(before, after) && after.phase
                == AddPhase::Over && fails(
                before,
                s,
                before.log_path@,
                "Auto-sync task failed: "@ + why@,
            ),
        },
        (AddPhase::VerifyHash, AddEvent::HashVerified(result)) => step matches Some(s) && plainly(
            before,
            after,
            s,
            result,
            ""@,
            AddPhase::RenameLog,
        ),
        (AddPhase::RenameLog, AddEvent::LogRenamed(path)) => step matches Some(s) && after
            == (NodeAdd { log_path: path, phase: after.phase, ..before })
            && match before.env_refusal {
            Some(why) => after.phase == AddPhase::Over && fails(before, s, path@, why@),
            None => if before.checks.fingerprint {
                after.phase == AddPhase::VerifyFingerprint && performs(
                    s,
                    AddPhase::VerifyFingerprint,
                )
            } else {
                after.phase == AddPhase::Copy && performs(s, AddPhase::Copy)
            },
        },
        (AddPhase::VerifyFingerprint, AddEvent::FingerprintVerified(result)) => step matches Some(s)
            && plainly(
            before,
            after,
            s,
            result,
            "Codegen fingerprint verification failed: "@,
            AddPhase::Copy,
        ),
        (AddPhase::Copy, AddEvent::Copied(result)) => step matches Some(s) && same_but_phase(
            before,
            after,
        ) && match result {
            Err(why) => after.phase == AddPhase::Over && fails(
                before,
                s,
                before.log_path@,
                "Failed to copy node folder: "@ + why@,
            ),
            Ok(excluded) => after.phase == AddPhase::CheckDependencies && s.action
                == AddAction::Perform(AddPhase::CheckDependencies) && texts(s.lines@)
                == if excluded@.len() > 0 {
                seq!["Excluded directories from copy: "@ + joined(texts(excluded@), ", "@)]
            } else {
                seq![]
            },
        },
        (AddPhase::CheckDependencies, AddEvent::DependenciesChecked(findings)) => step matches Some(
            s,
        ) && same_but_phase(before, after) && if findings@.len() > 0 {
            after.phase == AddPhase::Over && fails(
                before,
                s,
                before.log_path@,
                "Failed to add node config: "@ + findings@[0]@,
            )
        } else {
            after.phase == AddPhase::ResolveConsumed && performs(s, AddPhase::ResolveConsumed)
        },
        (AddPhase::ResolveConsumed, AddEvent::ConsumedResolved(result)) => step matches Some(s)
            && plainly(
            before,
            after,
            s,
            result,
            "Failed to resolve consumed interfaces: "@,
            AddPhase::ResolveConforms,
        ),
        (AddPhase::ResolveConforms, AddEvent::ConformsResolved(result)) => step matches Some(s)
            && plainly(
            before,
            after,
            s,
            result,
            "Failed to resolve `conforms_to` interfaces: "@,
            AddPhase::Generate,
        ),
        (AddPhase::Generate, AddEvent::Generated(result)) => step matches Some(s) && plainly(
            before,
            after,
            s,
            result,
            "Failed to generate peppygen library: "@,
            AddPhase::ReadInstances,
        ),
        (AddPhase::ReadInstances, AddEvent::InstancesRead(found)) => step matches Some(s)
            && match found {
            Some(instances) => if has_starting(instances@) {
                same_but_phase(before, after) && after.phase == AddPhase::Over && fails(
                    before,
                    s,
                    before.log_path@,
                    "Failed to shutdown existing node instances: "@ + starting_text(
                        before.name@,
                        before.tag@,
                    ),
                )
            } else {
                after == (NodeAdd { stops: after.stops, phase: after.phase, ..before }) && texts(
                    after.stops@,
                ) == running_ids(instances@) && stops_all(after, s)
            },
            None => after == (NodeAdd { stops: after.stops, phase: after.phase, ..before })
                && after.stops@.len() == 0 && stops_all(after, s),
        },
        (AddPhase::Stop, AddEvent::Stopped) => step matches Some(s) && same_but_phase(before, after)
            && after.phase == AddPhase::Push && s.action == AddAction::Perform(AddPhase::Push)
            && texts(s.lines@) == stopped_lines(texts(before.stops@)),
        (AddPhase::Push, AddEvent::Pushed(result)) => step matches Some(s) && plainly(
            before,
            after,
            s,
            result,
            "Failed to add node config: "@,
            AddPhase::Find,
        ),
        (AddPhase::Find, AddEvent::Found(there)) => step matches Some(s) && same_but_phase(
            before,
            after,
        ) && after.phase == AddPhase::Over && if there {
            s.lines@.len() == 0 && (s.action matches AddAction::Succeed {
                log_path,
                name,
                tag,
                drop_source,
            } && log_path@ == before.log_path@ && name@ == before.name@ && tag@ == before.tag@
                && drop_source == before.has_cleanup)
        } else {
            fails(
                before,
                s,
                before.log_path@,
                "internal error: just-pushed entity "@ + label_text(before.name@, before.tag@)
                    + " disappeared from the stack"@,
            )
        },
        _ => after == before && step is None,
    }
}

/// A silent step.
fn perform(phase: AddPhase) -> (r: Option<AddStep>)
    ensures
        r matches Some(s) && performs(s, phase),
{
    Some(AddStep { lines: Vec::new(), action: AddAction::Perform(phase) })
}

/// Two texts in a row.
fn pair(a: &str, b: &str) -> (r: String)
    ensures
        r@ == a@ + b@,
{
    let mut text: String = a.to_owned();
    text.append(b);
    text
}

/// The lines about instances that were stopped.
fn tell_stopped(ids: &Vec<String>) -> (r: Vec<String>)
    ensures
        texts(r@) == stopped_lines(texts(ids@)),
{
    let mut lines: Vec<String> = Vec::new();
    let mut i: usize = 0;
    while i < ids.len()
        invariant
            i <= ids@.len(),
            lines@.len() == i,
            forall|k: int| 0 <= k < i ==> (#[trigger] lines@[k])@ == ids@[k]@ + " has been stopped"@,
        decreases ids.len() - i,
    {
        lines.push(pair(ids[i].as_str(), " has been stopped"));
        i += 1;
    }
    proof {
        assert(texts(lines@) =~= stopped_lines(texts(ids@)));
    }
    lines
}

impl NodeAdd {
    /// Whether the add has a directory of its source only once the source is
    /// here.
    pub open spec fn valid(self) -> bool {
        self.phase == AddPhase::Resolve ==> !self.has_cleanup
    }

    /// An add at its beginning. `env_refusal` tells why the goal's environment is
    /// refused, where it is.
    pub fn new(checks: SourceChecks, env_refusal: Option<String>, log_path: String) -> (r: Self)
        ensures
            r.valid(),
            r.checks == checks,
            r.env_refusal == env_refusal,
            r.first_log_path@ == log_path@,
            r.log_path@ == log_path@,
            r.phase == AddPhase::Resolve,
            !r.has_cleanup,
            r.stops@.len() == 0,
    {
        NodeAdd {
            checks,
            env_refusal,
            first_log_path: log_path.clone(),
            log_path,
            name: String::new(),
            tag: String::new(),
            has_cleanup: false,
            stops: Vec::new(),
            phase: AddPhase::Resolve,
        }
    }

    /// Fails the add and drops what it has.
    fn fail(&mut self, log_path: String, text: String) -> (r: Option<AddStep>)
        ensures
            *final(self) == (NodeAdd { phase: AddPhase::Over, ..*old(self) }),
            r matches Some(s) && fails(*old(self), s, log_path@, text@),
    {
        let drop_source: bool = self.has_cleanup;
        let drop_copy: bool = match self.phase {
            AddPhase::CheckDependencies
            | AddPhase::ResolveConsumed
            | AddPhase::ResolveConforms
            | AddPhase::Generate
            | AddPhase::ReadInstances
            | AddPhase::Stop
            | AddPhase::Push
            | AddPhase::Find => true,
            _ => false,
        };
        self.phase = AddPhase::Over;
        Some(
            AddStep {
                lines: Vec::new(),
                action: AddAction::Fail { log_path, text, drop_source, drop_copy },
            },
        )
    }

    /// Goes on after a plain step.
    fn plain(&mut self, result: Result<(), String>, prefix: &str, next: AddPhase) -> (r: Option<
        AddStep,
    >)
        ensures
            r matches Some(s) && plainly(*old(self), *final(self), s, result, prefix@, next),
    {
        match result {
            Err(why) => {
                let path = self.log_path.clone();
                self.fail(path, pair(prefix, why.as_str()))
            },
            Ok(_) => {
                self.phase = next;
                perform(next)
            },
        }
    }

    /// Stops these instances, or pushes the node where there is none.
    fn stop_all(&mut self, ids: Vec<String>) -> (r: Option<AddStep>)
        ensures
            *final(self) == (NodeAdd { stops: ids, phase: final(self).phase, ..*old(self) }),
            final(self).phase != AddPhase::Resolve,
            r matches Some(s) && stops_all(*final(self), s),
    {
        self.stops = ids;
        if self.stops.len() > 0 {
            self.phase = AddPhase::Stop;
            let action = AddAction::Stop(copy_all(&self.stops));
            Some(AddStep { lines: Vec::new(), action })
        } else {
            self.phase = AddPhase::Push;
            perform(AddPhase::Push)
        }
    }

    /// Takes what came of the last step and gives the next one; `None`, and no
    /// change, where the add waits for something else.
    #[verifier::rlimit(60)]
    pub fn step(&mut self, event: AddEvent) -> (r: Option<AddStep>)
        requires
            old(self).valid(),
        ensures
            final(self).valid(),
            add_steps(*old(self), event, *final(self), r),
    {
        match (self.phase, event) {
            (AddPhase::Over, _) => None,
            (_, AddEvent::Panicked(why)) => {
                let path = self.first_log_path.clone();
                self.fail(path, pair("node_add task panicked: ", why.as_str()))
            },
            (AddPhase::Resolve, AddEvent::Resolved(result)) => match result {
                Err(why) => {
                    let path = self.log_path.clone();
                    self.fail(path, why)
                },
                Ok(node) => {
                    self.name = node.name;
                    self.tag = node.tag;
                    self.has_cleanup = node.has_cleanup;
                    let next = if self.checks.auto_sync {
                        AddPhase::AutoSync
                    } else if self.checks.hash_of_dir {
                        AddPhase::VerifyHash
                    } else {
                        AddPhase::RenameLog
                    };
                    self.phase = next;
                    perform(next)
                },
            },
            (AddPhase::AutoSync, AddEvent::Synced(end)) => match end {
                SyncEnd::Done => {
                    let next = if self.checks.hash_of_dir {
                        AddPhase::VerifyHash
                    } else {
                        AddPhase::RenameLog
                    };
                    self.phase = next;
                    perform(next)
                },
                SyncEnd::Failed(why) => {
                    let path = self.log_path.clone();
                    self.fail(path, pair("Auto-sync failed: ", why.as_str()))
                },
                SyncEnd::TaskFailed(why) => {
                    let path = self.log_path.clone();
                    self.fail(path, pair("Auto-sync task failed: ", why.as_str()))
                },
            },
            (AddPhase::VerifyHash, AddEvent::HashVerified(result)) => self.plain(
                result,
                "",
                AddPhase::RenameLog,
            ),
            (AddPhase::RenameLog, AddEvent::LogRenamed(path)) => {
                let refused: Option<String> = match &self.env_refusal {
                    Some(why) => Some(why.clone()),
                    None => None,
                };
                if let Some(why) = refused {
                    let told = path.clone();
                    let step = self.fail(told, why);
                    self.log_path = path;
                    return step;
                }
                self.log_path = path;
                let next = if self.checks.fingerprint {
                    AddPhase::VerifyFingerprint
                } else {
                    AddPhase::Copy
                };
                self.phase = next;
                perform(next)
            },
            (AddPhase::VerifyFingerprint, AddEvent::FingerprintVerified(result)) => self.plain(
                result,
                "Codegen fingerprint verification failed: ",
                AddPhase::Copy,
            ),
            (AddPhase::Copy, AddEvent::Copied(result)) => match result {
                Err(why) => {
                    let path = self.log_path.clone();
                    self.fail(path, pair("Failed to copy node folder: ", why.as_str()))
                },
                Ok(excluded) => {
                    self.phase = AddPhase::CheckDependencies;
                    let mut lines: Vec<String> = Vec::new();
                    if excluded.len() > 0 {
                        lines.push(
                            pair(
                                "Excluded directories from copy: ",
                                join(&excluded, ", ").as_str(),
                            ),
                        );
                    }
                    proof {
                        assert(texts(lines@) =~= if excluded@.len() > 0 {
                            seq![
                                "Excluded directories from copy: "@ + joined(
                                    texts(excluded@),
                                    ", "@,
                                ),
                            ]
                        } else {
                            seq![]
                        });
                    }
                    Some(
                        AddStep { lines, action: AddAction::Perform(AddPhase::CheckDependencies) },
                    )
                },
            },
            (AddPhase::CheckDependencies, AddEvent::DependenciesChecked(findings)) => {
                if findings.len() > 0 {
                    let path = self.log_path.clone();
                    return self.fail(
                        path,
                        pair("Failed to add node config: ", findings[0].as_str()),
                    );
                }
                self.phase = AddPhase::ResolveConsumed;
                perform(AddPhase::ResolveConsumed)
            },
            (AddPhase::ResolveConsumed, AddEvent::ConsumedResolved(result)) => self.plain(
                result,
                "Failed to resolve consumed interfaces: ",
                AddPhase::ResolveConforms,
            ),
            (AddPhase::ResolveConforms, AddEvent::ConformsResolved(result)) => self.plain(
                result,
                "Failed to resolve `conforms_to` interfaces: ",
                AddPhase::Generate,
            ),
            (AddPhase::Generate, AddEvent::Generated(result)) => self.plain(
                result,
                "Failed to generate peppygen library: ",
                AddPhase::ReadInstances,
            ),
            (AddPhase::ReadInstances, AddEvent::InstancesRead(found)) => match found {
                Some(instances) => match plan_shutdown(
                    self.name.as_str(),
                    self.tag.as_str(),
                    &instances,
                ) {
                    Err(why) => {
                        let path = self.log_path.clone();
                        self.fail(
                            path,
                            pair("Failed to shutdown existing node instances: ", why.as_str()),
                        )
                    },
                    Ok(ids) => self.stop_all(ids),
                },
                None => self.stop_all(Vec::new()),
            },
            (AddPhase::Stop, AddEvent::Stopped) => {
                self.phase = AddPhase::Push;
                let lines = tell_stopped(&self.stops);
                Some(AddStep { lines, action: AddAction::Perform(AddPhase::Push) })
            },
            (AddPhase::Push, AddEvent::Pushed(result)) => self.plain(
                result,
                "Failed to add node config: ",
                AddPhase::Find,
            ),
            (AddPhase::Find, AddEvent::Found(there)) => {
                if !there {
                    let mut text: String = "internal error: just-pushed entity ".to_owned();
                    text.append(label(self.name.as_str(), self.tag.as_str()).as_str());
                    text.append(" disappeared from the stack");
                    let path = self.log_path.clone();
                    return self.fail(path, text);
                }
                self.phase = AddPhase::Over;
                Some(
                    AddStep {
                        lines: Vec::new(),
                        action: AddAction::Succeed {
                            log_path: self.log_path.clone(),
                            name: self.name.clone(),
                            tag: self.tag.clone(),
                            drop_source: self.has_cleanup,
                        },
                    },
                )
            },
            _ => None,
        }
    }
}

/// How the generated library is put beside a node's sources: copied into a
/// container's node, whose image cannot follow links out of it, and linked
/// elsewhere.
pub fn copies_library(is_container: bool) -> (r: bool)
    ensures
        r == is_container,
{
    is_container
}

/// The report of an add that a forced one took the place of.
pub fn superseded_text() -> (r: String)
    ensures
        r@ == "add cancelled by --force"@,
{
    "add cancelled by --force".to_owned()
}

/// An add that fails drops its working copy, where it has made one; an add that
/// succeeds hands it to the node, and it does so only once the stack holds the
/// node.
pub proof fn a_failed_add_leaves_no_copy(
    before: NodeAdd,
    event: AddEvent,
    after: NodeAdd,
    step: Option<AddStep>,
)
    requires
        before.valid(),
        add_steps(before, event, after, step),
        before.phase != AddPhase::Over,
        after.phase == AddPhase::Over,
    ensures
        step matches Some(s) && match s.action {
            AddAction::Fail { drop_copy, .. } => drop_copy == has_copy(before.phase),
            AddAction::Succeed { .. } => before.phase == AddPhase::Find && event == AddEvent::Found(
                true,
            ),
            _ => false,
        },
{
}

/// An add that ends leaves no directory of its source, whichever way it ends.
pub proof fn a_finished_add_leaves_no_source(
    before: NodeAdd,
    event: AddEvent,
    after: NodeAdd,
    step: Option<AddStep>,
)
    requires
        before.valid(),
        add_steps(before, event, after, step),
        before.phase != AddPhase::Over,
        after.phase == AddPhase::Over,
    ensures
        step matches Some(s) && match s.action {
            AddAction::Fail { drop_source, .. } => drop_source == before.has_cleanup,
            AddAction::Succeed { drop_source, .. } => drop_source == before.has_cleanup,
            _ => false,
        },
{
}

/// The instances of a node that is replaced are stopped in one batch, all that
/// run of them, and whatever becomes of each the node is pushed next.
pub proof fn a_replaced_node_is_stopped_in_one_batch(
    before: NodeAdd,
    instances: Vec<TrackedInstance>,
    between: NodeAdd,
    asked: Option<AddStep>,
    after: NodeAdd,
    pushed: Option<AddStep>,
)
    requires
        before.phase == AddPhase::ReadInstances,
        !has_starting(instances@),
        running_ids(instances@).len() > 0,
        add_steps(before, AddEvent::InstancesRead(Some(instances)), between, asked),
        add_steps(between, AddEvent::Stopped, after, pushed),
    ensures
        asked matches Some(s) && (s.action matches AddAction::Stop(ids) && texts(ids@)
            == running_ids(instances@)),
        after.phase == AddPhase::Push,
        pushed matches Some(s) && s.action == AddAction::Perform(AddPhase::Push) && texts(s.lines@)
            == stopped_lines(running_ids(instances@)),
{
    assert(texts(between.stops@).len() == between.stops@.len());
}

/// A node is pushed only after the running instances of the one that it replaces
/// were stopped, and never while one of them is starting.
pub proof fn nothing_runs_when_a_node_is_replaced(
    before: NodeAdd,
    event: AddEvent,
    after: NodeAdd,
    step: Option<AddStep>,
)
    requires
        before.valid(),
        add_steps(before, event, after, step),
        before.phase != AddPhase::Push,
        after.phase == AddPhase::Push,
    ensures
        match event {
            AddEvent::InstancesRead(Some(instances)) => !has_starting(instances@) && running_ids(
                instances@,
            ).len() == 0,
            AddEvent::InstancesRead(None) => true,
            AddEvent::Stopped => before.phase == AddPhase::Stop,
            _ => false,
        },
{
    if let AddEvent::InstancesRead(Some(instances)) = event {
        assert(texts(after.stops@).len() == after.stops@.len());
    }
}

/// A call of `step` leads an add as `add_steps` says.
pub proof fn a_call_steps_the_add(add: &mut NodeAdd, event: AddEvent, step: Option<AddStep>)
    requires
        call_ensures(NodeAdd::step, (add, event), step),
    ensures
        add_steps(*old(add), event, *final(add), step),
        final(add).valid(),
{
}

/// Whether an event is the one that an add in this phase waits for.
pub open spec fn is_awaited(phase: AddPhase, event: AddEvent) -> bool {
    match event {
        AddEvent::Resolved(_) => phase == AddPhase::Resolve,
        AddEvent::Synced(_) => phase == AddPhase::AutoSync,
        AddEvent::HashVerified(_) => phase == AddPhase::VerifyHash,
        AddEvent::LogRenamed(_) => phase == AddPhase::RenameLog,
        AddEvent::FingerprintVerified(_) => phase == AddPhase::VerifyFingerprint,
        AddEvent::Copied(_) => phase == AddPhase::Copy,
        AddEvent::DependenciesChecked(_) => phase == AddPhase::CheckDependencies,
        AddEvent::ConsumedResolved(_) => phase == AddPhase::ResolveConsumed,
        AddEvent::ConformsResolved(_) => phase == AddPhase::ResolveConforms,
        AddEvent::Generated(_) => phase == AddPhase::Generate,
        AddEvent::InstancesRead(_) => phase == AddPhase::ReadInstances,
        AddEvent::Stopped => phase == AddPhase::Stop,
        AddEvent::Pushed(_) => phase == AddPhase::Push,
        AddEvent::Found(_) => phase == AddPhase::Find,
        AddEvent::Panicked(_) => phase != AddPhase::Over,
    }
}

/// Why something did not go well, where it did not.
pub open spec fn problem_of<T>(result: Result<T, String>) -> Option<Seq<char>> {
    match result {
        Ok(_) => None,
        Err(why) => Some(why@),
    }
}

/// The bad news that an event brings an add, where it brings any: the failure of
/// what was waited for, a finding, an environment that is refused, or an instance
/// that is starting.
pub open spec fn bad_news(add: NodeAdd, event: AddEvent) -> Option<Seq<char>> {
    match event {
        AddEvent::Resolved(result) => problem_of(result),
        AddEvent::Synced(SyncEnd::Done) => None,
        AddEvent::Synced(SyncEnd::Failed(why)) => Some(why@),
        AddEvent::Synced(SyncEnd::TaskFailed(why)) => Some(why@),
        AddEvent::HashVerified(result) => problem_of(result),
        AddEvent::LogRenamed(_) => match add.env_refusal {
            Some(why) => Some(why@),
            None => None,
        },
        AddEvent::FingerprintVerified(result) => problem_of(result),
        AddEvent::Copied(result) => problem_of(result),
        AddEvent::DependenciesChecked(findings) => if findings@.len() > 0 {
            Some(findings@[0]@)
        } else {
            None
        },
        AddEvent::ConsumedResolved(result) => problem_of(result),
        AddEvent::ConformsResolved(result) => problem_of(result),
        AddEvent::Generated(result) => problem_of(result),
        AddEvent::InstancesRead(Some(list)) => if exists|k: int|
            0 <= k < list@.len() && (#[trigger] list@[k]).state == InstanceState::Starting {
            Some(label_text(add.name@, add.tag@))
        } else {
            None
        },
        AddEvent::InstancesRead(None) => None,
        AddEvent::Stopped => None,
        AddEvent::Pushed(result) => problem_of(result),
        AddEvent::Found(there) => if there {
            None
        } else {
            Some(label_text(add.name@, add.tag@))
        },
        AddEvent::Panicked(why) => Some(why@),
    }
}

/// The place of a phase in the order of an add.
pub open spec fn place(phase: AddPhase) -> int {
    match phase {
        AddPhase::Resolve => 0,
        AddPhase::AutoSync => 1,
        AddPhase::VerifyHash => 2,
        AddPhase::RenameLog => 3,
        AddPhase::VerifyFingerprint => 4,
        AddPhase::Copy => 5,
        AddPhase::CheckDependencies => 6,
        AddPhase::ResolveConsumed => 7,
        AddPhase::ResolveConforms => 8,
        AddPhase::Generate => 9,
        AddPhase::ReadInstances => 10,
        AddPhase::Stop => 11,
        AddPhase::Push => 12,
        AddPhase::Find => 13,
        AddPhase::Over => 14,
    }
}

/// Whether an add has to go through a phase whatever else happens.
pub open spec fn is_asked_for(checks: SourceChecks, phase: AddPhase) -> bool {
    match phase {
        AddPhase::AutoSync => checks.auto_sync,
        AddPhase::VerifyHash => checks.hash_of_dir,
        AddPhase::VerifyFingerprint => checks.fingerprint,
        AddPhase::Stop | AddPhase::Over => false,
        _ => true,
    }
}

/// An add moves only when it is told what it waits for; a panic it takes at any
/// time until it is over.
pub proof fn an_add_moves_when_it_is_told_what_it_waits_for(
    before: NodeAdd,
    event: AddEvent,
    after: NodeAdd,
    step: Option<AddStep>,
)
    requires
        add_steps(before, event, after, step),
    ensures
        step is Some <==> is_awaited(before.phase, event),
        step is None ==> after == before,
{
}

/// No add goes on after bad news, whatever step brings them: it fails, reports
/// them, and is over.
pub proof fn bad_news_ends_an_add(
    before: NodeAdd,
    event: AddEvent,
    after: NodeAdd,
    step: Option<AddStep>,
)
    requires
        add_steps(before, event, after, step),
        is_awaited(before.phase, event),
        bad_news(before, event) is Some,
    ensures
        after.phase == AddPhase::Over,
        step matches Some(s) && (s.action matches AddAction::Fail {
            log_path,
            text,
            drop_source,
            drop_copy,
        } && mentions(text@, bad_news(before, event)->0) && drop_source == before.has_cleanup
            && drop_copy == (place(before.phase) > place(AddPhase::Copy)) && log_path@ == (match event {
            AddEvent::Panicked(_) => before.first_log_path@,
            AddEvent::LogRenamed(path) => path@,
            _ => before.log_path@,
        })),
{
    let why = bad_news(before, event)->0;
    match event {
        AddEvent::Resolved(_) | AddEvent::LogRenamed(_) => {
            what_is_written_is_mentioned(""@, why, ""@);
        },
        AddEvent::Synced(SyncEnd::Failed(_)) => {
            what_is_written_is_mentioned("Auto-sync failed: "@, why, ""@);
        },
        AddEvent::Synced(_) => {
            what_is_written_is_mentioned("Auto-sync task failed: "@, why, ""@);
        },
        AddEvent::HashVerified(_) => {
            what_is_written_is_mentioned(""@, why, ""@);
        },
        AddEvent::FingerprintVerified(_) => {
            what_is_written_is_mentioned("Codegen fingerprint verification failed: "@, why, ""@);
        },
        AddEvent::Copied(_) => {
            what_is_written_is_mentioned("Failed to copy node folder: "@, why, ""@);
        },
        AddEvent::DependenciesChecked(_) | AddEvent::Pushed(_) => {
            what_is_written_is_mentioned("Failed to add node config: "@, why, ""@);
        },
        AddEvent::ConsumedResolved(_) => {
            what_is_written_is_mentioned("Failed to resolve consumed interfaces: "@, why, ""@);
        },
        AddEvent::ConformsResolved(_) => {
            what_is_written_is_mentioned("Failed to resolve `conforms_to` interfaces: "@, why, ""@);
        },
        AddEvent::Generated(_) => {
            what_is_written_is_mentioned("Failed to generate peppygen library: "@, why, ""@);
        },
        AddEvent::InstancesRead(found) => {
            assert(has_starting(found->0@));
            let before_it = "Failed to shutdown existing node instances: "@ + "node '"@;
            let after_it =
                "' has an instance in Starting state; cannot overwrite a node with live instances"@;
            what_is_written_is_mentioned(before_it, why, after_it);
            assert("Failed to shutdown existing node instances: "@ + starting_text(
                before.name@,
                before.tag@,
            ) =~= before_it + why + after_it);
        },
        AddEvent::Found(_) => {
            what_is_written_is_mentioned(
                "internal error: just-pushed entity "@,
                why,
                " disappeared from the stack"@,
            );
        },
        AddEvent::Panicked(_) => {
            what_is_written_is_mentioned("node_add task panicked: "@, why, ""@);
        },
        AddEvent::Stopped => {},
    }
}

/// Good news take an add on: to a later step, past none that its checks ask for,
/// and from the last one to success. What the add does next is what it waits for
/// then.
pub proof fn good_news_take_an_add_on(
    before: NodeAdd,
    event: AddEvent,
    after: NodeAdd,
    step: Option<AddStep>,
)
    requires
        add_steps(before, event, after, step),
        is_awaited(before.phase, event),
        bad_news(before, event) is None,
    ensures
        place(after.phase) > place(before.phase),
        after.phase == AddPhase::Over <==> before.phase == AddPhase::Find,
        forall|phase: AddPhase|
            #[trigger] is_asked_for(before.checks, phase) && place(phase) > place(before.phase)
                ==> place(after.phase) <= place(phase),
        after.phase == AddPhase::Stop || after.phase == AddPhase::Over || is_asked_for(
            before.checks,
            after.phase,
        ),
        step matches Some(s) && match s.action {
            AddAction::Perform(phase) => phase == after.phase && phase != AddPhase::Stop && phase
                != AddPhase::Over,
            AddAction::Stop(_) => after.phase == AddPhase::Stop,
            AddAction::Succeed { log_path, name, tag, drop_source } => after.phase == AddPhase::Over
                && log_path@ == before.log_path@ && name@ == before.name@ && tag@ == before.tag@
                && drop_source == before.has_cleanup,
            AddAction::Fail { .. } => false,
        },
{
    if let AddEvent::InstancesRead(Some(list)) = event {
        assert(!has_starting(list@));
    }
}

/// What an add learns it keeps: the node and its directory from the source, the
/// log's path from the rename, and all else from its beginning.
pub proof fn an_add_keeps_what_it_learned(
    before: NodeAdd,
    event: AddEvent,
    after: NodeAdd,
    step: Option<AddStep>,
)
    requires
        add_steps(before, event, after, step),
    ensures
        after.checks == before.checks,
        after.env_refusal == before.env_refusal,
        after.first_log_path == before.first_log_path,
        match event {
            AddEvent::Resolved(Ok(node)) if before.phase == AddPhase::Resolve => after.name
                == node.name && after.tag == node.tag && after.has_cleanup == node.has_cleanup,
            _ => after.name == before.name && after.tag == before.tag && after.has_cleanup
                == before.has_cleanup,
        },
        match event {
            AddEvent::LogRenamed(path) if before.phase == AddPhase::RenameLog => after.log_path
                == path,
            _ => after.log_path == before.log_path,
        },
{
}

/// Whether these are the states, the events and the steps of an add from its
/// beginning.
pub open spec fn is_history(
    states: Seq<NodeAdd>,
    events: Seq<AddEvent>,
    steps: Seq<Option<AddStep>>,
) -> bool {
    &&& states.len() == events.len() + 1
    &&& steps.len() == events.len()
    &&& states[0].phase == AddPhase::Resolve
    &&& forall|k: int|
        0 <= k < events.len() ==> add_steps(
            #[trigger] states[k],
            events[k],
            states[k + 1],
            #[trigger] steps[k],
        )
}

/// Whether an add went through a phase before its `n`-th event, and was told that
/// all went well there.
pub open spec fn went_well(
    states: Seq<NodeAdd>,
    events: Seq<AddEvent>,
    phase: AddPhase,
    n: int,
) -> bool {
    exists|k: int|
        0 <= k < n && (#[trigger] states[k]).phase == phase && is_awaited(phase, events[k])
            && bad_news(states[k], events[k]) is None
}

/// An add that has come to a phase went well through every one before it that its
/// checks ask for.
proof fn lemma_history(
    states: Seq<NodeAdd>,
    events: Seq<AddEvent>,
    steps: Seq<Option<AddStep>>,
    n: int,
)
    requires
        is_history(states, events, steps),
        0 <= n <= events.len(),
    ensures
        states[n].checks == states[0].checks,
        states[n].env_refusal == states[0].env_refusal,
        states[n].phase != AddPhase::Over ==> forall|phase: AddPhase|
            #[trigger] is_asked_for(states[0].checks, phase) && place(phase) < place(
                states[n].phase,
            ) ==> went_well(states, events, phase, n),
    decreases n,
{
    if n > 0 {
        lemma_history(states, events, steps, n - 1);
        let before = states[n - 1];
        let event = events[n - 1];
        let after = states[n];
        assert(add_steps(states[n - 1], events[n - 1], states[n - 1 + 1], steps[n - 1]));
        if after.phase != AddPhase::Over {
            if is_awaited(before.phase, event) {
                if bad_news(before, event) is Some {
                    bad_news_ends_an_add(before, event, after, steps[n - 1]);
                } else {
                    good_news_take_an_add_on(before, event, after, steps[n - 1]);
                }
            } else {
                an_add_moves_when_it_is_told_what_it_waits_for(before, event, after, steps[n - 1]);
            }
            assert forall|phase: AddPhase|
                #[trigger] is_asked_for(states[0].checks, phase) && place(phase) < place(
                    after.phase,
                ) implies went_well(states, events, phase, n) by {
                if place(phase) < place(before.phase) {
                    assert(went_well(states, events, phase, n - 1));
                    let k = choose|k: int|
                        0 <= k < n - 1 && (#[trigger] states[k]).phase == phase && is_awaited(
                            phase,
                            events[k],
                        ) && bad_news(states[k], events[k]) is None;
                    assert(states[k].phase == phase);
                } else {
                    assert(is_asked_for(before.checks, phase));
                    assert(states[n - 1].phase == phase);
                }
            }
        }
    }
}

/// Whatever the events: an add that succeeds went through every step that its
/// checks ask for, and through the copy, the dependencies, the interfaces, the
/// generation and the push, and was told each time that all went well.
pub proof fn an_add_succeeds_only_when_every_step_went_well(
    states: Seq<NodeAdd>,
    events: Seq<AddEvent>,
    steps: Seq<Option<AddStep>>,
    n: int,
    phase: AddPhase,
)
    requires
        is_history(states, events, steps),
        0 <= n < events.len(),
        steps[n] matches Some(s) && s.action is Succeed,
        is_asked_for(states[0].checks, phase),
    ensures
        went_well(states, events, phase, n + 1),
        states[0].env_refusal is None,
{
    lemma_history(states, events, steps, n);
    assert(add_steps(states[n], events[n], states[n + 1], steps[n]));
    assert(states[n].phase == AddPhase::Find);
    assert forall|q: AddPhase| #[trigger] is_asked_for(states[0].checks, q) implies went_well(
        states,
        events,
        q,
        n + 1,
    ) by {
        if place(q) < place(AddPhase::Find) {
            assert(went_well(states, events, q, n));
            let k = choose|k: int|
                0 <= k < n && (#[trigger] states[k]).phase == q && is_awaited(q, events[k])
                    && bad_news(states[k], events[k]) is None;
            assert(states[k].phase == q);
        } else {
            assert(q == AddPhase::Find);
            assert(states[n].phase == q);
        }
    }
    assert(is_asked_for(states[0].checks, AddPhase::RenameLog));
    let k = choose|k: int|
        0 <= k < n + 1 && (#[trigger] states[k]).phase == AddPhase::RenameLog && is_awaited(
            AddPhase::RenameLog,
            events[k],
        ) && bad_news(states[k], events[k]) is None;
    lemma_history(states, events, steps, k);
    assert(is_awaited(AddPhase::RenameLog, events[k]) && !(events[k] is Panicked));
}

} // verus!
