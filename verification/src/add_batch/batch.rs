//! The adds of one batch, in dependency order.
use super::{
    a_covered_batch_has_no_gaps, batch_gaps, closure_gaps, gaps_header, is_among, is_gap,
    is_listed, lemma_is_gap, reports_gaps, rollback, undo_views, Undo, UndoView,
};
use crate::order::{pair_texts, PairText};
use crate::pins::{identity_of, EntryOrigin, MaterializedPin};
use crate::sync::{label, label_text};
use crate::text::{
    decimal, join, joined, mentions, str_eq, texts, to_decimal, what_is_written_is_mentioned,
};
use vstd::prelude::*;
use vstd::string::*;

verus! {

/// What a batch waits for. Nodes are named by their places in the batch.
#[derive(Clone, Copy, Debug, PartialEq, Eq, Structural)]
pub enum BatchPhase {
    /// The identities that the stack holds.
    Entry,
    /// The dependency order.
    Sort,
    /// Whether the stack holds this node with an identical manifest.
    Identical(usize),
    /// The add of this node.
    Sub(usize),
    Over,
}

/// What came of one add of the batch.
pub struct AddReport {
    pub success: bool,
    pub error_message: Option<String>,
    pub log_path: String,
}

/// What came of the action that a batch waits for.
pub enum BatchEvent {
    InStack(Vec<(String, String)>),
    /// The identities in dependency order, or why there is none.
    Sorted(Result<Vec<(String, String)>, String>),
    Identical(bool),
    /// What came of an add, and whether it replaced a node.
    Added { report: Result<AddReport, String>, replaced: bool },
}

/// What a batch does next.
pub enum BatchAction {
    /// Put the nodes into dependency order.
    Sort,
    /// Compare this node with the stack's.
    Compare(usize),
    /// Add this node, keeping what it replaces.
    Add(usize),
    /// Report success: the log to point at, where an add made one, and the
    /// root's identity.
    Succeed { log_path: Option<String>, name: String, tag: String },
    /// Report that the pins do not cover the closure.
    RefuseGaps(Vec<String>),
    /// Undo these adds in this order and report a failure.
    Fail { undo: Vec<Undo>, text: String },
}

/// What a batch does next, and the lines for the feedback stream before it.
pub struct BatchStep {
    pub lines: Vec<String>,
    pub action: BatchAction,
}

/// One batch.
pub struct BatchAdd {
    pub nodes: Vec<MaterializedPin>,
    pub order: Vec<(String, String)>,
    /// How many entries of the order are done.
    pub at: usize,
    pub added: Vec<Undo>,
    pub last_log: Option<String>,
    pub phase: BatchPhase,
}

/// Where the batch holds an identity, looking at the first `n` nodes: the last
/// such place, or -1.
pub open spec fn place_of(nodes: Seq<MaterializedPin>, key: PairText, n: int) -> int
    decreases n,
{
    if n <= 0 || n > nodes.len() {
        -1
    } else if identity_of(nodes[n - 1]) == key {
        n - 1
    } else {
        place_of(nodes, key, n - 1)
    }
}

/// A place that was found is a place in the batch.
proof fn lemma_place_of(nodes: Seq<MaterializedPin>, key: PairText, n: int)
    ensures
        place_of(nodes, key, n) < nodes.len(),
    decreases n,
{
    if 0 < n <= nodes.len() {
        lemma_place_of(nodes, key, n - 1);
    }
}

/// The word for an origin.
pub open spec fn origin_text(origin: EntryOrigin) -> Seq<char> {
    match origin {
        EntryOrigin::Git { .. } => "git"@,
        EntryOrigin::Fs { .. } => "fs"@,
    }
}

/// A node's identity as messages write it.
pub open spec fn node_text(node: MaterializedPin) -> Seq<char> {
    label_text(node.pin.name@, node.pin.tag@)
}

/// The line that announces an add.
pub open spec fn adding_text(node: MaterializedPin) -> Seq<char> {
    "Adding "@ + node_text(node) + " ("@ + origin_text(node.pin.origin) + ")"@
}

/// The line that announces a skipped node.
pub open spec fn skipping_text(node: MaterializedPin) -> Seq<char> {
    "Skipping "@ + node_text(node) + ": already in the stack with an identical manifest"@
}

/// The line that announces a batch.
pub open spec fn resolved_text(nodes: Seq<MaterializedPin>) -> Seq<char> {
    "Batch resolved: "@ + decimal(nodes.len()) + " node(s) to add: "@ + joined(
        nodes.map_values(|node: MaterializedPin| node_text(node)),
        ", "@,
    )
}

/// The line that ends a batch.
pub open spec fn complete_text(nodes: Seq<MaterializedPin>) -> Seq<char> {
    "Batch add complete: "@ + decimal(nodes.len()) + " node(s) added"@
}

/// Whether a step fails the batch with this text and undoes every add.
pub open spec fn fails_with(before: BatchAdd, step: BatchStep, text: Seq<char>) -> bool {
    step.action matches BatchAction::Fail { undo, text: told } && told@ == text && undo_views(undo@)
        == undo_views(before.added@).reverse()
}

/// Whether a batch goes on from its place in the order as it should: the next
/// node is added where it is the root and compared with the stack where it is
/// not, and the batch succeeds at the end of the order. `lines` are those that
/// stand already.
pub open spec fn goes_on(batch: BatchAdd, lines: Seq<Seq<char>>, phase: BatchPhase, step: BatchStep) -> bool {
    if batch.at >= batch.order@.len() {
        &&& phase == BatchPhase::Over
        &&& texts(step.lines@) == lines.push(complete_text(batch.nodes@))
        &&& step.action matches BatchAction::Succeed { log_path, name, tag } && log_path
            == batch.last_log && (name@, tag@) == identity_of(batch.nodes@[0])
    } else {
        let key = pair_texts(batch.order@)[batch.at as int];
        let place = place_of(batch.nodes@, key, batch.nodes@.len() as int);
        if place < 0 {
            &&& phase == BatchPhase::Over
            &&& texts(step.lines@) == lines
            &&& fails_with(
                batch,
                step,
                "internal error: topological order produced a node not in the batch ("@ + key.0
                    + ":"@ + key.1 + ")"@,
            )
        } else if batch.nodes@[place].is_root {
            &&& phase == BatchPhase::Sub(place as usize)
            &&& texts(step.lines@) == lines.push(adding_text(batch.nodes@[place]))
            &&& step.action == BatchAction::Add(place as usize)
        } else {
            &&& phase == BatchPhase::Identical(place as usize)
            &&& texts(step.lines@) == lines
            &&& step.action == BatchAction::Compare(place as usize)
        }
    }
}

/// Why an add failed, where it did.
pub open spec fn add_failure(report: Result<AddReport, String>) -> Option<Seq<char>> {
    match report {
        Err(why) => Some(why@),
        Ok(done) => if done.success {
            None
        } else {
            Some(
                match done.error_message {
                    Some(why) => why@,
                    None => "unknown node-add failure"@,
                },
            )
        },
    }
}

/// Whether an event leads a batch from one state to another, with this step.
pub open spec fn batch_steps(
    before: BatchAdd,
    event: BatchEvent,
    after: BatchAdd,
    step: Option<BatchStep>,
) -> bool {
    &&& after.nodes == before.nodes
    &&& match (before.phase, event) {
        (BatchPhase::Entry, BatchEvent::InStack(held)) => step matches Some(s) && (if !(
        before.nodes@.len() > 0 && before.nodes@[0].is_root) {
            &&& after.phase == BatchPhase::Over
            &&& s.lines@.len() == 0
            &&& fails_with(before, s, "internal error: a pinned batch arrived without its root"@)
        } else if reports_gaps(before.nodes@, pair_texts(held@), Seq::empty()) {
            &&& after.phase == BatchPhase::Sort
            &&& s.lines@.len() == 0
            &&& s.action is Sort
        } else {
            &&& after.phase == BatchPhase::Over
            &&& s.lines@.len() == 0
            &&& s.action matches BatchAction::RefuseGaps(report) && report@.len() > 0
                && reports_gaps(before.nodes@, pair_texts(held@), texts(report@))
        }) && after.added == before.added && after.at == before.at && after.order == before.order
            && after.last_log == before.last_log,
        (BatchPhase::Sort, BatchEvent::Sorted(result)) => step matches Some(s) && after.added
            == before.added && after.at == before.at && after.last_log == before.last_log && match result {
            Err(why) => after.phase == BatchPhase::Over && s.lines@.len() == 0 && after.order
                == before.order && fails_with(
                before,
                s,
                "Dependency resolution failed: "@ + why@,
            ),
            Ok(order) => after.order == order && goes_on(
                (BatchAdd { order, ..before }),
                seq![resolved_text(before.nodes@)],
                after.phase,
                s,
            ),
        },
        (BatchPhase::Identical(index), BatchEvent::Identical(identical)) => step matches Some(s)
            && after.added == before.added && after.order == before.order && after.last_log
            == before.last_log && (if identical {
            after.at == before.at + 1 && goes_on(
                (BatchAdd { at: (before.at + 1) as usize, ..before }),
                seq![skipping_text(before.nodes@[index as int])],
                after.phase,
                s,
            )
        } else {
            &&& after.at == before.at
            &&& after.phase == BatchPhase::Sub(index)
            &&& texts(s.lines@) == seq![adding_text(before.nodes@[index as int])]
            &&& s.action == BatchAction::Add(index)
        }),
        (BatchPhase::Sub(index), BatchEvent::Added { report, replaced }) => step matches Some(s)
            && after.order == before.order && match add_failure(report) {
            Some(why) => after.phase == BatchPhase::Over && after.at == before.at && after.added
                == before.added && after.last_log == before.last_log && s.lines@.len() == 0
                && fails_with(
                before,
                s,
                "Failed to add "@ + node_text(before.nodes@[index as int]) + ": "@ + why,
            ),
            None => after.at == before.at + 1 && undo_views(after.added@) == undo_views(
                before.added@,
            ).push(
                UndoView { key: identity_of(before.nodes@[index as int]), restore: replaced },
            ) && (report matches Ok(done) && after.last_log matches Some(log) && log@
                == done.log_path@) && goes_on(
                (BatchAdd {
                    at: (before.at + 1) as usize,
                    added: after.added,
                    last_log: after.last_log,
                    ..before
                }),
                Seq::empty(),
                after.phase,
                s,
            ),
        },
        _ => step is None && after == before,
    }
}

/// Where the batch holds an identity.
fn find_place(nodes: &Vec<MaterializedPin>, name: &str, tag: &str) -> (r: Option<usize>)
    ensures
        match r {
            Some(place) => place_of(nodes@, (name@, tag@), nodes@.len() as int) == place && place
                < nodes@.len(),
            None => place_of(nodes@, (name@, tag@), nodes@.len() as int) < 0,
        },
{
    let mut i: usize = nodes.len();
    while i > 0
        invariant
            i <= nodes@.len(),
            place_of(nodes@, (name@, tag@), nodes@.len() as int) == place_of(
                nodes@,
                (name@, tag@),
                i as int,
            ),
        decreases i,
    {
        if str_eq(nodes[i - 1].pin.name.as_str(), name) && str_eq(
            nodes[i - 1].pin.tag.as_str(),
            tag,
        ) {
            return Some(i - 1);
        }
        i -= 1;
    }
    None
}

/// The line that announces an add.
fn adding_line(node: &MaterializedPin) -> (r: String)
    ensures
        r@ == adding_text(*node),
{
    let mut line: String = "Adding ".to_owned();
    line.append(label(node.pin.name.as_str(), node.pin.tag.as_str()).as_str());
    line.append(" (");
    match &node.pin.origin {
        EntryOrigin::Git { .. } => line.append("git"),
        EntryOrigin::Fs { .. } => line.append("fs"),
    }
    line.append(")");
    line
}

impl BatchAdd {
    /// Whether the batch waits for nodes that it has, and its root is known
    /// once it is past its entry.
    pub open spec fn valid(self) -> bool {
        &&& self.at <= self.order@.len()
        &&& match self.phase {
            BatchPhase::Entry => self.at == 0 && self.order@.len() == 0,
            BatchPhase::Sort => self.nodes@.len() > 0 && self.at == 0 && self.order@.len() == 0,
            BatchPhase::Identical(index) | BatchPhase::Sub(index) => index < self.nodes@.len()
                && self.at < self.order.len(),
            BatchPhase::Over => true,
        }
    }

    /// A batch at its beginning.
    pub fn new(nodes: Vec<MaterializedPin>) -> (r: Self)
        ensures
            r.valid(),
            r.nodes == nodes,
            r.order@.len() == 0,
            r.at == 0,
            r.added@.len() == 0,
            r.last_log is None,
            r.phase == BatchPhase::Entry,
    {
        BatchAdd {
            nodes,
            order: Vec::new(),
            at: 0,
            added: Vec::new(),
            last_log: None,
            phase: BatchPhase::Entry,
        }
    }

    /// Fails the batch and undoes every add.
    fn fail(&mut self, lines: Vec<String>, text: String) -> (r: BatchStep)
        requires
            old(self).at <= old(self).order@.len(),
        ensures
            *final(self) == (BatchAdd { phase: BatchPhase::Over, ..*old(self) }),
            final(self).valid(),
            r.lines == lines,
            fails_with(*old(self), r, text@),
    {
        let undo = rollback(&self.added);
        self.phase = BatchPhase::Over;
        BatchStep { lines, action: BatchAction::Fail { undo, text } }
    }

    /// Goes on from the batch's place in the order.
    fn go_on(&mut self, lines: Vec<String>) -> (r: BatchStep)
        requires
            old(self).at <= old(self).order@.len(),
            old(self).nodes@.len() > 0,
        ensures
            *final(self) == (BatchAdd { phase: final(self).phase, ..*old(self) }),
            final(self).valid(),
            goes_on(*old(self), texts(lines@), final(self).phase, r),
    {
        let mut lines = lines;
        let ghost before = texts(lines@);
        if self.at >= self.order.len() {
            let mut line: String = "Batch add complete: ".to_owned();
            line.append(to_decimal(self.nodes.len() as u64).as_str());
            line.append(" node(s) added");
            let ghost added = line@;
            lines.push(line);
            proof {
                assert(texts(lines@) =~= before.push(added));
            }
            let log_path = match &self.last_log {
                Some(path) => Some(path.clone()),
                None => None,
            };
            self.phase = BatchPhase::Over;
            return BatchStep {
                lines,
                action: BatchAction::Succeed {
                    log_path,
                    name: self.nodes[0].pin.name.clone(),
                    tag: self.nodes[0].pin.tag.clone(),
                },
            };
        }
        proof {
            assert(pair_texts(self.order@)[self.at as int] == (
                self.order@[self.at as int].0@,
                self.order@[self.at as int].1@,
            ));
        }
        let found = find_place(
            &self.nodes,
            self.order[self.at].0.as_str(),
            self.order[self.at].1.as_str(),
        );
        match found {
            None => {
                let mut text: String =
                    "internal error: topological order produced a node not in the batch (".to_owned();
                text.append(self.order[self.at].0.as_str());
                text.append(":");
                text.append(self.order[self.at].1.as_str());
                text.append(")");
                self.fail(lines, text)
            },
            Some(place) => {
                if self.nodes[place].is_root {
                    lines.push(adding_line(&self.nodes[place]));
                    proof {
                        assert(texts(lines@) =~= before.push(
                            adding_text(self.nodes@[place as int]),
                        ));
                    }
                    self.phase = BatchPhase::Sub(place);
                    BatchStep { lines, action: BatchAction::Add(place) }
                } else {
                    self.phase = BatchPhase::Identical(place);
                    BatchStep { lines, action: BatchAction::Compare(place) }
                }
            },
        }
    }

    /// The line that announces the batch.
    fn resolved_line(&self) -> (r: String)
        ensures
            r@ == resolved_text(self.nodes@),
    {
        let mut labels: Vec<String> = Vec::new();
        let mut i: usize = 0;
        while i < self.nodes.len()
            invariant
                i <= self.nodes@.len(),
                labels@.len() == i,
                forall|k: int| 0 <= k < i ==> (#[trigger] labels@[k])@ == node_text(self.nodes@[k]),
            decreases self.nodes.len() - i,
        {
            labels.push(label(self.nodes[i].pin.name.as_str(), self.nodes[i].pin.tag.as_str()));
            i += 1;
        }
        proof {
            assert(texts(labels@) =~= self.nodes@.map_values(
                |node: MaterializedPin| node_text(node),
            ));
        }
        let mut line: String = "Batch resolved: ".to_owned();
        line.append(to_decimal(self.nodes.len() as u64).as_str());
        line.append(" node(s) to add: ");
        line.append(join(&labels, ", ").as_str());
        line
    }

    /// Takes what came of the last action and gives the next one; `None`, and
    /// no change, where the batch waits for something else.
    #[verifier::rlimit(60)]
    pub fn step(&mut self, event: BatchEvent) -> (r: Option<BatchStep>)
        requires
            old(self).valid(),
        ensures
            final(self).valid(),
            batch_steps(*old(self), event, *final(self), r),
    {
        let none: Vec<String> = Vec::new();
        match (self.phase, event) {
            (BatchPhase::Entry, BatchEvent::InStack(held)) => {
                if self.nodes.len() == 0 || !self.nodes[0].is_root {
                    return Some(
                        self.fail(
                            none,
                            "internal error: a pinned batch arrived without its root".to_owned(),
                        ),
                    );
                }
                let gaps = closure_gaps(&self.nodes, &held);
                proof {
                    assert(texts(gaps@).len() == gaps@.len());
                    if gaps@.len() == 0 {
                        assert(texts(gaps@) =~= Seq::empty());
                    } else {
                        assert(!reports_gaps(self.nodes@, pair_texts(held@), Seq::empty())) by {
                            if reports_gaps(self.nodes@, pair_texts(held@), Seq::empty()) {
                                let found = super::batch_gaps(
                                    self.nodes@,
                                    pair_texts(held@),
                                    self.nodes@.len() as int,
                                );
                                if found.len() > 0 {
                                    let sorted = choose|sorted: Seq<Seq<char>>|
                                        #[trigger] crate::order::in_order(sorted)
                                            && sorted.to_multiset() == found.to_multiset()
                                            && Seq::<Seq<char>>::empty() == seq![super::gaps_header()]
                                            + sorted;
                                    assert((seq![super::gaps_header()] + sorted).len() > 0);
                                }
                            }
                        }
                    }
                }
                if gaps.len() > 0 {
                    self.phase = BatchPhase::Over;
                    return Some(BatchStep { lines: none, action: BatchAction::RefuseGaps(gaps) });
                }
                self.phase = BatchPhase::Sort;
                Some(BatchStep { lines: none, action: BatchAction::Sort })
            },
            (BatchPhase::Sort, BatchEvent::Sorted(result)) => match result {
                Err(why) => {
                    let mut text: String = "Dependency resolution failed: ".to_owned();
                    text.append(why.as_str());
                    Some(self.fail(none, text))
                },
                Ok(order) => {
                    self.order = order;
                    let mut lines = none;
                    lines.push(self.resolved_line());
                    proof {
                        assert(texts(lines@) =~= seq![resolved_text(self.nodes@)]);
                    }
                    Some(self.go_on(lines))
                },
            },
            (BatchPhase::Identical(index), BatchEvent::Identical(identical)) => {
                let mut lines = none;
                if identical {
                    let mut line: String = "Skipping ".to_owned();
                    line.append(
                        label(
                            self.nodes[index].pin.name.as_str(),
                            self.nodes[index].pin.tag.as_str(),
                        ).as_str(),
                    );
                    line.append(": already in the stack with an identical manifest");
                    lines.push(line);
                    proof {
                        assert(texts(lines@) =~= seq![skipping_text(self.nodes@[index as int])]);
                    }
                    self.at = self.at + 1;
                    return Some(self.go_on(lines));
                }
                lines.push(adding_line(&self.nodes[index]));
                proof {
                    assert(texts(lines@) =~= seq![adding_text(self.nodes@[index as int])]);
                }
                self.phase = BatchPhase::Sub(index);
                Some(BatchStep { lines, action: BatchAction::Add(index) })
            },
            (BatchPhase::Sub(index), BatchEvent::Added { report, replaced }) => {
                let failure: Option<String> = match &report {
                    Err(why) => Some(why.clone()),
                    Ok(done) => if done.success {
                        None
                    } else {
                        match &done.error_message {
                            Some(why) => Some(why.clone()),
                            None => Some("unknown node-add failure".to_owned()),
                        }
                    },
                };
                if let Some(why) = failure {
                    let mut text: String = "Failed to add ".to_owned();
                    text.append(
                        label(
                            self.nodes[index].pin.name.as_str(),
                            self.nodes[index].pin.tag.as_str(),
                        ).as_str(),
                    );
                    text.append(": ");
                    text.append(why.as_str());
                    return Some(self.fail(none, text));
                }
                if let Ok(done) = report {
                    self.last_log = Some(done.log_path);
                }
                let ghost before = undo_views(self.added@);
                self.added.push(
                    Undo {
                        name: self.nodes[index].pin.name.clone(),
                        tag: self.nodes[index].pin.tag.clone(),
                        restore: replaced,
                    },
                );
                proof {
                    assert(undo_views(self.added@) =~= before.push(
                        UndoView { key: identity_of(self.nodes@[index as int]), restore: replaced },
                    ));
                }
                self.at = self.at + 1;
                proof {
                    assert(texts(none@) =~= Seq::<Seq<char>>::empty());
                }
                Some(self.go_on(none))
            },
            _ => None,
        }
    }

    /// The batch is given up on its way: the adds to undo, in this order. One
    /// that is over has nothing left to undo.
    pub fn abandon(&mut self) -> (r: Vec<Undo>)
        requires
            old(self).valid(),
        ensures
            final(self).valid(),
            *final(self) == (BatchAdd { phase: BatchPhase::Over, ..*old(self) }),
            undo_views(r@) == if old(self).phase == BatchPhase::Over {
                Seq::empty()
            } else {
                undo_views(old(self).added@).reverse()
            },
    {
        if self.phase == BatchPhase::Over {
            let none: Vec<Undo> = Vec::new();
            proof {
                assert(undo_views(none@) =~= Seq::empty());
            }
            return none;
        }
        self.phase = BatchPhase::Over;
        rollback(&self.added)
    }
}

/// A batch that fails undoes exactly the adds that succeeded in it, the last
/// one first; a batch that succeeds undoes nothing.
pub proof fn a_failed_batch_undoes_its_adds(
    before: BatchAdd,
    event: BatchEvent,
    after: BatchAdd,
    step: Option<BatchStep>,
)
    requires
        before.valid(),
        batch_steps(before, event, after, step),
        step matches Some(s) && s.action matches BatchAction::Fail { undo, text },
    ensures
        after.phase == BatchPhase::Over,
        step matches Some(s) && s.action matches BatchAction::Fail { undo, text } && undo_views(
            undo@,
        ) == undo_views(after.added@).reverse(),
{
    let s = step->0;
    match (before.phase, event) {
        (BatchPhase::Sub(index), BatchEvent::Added { report, replaced }) => {
            if add_failure(report) is None {
                let moved = BatchAdd {
                    at: (before.at + 1) as usize,
                    added: after.added,
                    last_log: after.last_log,
                    ..before
                };
                assert(goes_on(moved, Seq::empty(), after.phase, s));
            }
        },
        _ => {},
    }
}

/// A dependency that the stack holds with an identical manifest is not added
/// again; the root is never even compared.
pub proof fn identical_dependencies_are_left_alone(
    before: BatchAdd,
    event: BatchEvent,
    after: BatchAdd,
    step: Option<BatchStep>,
)
    requires
        before.valid(),
        batch_steps(before, event, after, step),
    ensures
        before.phase matches BatchPhase::Identical(_) && event == BatchEvent::Identical(true)
            ==> after.added == before.added && after.at == before.at + 1,
        (step matches Some(s) && s.action matches BatchAction::Compare(index))
            ==> !before.nodes@[step->0.action->Compare_0 as int].is_root,
{
    assert(before.nodes@.len() == before.nodes.len());
    assert forall|key: PairText| #[trigger]
        place_of(before.nodes@, key, before.nodes@.len() as int) < before.nodes@.len() by {
        lemma_place_of(before.nodes@, key, before.nodes@.len() as int);
    }
}

/// A call of `step` leads a batch as `batch_steps` says.
pub proof fn a_call_steps_the_batch(batch: &mut BatchAdd, event: BatchEvent, step: Option<BatchStep>)
    requires
        call_ensures(BatchAdd::step, (batch, event), step),
    ensures
        batch_steps(*old(batch), event, *final(batch), step),
        final(batch).valid(),
{
}

/// Where a batch holds an identity, it holds it.
proof fn lemma_found(nodes: Seq<MaterializedPin>, key: PairText, n: int)
    requires
        0 <= n <= nodes.len(),
    ensures
        place_of(nodes, key, n) >= 0 ==> place_of(nodes, key, n) < n && identity_of(
            nodes[place_of(nodes, key, n)],
        ) == key,
        place_of(nodes, key, n) < 0 ==> forall|k: int|
            0 <= k < n ==> identity_of(#[trigger] nodes[k]) != key,
    decreases n,
{
    if n > 0 && identity_of(nodes[n - 1]) != key {
        lemma_found(nodes, key, n - 1);
    }
}

/// Every dependency of every node of a list is among its nodes or in the stack.
pub open spec fn is_covered(nodes: Seq<MaterializedPin>, held: Seq<(String, String)>) -> bool {
    forall|a: int, b: int|
        0 <= a < nodes.len() && 0 <= b < nodes[a].manifest.nodes@.len() ==> is_among(
            nodes,
            (#[trigger] nodes[a].manifest.nodes@[b]).0@,
            nodes[a].manifest.nodes@[b].1@,
        ) || is_listed(held, nodes[a].manifest.nodes@[b].0@, nodes[a].manifest.nodes@[b].1@)
}

/// A batch begins only where its first node is the root and its closure is covered;
/// nothing is added otherwise.
pub proof fn only_a_covered_batch_begins(
    before: BatchAdd,
    held: Vec<(String, String)>,
    after: BatchAdd,
    step: Option<BatchStep>,
)
    requires
        before.phase == BatchPhase::Entry,
        batch_steps(before, BatchEvent::InStack(held), after, step),
    ensures
        after.phase == BatchPhase::Sort <==> before.nodes@.len() > 0 && before.nodes@[0].is_root
            && is_covered(before.nodes@, held@),
        after.phase == BatchPhase::Sort || after.phase == BatchPhase::Over,
        step matches Some(s) && match s.action {
            BatchAction::Sort => after.phase == BatchPhase::Sort,
            BatchAction::RefuseGaps(_) => after.phase == BatchPhase::Over && !is_covered(
                before.nodes@,
                held@,
            ),
            BatchAction::Fail { .. } => after.phase == BatchPhase::Over && !(before.nodes@.len() > 0
                && before.nodes@[0].is_root),
            _ => false,
        },
{
    let nodes = before.nodes@;
    let told = pair_texts(held@);
    let n = nodes.len() as int;
    a_covered_batch_has_no_gaps(nodes, told, n);
    assert forall|a: int, b: int| 0 <= a < n && 0 <= b < nodes[a].manifest.nodes@.len() implies (
    is_gap(nodes, told, #[trigger] pair_texts(nodes[a].manifest.nodes@)[b]) <==> !(is_among(
        nodes,
        nodes[a].manifest.nodes@[b].0@,
        nodes[a].manifest.nodes@[b].1@,
    ) || is_listed(
        held@,
        nodes[a].manifest.nodes@[b].0@,
        nodes[a].manifest.nodes@[b].1@,
    ))) by {
        lemma_is_gap(nodes, held@, nodes[a].manifest.nodes@[b]);
    }
    let gaps = batch_gaps(nodes, told, n);
    if is_covered(nodes, held@) {
        assert forall|a: int, b: int| 0 <= a < n && 0 <= b < nodes[a].manifest.nodes@.len() implies !is_gap(
            nodes,
            told,
            #[trigger] pair_texts(nodes[a].manifest.nodes@)[b],
        ) by {
            let dep = nodes[a].manifest.nodes@[b];
        }
        assert(gaps.len() == 0);
    } else {
        let (a, b) = choose|a: int, b: int|
            0 <= a < n && 0 <= b < nodes[a].manifest.nodes@.len() && !(is_among(
                nodes,
                (#[trigger] nodes[a].manifest.nodes@[b]).0@,
                nodes[a].manifest.nodes@[b].1@,
            ) || is_listed(
                held@,
                nodes[a].manifest.nodes@[b].0@,
                nodes[a].manifest.nodes@[b].1@,
            ));
        assert(is_gap(nodes, told, pair_texts(nodes[a].manifest.nodes@)[b]));
        assert(gaps.len() > 0);
        if reports_gaps(nodes, told, Seq::empty()) {
            let sorted = choose|sorted: Seq<Seq<char>>|
                #[trigger] crate::order::in_order(sorted) && sorted.to_multiset()
                    == gaps.to_multiset() && Seq::<Seq<char>>::empty() == seq![gaps_header()]
                    + sorted;
            assert((seq![gaps_header()] + sorted).len() > 0);
        }
    }
}

/// A failed order, or a failed add, ends a batch: the failure is reported, of an add
/// with its node, and every add that succeeded before is undone, the last one first.
pub proof fn a_failed_add_ends_the_batch(
    before: BatchAdd,
    event: BatchEvent,
    after: BatchAdd,
    step: Option<BatchStep>,
)
    requires
        batch_steps(before, event, after, step),
        match event {
            BatchEvent::Sorted(result) => before.phase == BatchPhase::Sort && result is Err,
            BatchEvent::Added { report, .. } => before.phase is Sub && !(report matches Ok(done)
                && done.success),
            _ => false,
        },
    ensures
        after.phase == BatchPhase::Over,
        after.added == before.added,
        step matches Some(s) && (s.action matches BatchAction::Fail { undo, text } && undo@.len()
            == before.added@.len() && (forall|k: int|
            0 <= k < undo@.len() ==> (#[trigger] undo@[k])@ == before.added@[before.added@.len() - 1
                - k]@) && match event {
            BatchEvent::Sorted(Err(why)) => mentions(text@, why@),
            BatchEvent::Added { report, .. } => mentions(
                text@,
                node_text(before.nodes@[before.phase->Sub_0 as int]),
            ) && match report {
                Err(why) => mentions(text@, why@),
                Ok(done) => done.error_message matches Some(why) ==> mentions(text@, why@),
            },
            _ => false,
        }),
{
    if let Some(s) = step {
        if let BatchAction::Fail { undo, text } = s.action {
            assert(undo_views(undo@).len() == undo@.len());
            assert forall|k: int| 0 <= k < undo@.len() implies (#[trigger] undo@[k])@
                == before.added@[before.added@.len() - 1 - k]@ by {
                assert(undo_views(undo@)[k] == undo@[k]@);
                assert(undo_views(before.added@).reverse()[k] == before.added@[before.added@.len() - 1
                    - k]@);
            }
            match event {
                BatchEvent::Sorted(Err(why)) => {
                    what_is_written_is_mentioned("Dependency resolution failed: "@, why@, ""@);
                },
                BatchEvent::Added { report, .. } => {
                    let node = node_text(before.nodes@[before.phase->Sub_0 as int]);
                    let why = add_failure(report)->0;
                    what_is_written_is_mentioned("Failed to add "@, node, ": "@ + why);
                    assert("Failed to add "@ + node + ": "@ + why =~= "Failed to add "@ + node + (
                    ": "@ + why));
                    what_is_written_is_mentioned("Failed to add "@ + node + ": "@, why, ""@);
                },
                _ => {},
            }
        }
    }
}

/// Whether a batch in this state stands where it should: what it compares or adds is
/// the node that its order names at its place.
pub open spec fn is_in_place(batch: BatchAdd) -> bool {
    match batch.phase {
        BatchPhase::Identical(index) => index < batch.nodes@.len() && batch.at < batch.order@.len()
            && identity_of(batch.nodes@[index as int]) == (
            batch.order@[batch.at as int].0@,
            batch.order@[batch.at as int].1@,
        ) && !batch.nodes@[index as int].is_root,
        BatchPhase::Sub(index) => index < batch.nodes@.len() && batch.at < batch.order@.len()
            && identity_of(batch.nodes@[index as int]) == (
            batch.order@[batch.at as int].0@,
            batch.order@[batch.at as int].1@,
        ),
        _ => true,
    }
}

/// Going on keeps a batch in its place.
proof fn lemma_goes_on(
    batch: BatchAdd,
    lines: Seq<Seq<char>>,
    after: BatchAdd,
    step: BatchStep,
)
    requires
        batch.at <= batch.order@.len(),
        goes_on(batch, lines, after.phase, step),
        after.nodes == batch.nodes,
        after.order == batch.order,
        after.at == batch.at,
    ensures
        is_in_place(after),
        step.action is Succeed ==> batch.at == batch.order@.len(),
        after.phase == BatchPhase::Over || step.action == BatchAction::Add(after.phase->Sub_0)
            || step.action == BatchAction::Compare(after.phase->Identical_0),
{
    if batch.at < batch.order@.len() {
        let key = pair_texts(batch.order@)[batch.at as int];
        lemma_found(batch.nodes@, key, batch.nodes@.len() as int);
        assert(batch.nodes@.len() == batch.nodes.len());
    }
}

/// A batch moves to the next node of its order only once the one before was added,
/// or was found identical in the stack; it adds and compares the nodes in their
/// order, keeps account of exactly what it added, and succeeds only at the end.
pub proof fn a_batch_adds_its_nodes_in_order(
    before: BatchAdd,
    event: BatchEvent,
    after: BatchAdd,
    step: Option<BatchStep>,
)
    requires
        before.valid(),
        is_in_place(before),
        batch_steps(before, event, after, step),
    ensures
        is_in_place(after),
        after.at == before.at || after.at == before.at + 1,
        after.at == before.at + 1 <==> (before.phase is Identical && event
            == BatchEvent::Identical(true)) || (before.phase is Sub && (event matches BatchEvent::Added {
            report,
            ..
        } && report matches Ok(done) && done.success)),
        before.phase is Sub && (event matches BatchEvent::Added { report, .. } && report matches Ok(
            done,
        ) && done.success) ==> after.added@.len() == before.added@.len() + 1 && (
        event matches BatchEvent::Added { replaced, .. } && undo_views(after.added@).last() == (
        UndoView {
            key: identity_of(before.nodes@[before.phase->Sub_0 as int]),
            restore: replaced,
        })),
        !(before.phase is Sub && event is Added) ==> after.added == before.added,
        step matches Some(s) ==> match s.action {
            BatchAction::Add(index) => after.phase == BatchPhase::Sub(index),
            BatchAction::Compare(index) => after.phase == BatchPhase::Identical(index),
            BatchAction::Succeed { name, tag, log_path } => after.phase == BatchPhase::Over && after.at
                == after.order@.len() && name@ == after.nodes@[0].pin.name@ && tag@
                == after.nodes@[0].pin.tag@ && log_path == after.last_log,
            BatchAction::Sort => after.phase == BatchPhase::Sort,
            _ => after.phase == BatchPhase::Over,
        },
        before.phase is Identical && event == BatchEvent::Identical(false) ==> after.phase
            == BatchPhase::Sub(before.phase->Identical_0),
        event matches BatchEvent::Sorted(Ok(order)) ==> (before.phase == BatchPhase::Sort
            ==> after.order == order),
        before.phase != BatchPhase::Sort ==> after.order == before.order,
        after.nodes == before.nodes,
{
    if let Some(s) = step {
        match (before.phase, event) {
            (BatchPhase::Sort, BatchEvent::Sorted(Ok(order))) => {
                let moved = BatchAdd { order, ..before };
                lemma_goes_on(moved, seq![resolved_text(before.nodes@)], after, s);
            },
            (BatchPhase::Identical(index), BatchEvent::Identical(true)) => {
                let moved = BatchAdd { at: (before.at + 1) as usize, ..before };
                lemma_goes_on(moved, seq![skipping_text(before.nodes@[index as int])], after, s);
            },
            (BatchPhase::Sub(index), BatchEvent::Added { report, replaced }) => {
                if add_failure(report) is None {
                    let moved = BatchAdd {
                        at: (before.at + 1) as usize,
                        added: after.added,
                        last_log: after.last_log,
                        ..before
                    };
                    lemma_goes_on(moved, Seq::empty(), after, s);
                    assert(undo_views(after.added@).len() == after.added@.len());
                    assert(undo_views(before.added@).len() == before.added@.len());
                }
            },
            _ => {},
        }
    }
}

} // verus!
