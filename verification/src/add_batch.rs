//! Adding a pinned closure to the stack: the check that the pins cover it, the
//! adds in dependency order, and the undoing of all of them when one fails.
//!
//! The batch is exactly the pin set. A dependency that it does not cover must
//! be in the stack already; one that is in neither is refused, never looked
//! up.
pub mod batch;
pub mod pinned;

use crate::order::{has_pair, in_order, pair_texts, sort_texts, PairText};
use crate::pins::{identity_of, item_text, MaterializedPin};
use crate::sync::{label, label_text};
use crate::text::{mentions, mentions_carry_over, str_eq, texts, what_is_written_is_mentioned};
use vstd::prelude::*;
use vstd::string::*;

verus! {

/// Whether the batch holds an identity.
pub open spec fn pinned_here(nodes: Seq<MaterializedPin>, key: PairText) -> bool {
    exists|k: int| 0 <= k < nodes.len() && identity_of(#[trigger] nodes[k]) == key
}

/// Whether a dependency is in neither the batch nor the stack.
pub open spec fn is_gap(
    nodes: Seq<MaterializedPin>,
    in_stack: Seq<PairText>,
    key: PairText,
) -> bool {
    !pinned_here(nodes, key) && !in_stack.contains(key)
}

/// The finding about one gap.
pub open spec fn gap_text(node: MaterializedPin, key: PairText) -> Seq<char> {
    item_text(node.pin.kind, node.pin.name@, node.pin.tag@) + " depends on `"@ + key.0 + ":"@
        + key.1 + "`, which is neither pinned nor in the stack"@
}

/// The findings about the first `n` dependencies of one node.
pub open spec fn node_gaps(
    nodes: Seq<MaterializedPin>,
    in_stack: Seq<PairText>,
    node: MaterializedPin,
    n: int,
) -> Seq<Seq<char>>
    decreases n,
{
    if n <= 0 || n > node.manifest.nodes@.len() {
        Seq::empty()
    } else {
        let key = pair_texts(node.manifest.nodes@)[n - 1];
        let before = node_gaps(nodes, in_stack, node, n - 1);
        if is_gap(nodes, in_stack, key) {
            before.push(gap_text(node, key))
        } else {
            before
        }
    }
}

/// The findings about the dependencies of the first `n` nodes.
pub open spec fn batch_gaps(
    nodes: Seq<MaterializedPin>,
    in_stack: Seq<PairText>,
    n: int,
) -> Seq<Seq<char>>
    decreases n,
{
    if n <= 0 || n > nodes.len() {
        Seq::empty()
    } else {
        batch_gaps(nodes, in_stack, n - 1) + node_gaps(
            nodes,
            in_stack,
            nodes[n - 1],
            nodes[n - 1].manifest.nodes@.len() as int,
        )
    }
}

/// What heads the findings about gaps.
pub open spec fn gaps_header() -> Seq<char> {
    "this add's pins do not cover its closure; the coordinator that minted them shipped an incomplete set"@
}

/// Whether a report is that of a batch's gaps: nothing where there are none,
/// else the header and the findings in order.
pub open spec fn reports_gaps(
    nodes: Seq<MaterializedPin>,
    in_stack: Seq<PairText>,
    report: Seq<Seq<char>>,
) -> bool {
    let gaps = batch_gaps(nodes, in_stack, nodes.len() as int);
    if gaps.len() == 0 {
        report.len() == 0
    } else {
        exists|sorted: Seq<Seq<char>>|
            #[trigger] in_order(sorted) && sorted.to_multiset() == gaps.to_multiset() && report
                == seq![gaps_header()] + sorted
    }
}

/// Whether the batch holds an identity.
fn holds_pin(nodes: &Vec<MaterializedPin>, name: &str, tag: &str) -> (r: bool)
    ensures
        r == pinned_here(nodes@, (name@, tag@)),
{
    let mut i: usize = 0;
    while i < nodes.len()
        invariant
            i <= nodes@.len(),
            forall|k: int| 0 <= k < i ==> identity_of(#[trigger] nodes@[k]) != (name@, tag@),
        decreases nodes.len() - i,
    {
        if str_eq(nodes[i].pin.name.as_str(), name) && str_eq(nodes[i].pin.tag.as_str(), tag) {
            return true;
        }
        i += 1;
    }
    false
}

/// The dependencies that a batch can neither add nor find, as a report: empty
/// where there are none. `in_stack` are the identities that the stack holds.
pub fn closure_gaps(nodes: &Vec<MaterializedPin>, in_stack: &Vec<(String, String)>) -> (r: Vec<
    String,
>)
    ensures
        reports_gaps(nodes@, pair_texts(in_stack@), texts(r@)),
{
    let ghost held = pair_texts(in_stack@);
    let mut gaps: Vec<String> = Vec::new();
    let mut i: usize = 0;
    proof {
        assert(texts(gaps@) =~= Seq::<Seq<char>>::empty());
    }
    while i < nodes.len()
        invariant
            i <= nodes@.len(),
            held == pair_texts(in_stack@),
            texts(gaps@) == batch_gaps(nodes@, held, i as int),
        decreases nodes.len() - i,
    {
        let node = &nodes[i];
        let ghost before = texts(gaps@);
        let mut j: usize = 0;
        proof {
            assert(before + node_gaps(nodes@, held, *node, 0) =~= before);
        }
        while j < node.manifest.nodes.len()
            invariant
                j <= node.manifest.nodes@.len(),
                held == pair_texts(in_stack@),
                texts(gaps@) == before + node_gaps(nodes@, held, *node, j as int),
            decreases node.manifest.nodes.len() - j,
        {
            let dep = &node.manifest.nodes[j];
            let ghost key = pair_texts(node.manifest.nodes@)[j as int];
            proof {
                assert(key == (dep.0@, dep.1@));
            }
            if !holds_pin(nodes, dep.0.as_str(), dep.1.as_str()) && !has_pair(
                in_stack,
                dep.0.as_str(),
                dep.1.as_str(),
            ) {
                let ghost inner = texts(gaps@);
                let mut text: String = node.pin.label();
                text.append(" depends on `");
                text.append(dep.0.as_str());
                text.append(":");
                text.append(dep.1.as_str());
                text.append("`, which is neither pinned nor in the stack");
                let ghost added = text@;
                gaps.push(text);
                proof {
                    assert(texts(gaps@) =~= inner.push(added));
                    assert(inner.push(added) =~= before + node_gaps(nodes@, held, *node, j + 1));
                }
            }
            j += 1;
        }
        i += 1;
    }
    let ghost found = texts(gaps@);
    if gaps.len() == 0 {
        return gaps;
    }
    let mut sorted = sort_texts(&gaps);
    let ghost listed = texts(sorted@);
    let mut report: Vec<String> = Vec::new();
    report.push(
        "this add's pins do not cover its closure; the coordinator that minted them shipped an incomplete set".to_owned(),
    );
    report.append(&mut sorted);
    proof {
        assert(texts(report@) =~= seq![gaps_header()] + listed);
        assert(in_order(listed));
        assert(found.len() == gaps@.len());
    }
    report
}

/// A batch has no gaps exactly where every dependency of every node is in the
/// batch or in the stack.
pub proof fn a_covered_batch_has_no_gaps(
    nodes: Seq<MaterializedPin>,
    in_stack: Seq<PairText>,
    n: int,
)
    requires
        0 <= n <= nodes.len(),
    ensures
        batch_gaps(nodes, in_stack, n).len() == 0 <==> forall|i: int, j: int|
            0 <= i < n && 0 <= j < nodes[i].manifest.nodes@.len() ==> !is_gap(
                nodes,
                in_stack,
                #[trigger] pair_texts(nodes[i].manifest.nodes@)[j],
            ),
    decreases n,
{
    if n > 0 {
        a_covered_batch_has_no_gaps(nodes, in_stack, n - 1);
        let last = nodes[n - 1];
        lemma_node_gaps(nodes, in_stack, last, last.manifest.nodes@.len() as int);
        if batch_gaps(nodes, in_stack, n).len() == 0 {
            assert forall|i: int, j: int|
                0 <= i < n && 0 <= j < nodes[i].manifest.nodes@.len() implies !is_gap(
                nodes,
                in_stack,
                #[trigger] pair_texts(nodes[i].manifest.nodes@)[j],
            ) by {
                if i == n - 1 {
                    assert(!is_gap(nodes, in_stack, pair_texts(last.manifest.nodes@)[j]));
                }
            }
        } else if batch_gaps(nodes, in_stack, n - 1).len() == 0 {
            let j = choose|j: int|
                0 <= j < last.manifest.nodes@.len() && is_gap(
                    nodes,
                    in_stack,
                    #[trigger] pair_texts(last.manifest.nodes@)[j],
                );
            assert(is_gap(nodes, in_stack, pair_texts(nodes[n - 1].manifest.nodes@)[j]));
        }
    }
}

/// A node has no gaps exactly where every dependency is in the batch or in the
/// stack.
proof fn lemma_node_gaps(
    nodes: Seq<MaterializedPin>,
    in_stack: Seq<PairText>,
    node: MaterializedPin,
    n: int,
)
    requires
        0 <= n <= node.manifest.nodes@.len(),
    ensures
        node_gaps(nodes, in_stack, node, n).len() == 0 <==> forall|j: int|
            0 <= j < n ==> !is_gap(
                nodes,
                in_stack,
                #[trigger] pair_texts(node.manifest.nodes@)[j],
            ),
    decreases n,
{
    if n > 0 {
        lemma_node_gaps(nodes, in_stack, node, n - 1);
        assert(pair_texts(node.manifest.nodes@)[n - 1] == pair_texts(node.manifest.nodes@)[n - 1]);
    }
}

/// Whether a node of the stack is what the batch would add: both manifests
/// have a fingerprint, and it is the same.
pub fn stack_holds_identical(
    held: &Option<Option<String>>,
    incoming: &Option<String>,
) -> (r: bool)
    ensures
        r == match (*held, *incoming) {
            (Some(Some(existing)), Some(wanted)) => existing@ == wanted@,
            _ => false,
        },
{
    match (held, incoming) {
        (Some(Some(existing)), Some(wanted)) => str_eq(existing.as_str(), wanted.as_str()),
        _ => false,
    }
}

/// What of a batch's goal one add of the batch takes over.
pub struct SubGoal {
    pub env_vars: Vec<(String, String)>,
    pub force: bool,
}

/// The goal of one add of the batch: environment and force are the root's
/// alone.
pub fn sub_goal(is_root: bool, env_vars: &Vec<(String, String)>, force: bool) -> (r: SubGoal)
    ensures
        r.force == (is_root && force),
        is_root ==> pair_texts(r.env_vars@) == pair_texts(env_vars@),
        !is_root ==> r.env_vars@.len() == 0,
{
    let mut copied: Vec<(String, String)> = Vec::new();
    if !is_root {
        return SubGoal { env_vars: copied, force: false };
    }
    let mut i: usize = 0;
    while i < env_vars.len()
        invariant
            i <= env_vars@.len(),
            copied@.len() == i,
            forall|k: int|
                0 <= k < i ==> (#[trigger] copied@[k]).0@ == env_vars@[k].0@ && copied@[k].1@
                    == env_vars@[k].1@,
        decreases env_vars.len() - i,
    {
        copied.push((env_vars[i].0.clone(), env_vars[i].1.clone()));
        i += 1;
    }
    proof {
        assert(pair_texts(copied@) =~= pair_texts(env_vars@));
    }
    SubGoal { env_vars: copied, force }
}

/// What undoes one add of the batch: the node that was there before is put
/// back, or the node is taken out.
pub struct Undo {
    pub name: String,
    pub tag: String,
    pub restore: bool,
}

/// What undoes one add, its texts as sequences.
pub struct UndoView {
    pub key: PairText,
    pub restore: bool,
}

impl View for Undo {
    type V = UndoView;

    open spec fn view(&self) -> UndoView {
        UndoView { key: (self.name@, self.tag@), restore: self.restore }
    }
}

impl Clone for Undo {
    fn clone(&self) -> (r: Self)
        ensures
            r@ == self@,
    {
        Undo { name: self.name.clone(), tag: self.tag.clone(), restore: self.restore }
    }
}

/// The contents of a list of undos.
pub open spec fn undo_views(list: Seq<Undo>) -> Seq<UndoView> {
    list.map_values(|undo: Undo| undo@)
}

/// The undos of a batch, the last add first: dependants go before what they
/// depend on.
pub fn rollback(added: &Vec<Undo>) -> (r: Vec<Undo>)
    ensures
        undo_views(r@) == undo_views(added@).reverse(),
{
    let mut out: Vec<Undo> = Vec::new();
    let mut i: usize = added.len();
    let ghost all = undo_views(added@).reverse();
    while i > 0
        invariant
            i <= added@.len(),
            all == undo_views(added@).reverse(),
            undo_views(out@) == all.take(added@.len() - i),
        decreases i,
    {
        i -= 1;
        let ghost before = undo_views(out@);
        out.push(added[i].clone());
        proof {
            let n = added@.len() - i;
            assert(all[n - 1] == added@[i as int]@);
            assert(undo_views(out@) =~= before.push(all[n - 1]));
            assert(all.take(n) =~= all.take(n - 1).push(all[n - 1]));
        }
    }
    proof {
        assert(all.take(added@.len() as int) =~= all);
    }
    out
}

/// What is logged about an add that could not be undone.
pub fn rollback_warning(undo: &Undo, why: &str) -> (r: String)
    ensures
        r@ == (if undo.restore {
            "Batch-add rollback (restore previous) failed for "@
        } else {
            "Batch-add rollback failed for "@
        }) + label_text(undo.name@, undo.tag@) + ": "@ + why@,
{
    let mut text: String = if undo.restore {
        "Batch-add rollback (restore previous) failed for ".to_owned()
    } else {
        "Batch-add rollback failed for ".to_owned()
    };
    text.append(label(undo.name.as_str(), undo.tag.as_str()).as_str());
    text.append(": ");
    text.append(why);
    text
}

/// A gap is among the findings about its node, and about the batch.
proof fn lemma_gap_is_found(
    nodes: Seq<MaterializedPin>,
    in_stack: Seq<PairText>,
    node: MaterializedPin,
    m: int,
    n: int,
    i: int,
    j: int,
)
    requires
        0 <= m <= node.manifest.nodes@.len(),
        0 <= n <= nodes.len(),
    ensures
        0 <= j < m && is_gap(nodes, in_stack, pair_texts(node.manifest.nodes@)[j]) ==> node_gaps(
            nodes,
            in_stack,
            node,
            m,
        ).contains(gap_text(node, pair_texts(node.manifest.nodes@)[j])),
        0 <= i < n && 0 <= j < nodes[i].manifest.nodes@.len() && is_gap(
            nodes,
            in_stack,
            pair_texts(nodes[i].manifest.nodes@)[j],
        ) ==> batch_gaps(nodes, in_stack, n).contains(
            gap_text(nodes[i], pair_texts(nodes[i].manifest.nodes@)[j]),
        ),
    decreases n, m,
{
    if 0 <= j < m && is_gap(nodes, in_stack, pair_texts(node.manifest.nodes@)[j]) {
        let all = node_gaps(nodes, in_stack, node, m);
        let told = gap_text(node, pair_texts(node.manifest.nodes@)[j]);
        if j == m - 1 {
            assert(all.last() == told);
        } else {
            lemma_gap_is_found(nodes, in_stack, node, m - 1, n, i, j);
            let before = node_gaps(nodes, in_stack, node, m - 1);
            let k = choose|k: int| 0 <= k < before.len() && before[k] == told;
            assert(all[k] == told);
        }
    }
    if 0 <= i < n && 0 <= j < nodes[i].manifest.nodes@.len() && is_gap(
        nodes,
        in_stack,
        pair_texts(nodes[i].manifest.nodes@)[j],
    ) {
        let all = batch_gaps(nodes, in_stack, n);
        let before = batch_gaps(nodes, in_stack, n - 1);
        let last = nodes[n - 1];
        let count = last.manifest.nodes@.len() as int;
        let added = node_gaps(nodes, in_stack, last, count);
        let told = gap_text(nodes[i], pair_texts(nodes[i].manifest.nodes@)[j]);
        lemma_gap_is_found(nodes, in_stack, last, count, n - 1, i, j);
        if i < n - 1 {
            let k = choose|k: int| 0 <= k < before.len() && before[k] == told;
            assert(all[k] == told);
        } else {
            let k = choose|k: int| 0 <= k < added.len() && added[k] == told;
            assert(all[before.len() + k] == told);
        }
    }
}

/// Whether a node of a list has this name and this tag.
pub open spec fn is_among(nodes: Seq<MaterializedPin>, name: Seq<char>, tag: Seq<char>) -> bool {
    exists|k: int|
        0 <= k < nodes.len() && (#[trigger] nodes[k]).pin.name@ == name && nodes[k].pin.tag@ == tag
}

/// Whether a list of identities holds this name with this tag.
pub open spec fn is_listed(list: Seq<(String, String)>, name: Seq<char>, tag: Seq<char>) -> bool {
    exists|k: int| 0 <= k < list.len() && (#[trigger] list[k]).0@ == name && list[k].1@ == tag
}

/// A dependency is a gap where neither the batch nor the stack has it.
pub proof fn lemma_is_gap(
    nodes: Seq<MaterializedPin>,
    in_stack: Seq<(String, String)>,
    dep: (String, String),
)
    ensures
        is_gap(nodes, pair_texts(in_stack), (dep.0@, dep.1@)) <==> !is_among(nodes, dep.0@, dep.1@)
            && !is_listed(in_stack, dep.0@, dep.1@),
{
    let key = (dep.0@, dep.1@);
    let held = pair_texts(in_stack);
    if pinned_here(nodes, key) {
        let k = choose|k: int| 0 <= k < nodes.len() && identity_of(#[trigger] nodes[k]) == key;
        assert(nodes[k].pin.name@ == dep.0@);
    }
    if is_among(nodes, dep.0@, dep.1@) {
        let k = choose|k: int|
            0 <= k < nodes.len() && (#[trigger] nodes[k]).pin.name@ == dep.0@ && nodes[k].pin.tag@
                == dep.1@;
        assert(identity_of(nodes[k]) == key);
    }
    if held.contains(key) {
        let k = choose|k: int| 0 <= k < held.len() && held[k] == key;
        assert(in_stack[k].0@ == dep.0@);
    }
    if is_listed(in_stack, dep.0@, dep.1@) {
        let k = choose|k: int|
            0 <= k < in_stack.len() && (#[trigger] in_stack[k]).0@ == dep.0@ && in_stack[k].1@
                == dep.1@;
        assert(held[k] == key);
    }
}

/// A batch is covered exactly where every dependency of every node of it is a node
/// of the batch or of the stack; where one is neither, the report says which, and
/// whose.
pub proof fn a_report_of_gaps_names_each_of_them(
    nodes: Vec<MaterializedPin>,
    in_stack: Vec<(String, String)>,
    r: Vec<String>,
    i: int,
    j: int,
)
    requires
        call_ensures(closure_gaps, (&nodes, &in_stack), r),
    ensures
        r@.len() == 0 <==> forall|a: int, b: int|
            0 <= a < nodes@.len() && 0 <= b < nodes@[a].manifest.nodes@.len() ==> is_among(
                nodes@,
                (#[trigger] nodes@[a].manifest.nodes@[b]).0@,
                nodes@[a].manifest.nodes@[b].1@,
            ) || is_listed(
                in_stack@,
                nodes@[a].manifest.nodes@[b].0@,
                nodes@[a].manifest.nodes@[b].1@,
            ),
        0 <= i < nodes@.len() && 0 <= j < nodes@[i].manifest.nodes@.len() && !is_among(
            nodes@,
            nodes@[i].manifest.nodes@[j].0@,
            nodes@[i].manifest.nodes@[j].1@,
        ) && !is_listed(
            in_stack@,
            nodes@[i].manifest.nodes@[j].0@,
            nodes@[i].manifest.nodes@[j].1@,
        ) ==> exists|k: int|
            0 <= k < r@.len() && mentions(
                (#[trigger] r@[k])@,
                nodes@[i].manifest.nodes@[j].0@ + ":"@ + nodes@[i].manifest.nodes@[j].1@,
            ) && mentions(r@[k]@, nodes@[i].pin.name@ + ":"@ + nodes@[i].pin.tag@),
{
    let held = pair_texts(in_stack@);
    let n = nodes@.len() as int;
    let gaps = batch_gaps(nodes@, held, n);
    a_covered_batch_has_no_gaps(nodes@, held, n);
    assert(texts(r@).len() == r@.len());
    assert forall|a: int, b: int|
        0 <= a < n && 0 <= b < nodes@[a].manifest.nodes@.len() implies (is_gap(
        nodes@,
        held,
        #[trigger] pair_texts(nodes@[a].manifest.nodes@)[b],
    ) <==> !is_among(
        nodes@,
        nodes@[a].manifest.nodes@[b].0@,
        nodes@[a].manifest.nodes@[b].1@,
    ) && !is_listed(
        in_stack@,
        nodes@[a].manifest.nodes@[b].0@,
        nodes@[a].manifest.nodes@[b].1@,
    )) by {
        lemma_is_gap(nodes@, in_stack@, nodes@[a].manifest.nodes@[b]);
    }
    if r@.len() == 0 {
        assert(gaps.len() == 0) by {
            if gaps.len() > 0 {
                let sorted = choose|sorted: Seq<Seq<char>>|
                    #[trigger] in_order(sorted) && sorted.to_multiset() == gaps.to_multiset()
                        && texts(r@) == seq![gaps_header()] + sorted;
                assert((seq![gaps_header()] + sorted).len() > 0);
            }
        }
        assert forall|a: int, b: int|
            0 <= a < nodes@.len() && 0 <= b < nodes@[a].manifest.nodes@.len() implies is_among(
            nodes@,
            (#[trigger] nodes@[a].manifest.nodes@[b]).0@,
            nodes@[a].manifest.nodes@[b].1@,
        ) || is_listed(
            in_stack@,
            nodes@[a].manifest.nodes@[b].0@,
            nodes@[a].manifest.nodes@[b].1@,
        ) by {
            let key = pair_texts(nodes@[a].manifest.nodes@)[b];
            assert(!is_gap(nodes@, held, key));
        }
    } else {
        let (a, b) = choose|a: int, b: int|
            0 <= a < n && 0 <= b < nodes@[a].manifest.nodes@.len() && is_gap(
                nodes@,
                held,
                #[trigger] pair_texts(nodes@[a].manifest.nodes@)[b],
            );
        let dep = nodes@[a].manifest.nodes@[b];
    }
    if 0 <= i < n && 0 <= j < nodes@[i].manifest.nodes@.len() {
        let dep = nodes@[i].manifest.nodes@[j];
        let key = pair_texts(nodes@[i].manifest.nodes@)[j];
        lemma_is_gap(nodes@, in_stack@, dep);
        if is_gap(nodes@, held, key) {
            let told = gap_text(nodes@[i], key);
            lemma_gap_is_found(
                nodes@,
                held,
                nodes@[i],
                nodes@[i].manifest.nodes@.len() as int,
                n,
                i,
                j,
            );
            assert(gaps.len() > 0);
            let sorted = choose|sorted: Seq<Seq<char>>|
                #[trigger] in_order(sorted) && sorted.to_multiset() == gaps.to_multiset() && texts(
                    r@,
                ) == seq![gaps_header()] + sorted;
            gaps.to_multiset_ensures();
            sorted.to_multiset_ensures();
            assert(gaps.to_multiset().count(told) > 0);
            assert(sorted.contains(told));
            let k = choose|k: int| 0 <= k < sorted.len() && sorted[k] == told;
            assert(texts(r@)[k + 1] == told);
            assert(r@[k + 1]@ == told);
            lemma_gap_text(nodes@[i], key);
        }
    }
}

/// The finding about a gap names the dependency and the node.
proof fn lemma_gap_text(node: MaterializedPin, key: PairText)
    ensures
        mentions(gap_text(node, key), key.0 + ":"@ + key.1),
        mentions(gap_text(node, key), node.pin.name@ + ":"@ + node.pin.tag@),
{
    let item = item_text(node.pin.kind, node.pin.name@, node.pin.tag@);
    let dep = key.0 + ":"@ + key.1;
    let rest = "`, which is neither pinned nor in the stack"@;
    what_is_written_is_mentioned(item + " depends on `"@, dep, rest);
    assert(gap_text(node, key) =~= item + " depends on `"@ + dep + rest);
    what_is_written_is_mentioned(""@, item, " depends on `"@ + dep + rest);
    assert(gap_text(node, key) =~= item + (" depends on `"@ + dep + rest));
    crate::pins::lemma_item_text(node.pin.kind, node.pin.name@, node.pin.tag@);
    mentions_carry_over(gap_text(node, key), item, node.pin.name@ + ":"@ + node.pin.tag@);
}

/// A node counts as identical only where both manifests have a fingerprint and it
/// is one.
pub proof fn only_equal_fingerprints_are_identical(
    held: Option<Option<String>>,
    incoming: Option<String>,
    r: bool,
)
    requires
        call_ensures(stack_holds_identical, (&held, &incoming), r),
    ensures
        r <==> (held matches Some(Some(a)) && incoming matches Some(b) && a@ == b@),
{
}

/// What a batch undoes is what it added, all of it, the last add first.
pub proof fn a_rollback_undoes_the_last_add_first(added: Vec<Undo>, r: Vec<Undo>, k: int)
    requires
        call_ensures(rollback, (&added,), r),
    ensures
        r@.len() == added@.len(),
        0 <= k < added@.len() ==> r@[k]@ == added@[added@.len() - 1 - k]@,
{
    assert(undo_views(r@).len() == r@.len());
    if 0 <= k < added@.len() {
        assert(undo_views(r@)[k] == r@[k]@);
        assert(undo_views(added@).reverse()[k] == added@[added@.len() - 1 - k]@);
    }
}

/// Environment and force of a goal are the root's alone.
pub proof fn only_the_root_takes_over_the_goal(
    is_root: bool,
    env_vars: Vec<(String, String)>,
    force: bool,
    r: SubGoal,
)
    requires
        call_ensures(sub_goal, (is_root, &env_vars, force), r),
    ensures
        is_root ==> r.force == force && r.env_vars@.len() == env_vars@.len() && forall|k: int|
            0 <= k < env_vars@.len() ==> (#[trigger] r.env_vars@[k]).0@ == env_vars@[k].0@
                && r.env_vars@[k].1@ == env_vars@[k].1@,
        !is_root ==> !r.force && r.env_vars@.len() == 0,
{
    if is_root {
        assert(pair_texts(r.env_vars@).len() == r.env_vars@.len());
        assert(pair_texts(env_vars@).len() == env_vars@.len());
        assert forall|k: int| 0 <= k < env_vars@.len() implies (#[trigger] r.env_vars@[k]).0@
            == env_vars@[k].0@ && r.env_vars@[k].1@ == env_vars@[k].1@ by {
            assert(pair_texts(r.env_vars@)[k] == pair_texts(env_vars@)[k]);
        }
    }
}

} // verus!
