//! The ledger of incarnations: for each source, how often it has run.
//!
//! A source's messages carry its incarnation, and subscriptions name the one
//! that they mean. The daemon that owns a source allocates its numbers; others
//! only record what they are told. Nothing is ever forgotten: a number used
//! twice would confuse two runs.
use crate::order::PairText;
use crate::text::str_eq;
use vstd::prelude::*;
use vstd::string::*;

verus! {

/// A source's full address: instances of one name may run on several daemons.
#[derive(Debug, PartialEq, Eq)]
pub struct SourceKey {
    pub core_node: String,
    pub instance_id: String,
}

impl View for SourceKey {
    type V = PairText;

    open spec fn view(&self) -> PairText {
        (self.core_node@, self.instance_id@)
    }
}

impl SourceKey {
    /// The address of an instance on a core node.
    pub fn new(core_node: &str, instance_id: &str) -> (r: Self)
        ensures
            r@ == (core_node@, instance_id@),
    {
        SourceKey { core_node: core_node.to_owned(), instance_id: instance_id.to_owned() }
    }

    /// Whether two addresses are the same.
    pub fn is_same(&self, other: &SourceKey) -> (r: bool)
        ensures
            r == (self@ == other@),
    {
        str_eq(self.core_node.as_str(), other.core_node.as_str()) && str_eq(
            self.instance_id.as_str(),
            other.instance_id.as_str(),
        )
    }
}

impl Clone for SourceKey {
    fn clone(&self) -> (r: Self)
        ensures
            r@ == self@,
    {
        SourceKey { core_node: self.core_node.clone(), instance_id: self.instance_id.clone() }
    }
}

/// The number that a list of counters has for a source; zero where it has none.
pub open spec fn counted(counters: Seq<(SourceKey, u64)>, source: PairText) -> u64
    decreases counters.len(),
{
    if counters.len() == 0 {
        0
    } else if counters[0].0@ == source {
        counters[0].1
    } else {
        counted(counters.drop_first(), source)
    }
}

/// Whether a list of counters has a source.
pub open spec fn is_counted(counters: Seq<(SourceKey, u64)>, source: PairText) -> bool {
    exists|k: int| 0 <= k < counters.len() && (#[trigger] counters[k]).0@ == source
}

/// What a source counts is what stands at its first place.
pub proof fn lemma_counted_at(counters: Seq<(SourceKey, u64)>, source: PairText, at: int)
    requires
        0 <= at < counters.len(),
        counters[at].0@ == source,
        forall|k: int| 0 <= k < at ==> (#[trigger] counters[k]).0@ != source,
    ensures
        counted(counters, source) == counters[at].1,
    decreases at,
{
    if at > 0 {
        let rest = counters.drop_first();
        assert(counters[0].0@ != source);
        assert forall|k: int| 0 <= k < at - 1 implies (#[trigger] rest[k]).0@ != source by {
            assert(rest[k] == counters[k + 1]);
        }
        lemma_counted_at(rest, source, at - 1);
    }
}

/// A source that is nowhere counts zero.
pub proof fn lemma_not_counted(counters: Seq<(SourceKey, u64)>, source: PairText)
    requires
        !is_counted(counters, source),
    ensures
        counted(counters, source) == 0,
    decreases counters.len(),
{
    if counters.len() > 0 {
        let rest = counters.drop_first();
        assert(counters[0].0@ != source);
        assert forall|k: int| 0 <= k < rest.len() implies (#[trigger] rest[k]).0@ != source by {
            assert(rest[k] == counters[k + 1]);
        }
        lemma_not_counted(rest, source);
    }
}

/// Where a list of counters has a source first.
pub fn counter_place(counters: &Vec<(SourceKey, u64)>, source: &SourceKey) -> (r: Option<usize>)
    ensures
        match r {
            Some(at) => at < counters@.len() && counters@[at as int].0@ == source@ && counted(
                counters@,
                source@,
            ) == counters@[at as int].1 && forall|k: int|
                0 <= k < at ==> (#[trigger] counters@[k]).0@ != source@,
            None => !is_counted(counters@, source@) && counted(counters@, source@) == 0,
        },
{
    let mut i: usize = 0;
    while i < counters.len()
        invariant
            i <= counters@.len(),
            forall|k: int| 0 <= k < i ==> (#[trigger] counters@[k]).0@ != source@,
        decreases counters.len() - i,
    {
        if counters[i].0.is_same(source) {
            proof {
                lemma_counted_at(counters@, source@, i as int);
            }
            return Some(i);
        }
        i += 1;
    }
    proof {
        lemma_not_counted(counters@, source@);
    }
    None
}

/// Setting a source's number changes no other.
proof fn lemma_set_counter(
    before: Seq<(SourceKey, u64)>,
    after: Seq<(SourceKey, u64)>,
    at: int,
    value: u64,
    other: PairText,
)
    requires
        0 <= at < before.len(),
        after.len() == before.len(),
        after[at].0@ == before[at].0@,
        after[at].1 == value,
        forall|k: int| 0 <= k < before.len() && k != at ==> after[k] == before[k],
        forall|k: int| 0 <= k < at ==> (#[trigger] before[k]).0@ != before[at].0@,
    ensures
        counted(after, other) == (if other == before[at].0@ {
            value
        } else {
            counted(before, other)
        }),
    decreases before.len(),
{
    if at > 0 {
        assert(after[0] == before[0]);
        let b = before.drop_first();
        let a = after.drop_first();
        assert(before[0].0@ != before[at].0@);
        assert forall|k: int| 0 <= k < at - 1 implies (#[trigger] b[k]).0@ != b[at - 1].0@ by {
            assert(b[k] == before[k + 1]);
        }
        lemma_set_counter(b, a, at - 1, value, other);
    } else {
        assert(after.drop_first() =~= before.drop_first());
    }
}

/// A new source at the end changes no other.
proof fn lemma_push_counter(
    before: Seq<(SourceKey, u64)>,
    after: Seq<(SourceKey, u64)>,
    other: PairText,
)
    requires
        after.len() == before.len() + 1,
        after.drop_last() == before,
        !is_counted(before, after.last().0@),
    ensures
        counted(after, other) == (if other == after.last().0@ {
            after.last().1
        } else {
            counted(before, other)
        }),
    decreases before.len(),
{
    if before.len() == 0 {
        assert(after.drop_first() =~= Seq::empty());
        assert(after[0] == after.last());
        assert(counted(after.drop_first(), other) == 0);
    } else {
        assert(after[0] == before[0]);
        let b = before.drop_first();
        let a = after.drop_first();
        assert(a.drop_last() =~= b);
        assert(a.last() == after.last());
        assert(before[0].0@ != after.last().0@);
        assert forall|k: int| 0 <= k < b.len() implies (#[trigger] b[k]).0@ != a.last().0@ by {
            assert(b[k] == before[k + 1]);
        }
        lemma_push_counter(b, a, other);
    }
}

/// Sets a source's number.
pub fn set_counter(counters: &mut Vec<(SourceKey, u64)>, source: &SourceKey, value: u64)
    ensures
        forall|other: PairText| #[trigger]
            counted(final(counters)@, other) == (if other == source@ {
                value
            } else {
                counted(old(counters)@, other)
            }),
{
    let ghost before = counters@;
    match counter_place(counters, source) {
        Some(at) => {
            counters[at] = (source.clone(), value);
            proof {
                assert forall|other: PairText| #[trigger]
                    counted(counters@, other) == (if other == source@ {
                        value
                    } else {
                        counted(before, other)
                    }) by {
                    lemma_set_counter(before, counters@, at as int, value, other);
                }
            }
        },
        None => {
            counters.push((source.clone(), value));
            proof {
                assert(counters@.drop_last() =~= before);
                assert forall|other: PairText| #[trigger]
                    counted(counters@, other) == (if other == source@ {
                        value
                    } else {
                        counted(before, other)
                    }) by {
                    lemma_push_counter(before, counters@, other);
                }
            }
        },
    }
}

/// What a list counts with one more entry at its end.
proof fn lemma_counted_push(before: Seq<(SourceKey, u64)>, entry: (SourceKey, u64), other: PairText)
    ensures
        is_counted(before.push(entry), other) == (is_counted(before, other) || entry.0@ == other),
        counted(before.push(entry), other) == (if is_counted(before, other) {
            counted(before, other)
        } else if entry.0@ == other {
            entry.1
        } else {
            0
        }),
    decreases before.len(),
{
    let after = before.push(entry);
    assert(after.last() == entry);
    if is_counted(before, other) {
        let k = choose|k: int| 0 <= k < before.len() && (#[trigger] before[k]).0@ == other;
        assert(after[k] == before[k]);
    }
    if entry.0@ == other {
        assert(after[before.len() as int].0@ == other);
    }
    if is_counted(after, other) {
        let k = choose|k: int| 0 <= k < after.len() && (#[trigger] after[k]).0@ == other;
        if k < before.len() {
            assert(before[k].0@ == other);
        }
    }
    if before.len() == 0 {
        assert(after.drop_first() =~= Seq::empty());
        assert(counted(after.drop_first(), other) == 0);
    } else {
        let rest = before.drop_first();
        assert(after.drop_first() =~= rest.push(entry));
        assert(after[0] == before[0]);
        lemma_counted_push(rest, entry, other);
        if before[0].0@ != other {
            if is_counted(before, other) {
                let k = choose|k: int| 0 <= k < before.len() && (#[trigger] before[k]).0@ == other;
                assert(rest[k - 1].0@ == other);
            }
            if is_counted(rest, other) {
                let k = choose|k: int| 0 <= k < rest.len() && (#[trigger] rest[k]).0@ == other;
                assert(before[k + 1].0@ == other);
            }
        }
    }
}

/// A source that is nowhere counts zero.
proof fn lemma_not_counted_zero(counters: Seq<(SourceKey, u64)>, source: PairText)
    ensures
        !is_counted(counters, source) ==> counted(counters, source) == 0,
{
    if !is_counted(counters, source) {
        lemma_not_counted(counters, source);
    }
}

/// Drops a source's number.
pub fn drop_counter(counters: &mut Vec<(SourceKey, u64)>, source: &SourceKey)
    ensures
        !is_counted(final(counters)@, source@),
        counted(final(counters)@, source@) == 0,
        forall|other: PairText|
            other != source@ ==> #[trigger] counted(final(counters)@, other) == counted(
                old(counters)@,
                other,
            ),
{
    let ghost before = counters@;
    let mut kept: Vec<(SourceKey, u64)> = Vec::new();
    let mut i: usize = 0;
    while i < counters.len()
        invariant
            i <= counters@.len(),
            counters@ == before,
            !is_counted(kept@, source@),
            forall|other: PairText|
                other != source@ ==> #[trigger] counted(kept@, other) == counted(
                    before.take(i as int),
                    other,
                ) && is_counted(kept@, other) == is_counted(before.take(i as int), other),
        decreases counters.len() - i,
    {
        let same = counters[i].0.is_same(source);
        let ghost so_far = kept@;
        let ghost entry = before[i as int];
        if !same {
            kept.push((counters[i].0.clone(), counters[i].1));
        }
        proof {
            assert(before.take(i + 1) =~= before.take(i as int).push(entry));
            if !same {
                lemma_counted_push(so_far, kept@.last(), source@);
                assert(kept@ =~= so_far.push(kept@.last()));
            }
            assert forall|other: PairText| other != source@ implies #[trigger] counted(kept@, other)
                == counted(before.take(i + 1), other) && is_counted(kept@, other) == is_counted(
                before.take(i + 1),
                other,
            ) by {
                let was = before.take(i as int);
                lemma_counted_push(was, entry, other);
                assert(counted(so_far, other) == counted(was, other));
                assert(is_counted(so_far, other) == is_counted(was, other));
                if !same {
                    lemma_counted_push(so_far, kept@.last(), other);
                    assert(kept@.last().0@ == entry.0@ && kept@.last().1 == entry.1);
                } else {
                    assert(entry.0@ == source@);
                    lemma_not_counted_zero(was, other);
                }
            }
        }
        i += 1;
    }
    proof {
        assert(before.take(before.len() as int) =~= before);
        lemma_not_counted(kept@, source@);
    }
    *counters = kept;
}

/// The ledger of incarnations.
pub struct IncarnationLedger {
    pub counters: Vec<(SourceKey, u64)>,
}

/// The incarnation of a source as a ledger has it; zero for one that it has
/// never seen run.
pub open spec fn incarnation(ledger: IncarnationLedger, source: PairText) -> u64 {
    counted(ledger.counters@, source)
}

/// Whether a ledger changed for one source alone, to this incarnation.
pub open spec fn changed_for(
    before: IncarnationLedger,
    source: PairText,
    value: u64,
    after: IncarnationLedger,
) -> bool {
    forall|other: PairText| #[trigger]
        incarnation(after, other) == (if other == source {
            value
        } else {
            incarnation(before, other)
        })
}

/// The higher of two incarnations.
pub open spec fn newer(a: u64, b: u64) -> u64 {
    if a > b {
        a
    } else {
        b
    }
}

impl Default for IncarnationLedger {
    fn default() -> (r: Self)
        ensures
            forall|source: PairText| #[trigger] incarnation(r, source) == 0,
    {
        IncarnationLedger { counters: Vec::new() }
    }
}

impl IncarnationLedger {
    /// Mints the next incarnation of an instance of this daemon that is about to
    /// be spawned.
    pub fn allocate_local(&mut self, core_node: &str, instance_id: &str) -> (r: u64)
        requires
            incarnation(*old(self), (core_node@, instance_id@)) < u64::MAX,
        ensures
            r == incarnation(*old(self), (core_node@, instance_id@)) + 1,
            changed_for(*old(self), (core_node@, instance_id@), r, *final(self)),
    {
        let source = SourceKey::new(core_node, instance_id);
        let next: u64 = self.current(&source) + 1;
        set_counter(&mut self.counters, &source, next);
        next
    }

    /// Records an incarnation that another daemon reports: the highest one
    /// stays.
    pub fn record_reported(&mut self, source: &SourceKey, reported: u64)
        ensures
            changed_for(
                *old(self),
                source@,
                newer(reported, incarnation(*old(self), source@)),
                *final(self),
            ),
    {
        let current = self.current(source);
        if reported > current {
            set_counter(&mut self.counters, source, reported);
        }
    }

    /// The incarnation of a source as this daemon knows it; zero for one that it
    /// has never seen run.
    pub fn current(&self, source: &SourceKey) -> (r: u64)
        ensures
            r == incarnation(*self, source@),
    {
        match counter_place(&self.counters, source) {
            Some(at) => self.counters[at].1,
            None => 0,
        }
    }
}

/// Whatever is allocated for a source or reported of it, no source's incarnation
/// goes back, and the others stay as they are.
pub proof fn incarnations_never_go_back(
    before: IncarnationLedger,
    source: PairText,
    reported: u64,
    after_allocation: IncarnationLedger,
    after_report: IncarnationLedger,
    other: PairText,
)
    requires
        incarnation(before, source) < u64::MAX,
        changed_for(
            before,
            source,
            (incarnation(before, source) + 1) as u64,
            after_allocation,
        ),
        changed_for(before, source, newer(reported, incarnation(before, source)), after_report),
    ensures
        incarnation(after_allocation, source) > incarnation(before, source),
        incarnation(after_report, source) >= incarnation(before, source),
        other != source ==> incarnation(after_allocation, other) == incarnation(before, other)
            && incarnation(after_report, other) == incarnation(before, other),
{
}

/// Reports converge on the highest, in whatever order they come and however
/// often.
pub proof fn reports_converge(
    before: IncarnationLedger,
    source: PairText,
    first: u64,
    second: u64,
    one: IncarnationLedger,
    both: IncarnationLedger,
    other_one: IncarnationLedger,
    other_both: IncarnationLedger,
    other: PairText,
)
    requires
        changed_for(before, source, newer(first, incarnation(before, source)), one),
        changed_for(one, source, newer(second, incarnation(one, source)), both),
        changed_for(before, source, newer(second, incarnation(before, source)), other_one),
        changed_for(other_one, source, newer(first, incarnation(other_one, source)), other_both),
    ensures
        incarnation(both, other) == incarnation(other_both, other),
        incarnation(both, source) == newer(newer(first, second), incarnation(before, source)),
{
    assert(incarnation(one, source) == newer(first, incarnation(before, source)));
    assert(incarnation(other_one, source) == newer(second, incarnation(before, source)));
}

/// An instance that is about to be spawned gets an incarnation above every one that is
/// known of it, and that is the one known from now on.
pub proof fn a_new_instance_has_a_new_incarnation(
    ledger: &mut IncarnationLedger,
    core_node: &str,
    instance_id: &str,
    r: u64,
    other: PairText,
)
    requires
        incarnation(*old(ledger), (core_node@, instance_id@)) < u64::MAX,
        call_ensures(IncarnationLedger::allocate_local, (ledger, core_node, instance_id), r),
    ensures
        r > incarnation(*old(ledger), (core_node@, instance_id@)),
        incarnation(*final(ledger), (core_node@, instance_id@)) == r,
        other != (core_node@, instance_id@) ==> incarnation(*final(ledger), other) == incarnation(
            *old(ledger),
            other,
        ),
{
    let now = incarnation(*final(ledger), (core_node@, instance_id@));
    let same = incarnation(*final(ledger), other);
}

/// A report never takes an incarnation back: the higher of what is known and what is
/// reported stays.
pub proof fn a_report_takes_nothing_back(
    ledger: &mut IncarnationLedger,
    source: SourceKey,
    reported: u64,
    other: PairText,
)
    requires
        call_ensures(IncarnationLedger::record_reported, (ledger, &source, reported), ()),
    ensures
        incarnation(*final(ledger), source@) >= reported,
        incarnation(*final(ledger), source@) >= incarnation(*old(ledger), source@),
        incarnation(*final(ledger), source@) == reported || incarnation(*final(ledger), source@)
            == incarnation(*old(ledger), source@),
        other != source@ ==> incarnation(*final(ledger), other) == incarnation(
            *old(ledger),
            other,
        ),
{
    let now = incarnation(*final(ledger), source@);
    let same = incarnation(*final(ledger), other);
}

} // verus!
