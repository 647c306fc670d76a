//! The sets of slots that a join or a removal changes, and how they reach the
//! instances of this daemon.
use crate::order::{
    has_text, lemma_picked_next, lemma_picked_none, pair_lt, pair_side_of, picked, PairText, Side,
};
use crate::text::texts;
use vstd::prelude::*;
use vstd::string::*;

verus! {

/// What a slot holds. `P` is a set of producers, `O` one of observed sources.
pub enum SlotMembers<P, O> {
    Producers(P),
    Observed(O),
}

/// The set that a slot holds from now on.
pub struct SlotSet<P, O> {
    pub instance_id: String,
    pub link_id: String,
    pub members: SlotMembers<P, O>,
}

/// The slot of a set.
pub open spec fn set_slot<P, O>(set: SlotSet<P, O>) -> PairText {
    (set.instance_id@, set.link_id@)
}

/// A set on its way to its slot.
pub struct SlotDelivery<T> {
    pub instance_id: String,
    pub link_id: String,
    pub members: T,
}

/// The slot of a delivery.
pub open spec fn slot_of<T>(delivery: SlotDelivery<T>) -> PairText {
    (delivery.instance_id@, delivery.link_id@)
}

/// What becomes of some sets: the failures of those whose instance does not run
/// here, and the deliveries of the others, each slot once, in order.
pub struct SetPlan<P, O> {
    pub failures: Vec<String>,
    pub producers: Vec<SlotDelivery<P>>,
    pub observers: Vec<SlotDelivery<O>>,
}

/// A slot as failures name it.
pub open spec fn slot_text(slot: PairText) -> Seq<char> {
    "`"@ + slot.0 + ".links."@ + slot.1 + "`: "@
}

/// The failures of the first `n` sets, in order.
pub open spec fn strangers<P, O>(
    sets: Seq<SlotSet<P, O>>,
    running: Seq<Seq<char>>,
    known: Seq<Seq<char>>,
    n: int,
) -> Seq<Seq<char>>
    decreases n,
{
    if n <= 0 || n > sets.len() {
        Seq::empty()
    } else {
        let before = strangers(sets, running, known, n - 1);
        let slot = set_slot(sets[n - 1]);
        if running.contains(slot.0) {
            before
        } else {
            before.push(
                slot_text(slot) + (if known.contains(slot.0) {
                    "the instance is not running"@
                } else {
                    "no such instance"@
                }),
            )
        }
    }
}

/// The producers that the last of the first `n` sets for a slot brings, where one
/// does.
pub open spec fn producers_for<P, O>(
    sets: Seq<SlotSet<P, O>>,
    running: Seq<Seq<char>>,
    slot: PairText,
    n: int,
) -> Option<P>
    decreases n,
{
    if n <= 0 || n > sets.len() {
        None
    } else {
        match sets[n - 1].members {
            SlotMembers::Producers(members) if set_slot(sets[n - 1]) == slot && running.contains(
                slot.0,
            ) => Some(members),
            _ => producers_for(sets, running, slot, n - 1),
        }
    }
}

/// The sources that the last of the first `n` sets for a slot brings, where one
/// does.
pub open spec fn observed_for<P, O>(
    sets: Seq<SlotSet<P, O>>,
    running: Seq<Seq<char>>,
    slot: PairText,
    n: int,
) -> Option<O>
    decreases n,
{
    if n <= 0 || n > sets.len() {
        None
    } else {
        match sets[n - 1].members {
            SlotMembers::Observed(members) if set_slot(sets[n - 1]) == slot && running.contains(
                slot.0,
            ) => Some(members),
            _ => observed_for(sets, running, slot, n - 1),
        }
    }
}

/// Whether a list of deliveries is in order, each slot once.
pub open spec fn sorted_slots<T>(list: Seq<SlotDelivery<T>>) -> bool {
    forall|i: int, j: int|
        0 <= i < j < list.len() ==> pair_lt(
            slot_of(#[trigger] list[i]),
            slot_of(#[trigger] list[j]),
        )
}

/// What a list of deliveries brings a slot.
pub open spec fn brought<T>(list: Seq<SlotDelivery<T>>, slot: PairText) -> Option<T>
    decreases list.len(),
{
    if list.len() == 0 {
        None
    } else if slot_of(list.last()) == slot {
        Some(list.last().members)
    } else {
        brought(list.drop_last(), slot)
    }
}

/// What a sorted list brings a slot is what stands at the slot's place.
proof fn lemma_brought_at<T>(list: Seq<SlotDelivery<T>>, slot: PairText, at: int)
    requires
        sorted_slots(list),
        0 <= at < list.len(),
        slot_of(list[at]) == slot,
    ensures
        brought(list, slot) == Some(list[at].members),
    decreases list.len(),
{
    if at < list.len() - 1 {
        let rest = list.drop_last();
        assert(pair_lt(slot_of(list[at]), slot_of(list[list.len() - 1])));
        crate::order::lemma_pair_order(slot, slot, slot);
        assert forall|i: int, j: int| 0 <= i < j < rest.len() implies pair_lt(
            slot_of(#[trigger] rest[i]),
            slot_of(#[trigger] rest[j]),
        ) by {
            assert(rest[i] == list[i] && rest[j] == list[j]);
        }
        lemma_brought_at(rest, slot, at);
    }
}

/// A slot that is nowhere gets nothing.
proof fn lemma_not_brought<T>(list: Seq<SlotDelivery<T>>, slot: PairText)
    requires
        forall|k: int| 0 <= k < list.len() ==> slot_of(#[trigger] list[k]) != slot,
    ensures
        brought(list, slot) is None,
    decreases list.len(),
{
    if list.len() > 0 {
        let rest = list.drop_last();
        assert(slot_of(list[list.len() - 1]) != slot);
        assert forall|k: int| 0 <= k < rest.len() implies slot_of(#[trigger] rest[k]) != slot by {
            assert(rest[k] == list[k]);
        }
        lemma_not_brought(rest, slot);
    }
}

/// Two sorted lists that differ in one slot only bring every other slot the same.
proof fn lemma_brought_elsewhere<T>(
    before: Seq<SlotDelivery<T>>,
    after: Seq<SlotDelivery<T>>,
    changed: PairText,
    slot: PairText,
)
    requires
        sorted_slots(before),
        sorted_slots(after),
        slot != changed,
        forall|k: int|
            0 <= k < before.len() && slot_of(#[trigger] before[k]) != changed ==> exists|m: int|
                0 <= m < after.len() && #[trigger] after[m] == before[k],
        forall|m: int|
            0 <= m < after.len() && slot_of(#[trigger] after[m]) != changed ==> exists|k: int|
                0 <= k < before.len() && #[trigger] before[k] == after[m],
    ensures
        brought(after, slot) == brought(before, slot),
{
    if exists|k: int| 0 <= k < before.len() && slot_of(#[trigger] before[k]) == slot {
        let k = choose|k: int| 0 <= k < before.len() && slot_of(#[trigger] before[k]) == slot;
        let m = choose|m: int| 0 <= m < after.len() && #[trigger] after[m] == before[k];
        lemma_brought_at(before, slot, k);
        lemma_brought_at(after, slot, m);
    } else {
        lemma_not_brought(before, slot);
        assert forall|m: int| 0 <= m < after.len() implies slot_of(#[trigger] after[m]) != slot by {
            if slot_of(after[m]) == slot {
                let k = choose|k: int| 0 <= k < before.len() && #[trigger] before[k] == after[m];
                assert(slot_of(before[k]) == slot);
            }
        }
        lemma_not_brought(after, slot);
    }
}

/// Where a slot stands in a sorted list or would stand, and whether it does.
fn place<T>(list: &Vec<SlotDelivery<T>>, instance_id: &str, link_id: &str) -> (r: (usize, bool))
    requires
        sorted_slots(list@),
    ensures
        r.0 <= list@.len(),
        forall|k: int|
            0 <= k < r.0 ==> pair_lt(slot_of(#[trigger] list@[k]), (instance_id@, link_id@)),
        forall|k: int|
            r.0 <= k < list@.len() && !(r.1 && k == r.0) ==> pair_lt(
                (instance_id@, link_id@),
                slot_of(#[trigger] list@[k]),
            ),
        r.1 ==> r.0 < list@.len() && slot_of(list@[r.0 as int]) == (instance_id@, link_id@),
{
    let ghost slot: PairText = (instance_id@, link_id@);
    let mut at: usize = 0;
    while at < list.len()
        invariant
            at <= list@.len(),
            sorted_slots(list@),
            slot == (instance_id@, link_id@),
            forall|k: int| 0 <= k < at ==> pair_lt(slot_of(#[trigger] list@[k]), slot),
        decreases list.len() - at,
    {
        let side = pair_side_of(
            (list[at].instance_id.as_str(), list[at].link_id.as_str()),
            (instance_id, link_id),
        );
        match side {
            Side::Before => {
                at += 1;
            },
            Side::Same => {
                proof {
                    assert forall|k: int| at < k < list@.len() implies pair_lt(
                        slot,
                        slot_of(#[trigger] list@[k]),
                    ) by {
                        assert(pair_lt(slot_of(list@[at as int]), slot_of(list@[k])));
                    }
                }
                return (at, true);
            },
            Side::After => {
                proof {
                    assert forall|k: int| at <= k < list@.len() implies pair_lt(
                        slot,
                        slot_of(#[trigger] list@[k]),
                    ) by {
                        if k > at {
                            assert(pair_lt(slot_of(list@[at as int]), slot_of(list@[k])));
                            crate::order::lemma_pair_order(
                                slot,
                                slot_of(list@[at as int]),
                                slot_of(list@[k]),
                            );
                        }
                    }
                }
                return (at, false);
            },
        }
    }
    (at, false)
}

/// Enters a delivery into a sorted list, in place of one for the same slot.
fn enter<T>(list: &mut Vec<SlotDelivery<T>>, x: SlotDelivery<T>)
    requires
        sorted_slots(old(list)@),
    ensures
        sorted_slots(final(list)@),
        forall|slot: PairText| #[trigger]
            brought(final(list)@, slot) == (if slot == slot_of(x) {
                Some(x.members)
            } else {
                brought(old(list)@, slot)
            }),
{
    let ghost before = list@;
    let ghost added = slot_of(x);
    let ghost members = x.members;
    let (at, found) = place(list, x.instance_id.as_str(), x.link_id.as_str());
    if found {
        list[at] = x;
        proof {
            let after = list@;
            assert forall|i: int, j: int| 0 <= i < j < after.len() implies pair_lt(
                slot_of(#[trigger] after[i]),
                slot_of(#[trigger] after[j]),
            ) by {
                assert(slot_of(after[i]) == slot_of(before[i]));
                assert(slot_of(after[j]) == slot_of(before[j]));
            }
            assert forall|k: int| 0 <= k < before.len() && slot_of(#[trigger] before[k]) != added
                implies exists|m: int| 0 <= m < after.len() && #[trigger] after[m] == before[k] by {
                assert(after[k] == before[k]);
            }
            assert forall|m: int| 0 <= m < after.len() && slot_of(#[trigger] after[m]) != added
                implies exists|k: int| 0 <= k < before.len() && #[trigger] before[k] == after[m] by {
                assert(before[m] == after[m]);
            }
            lemma_brought_at(after, added, at as int);
            assert forall|slot: PairText| #[trigger] brought(after, slot) == (if slot == added {
                Some(members)
            } else {
                brought(before, slot)
            }) by {
                if slot != added {
                    lemma_brought_elsewhere(before, after, added, slot);
                }
            }
        }
    } else {
        list.insert(at, x);
        proof {
            let after = list@;
            assert(after =~= before.insert(at as int, x));
            assert forall|i: int, j: int| 0 <= i < j < after.len() implies pair_lt(
                slot_of(#[trigger] after[i]),
                slot_of(#[trigger] after[j]),
            ) by {
                let bi = if i < at {
                    i
                } else {
                    i - 1
                };
                let bj = if j < at {
                    j
                } else {
                    j - 1
                };
                if i != at {
                    assert(after[i] == before[bi]);
                }
                if j != at {
                    assert(after[j] == before[bj]);
                }
            }
            assert forall|k: int| 0 <= k < before.len() && slot_of(#[trigger] before[k]) != added
                implies exists|m: int| 0 <= m < after.len() && #[trigger] after[m] == before[k] by {
                let m = if k < at {
                    k
                } else {
                    k + 1
                };
                assert(after[m] == before[k]);
            }
            assert forall|m: int| 0 <= m < after.len() && slot_of(#[trigger] after[m]) != added
                implies exists|k: int| 0 <= k < before.len() && #[trigger] before[k] == after[m] by {
                let k = if m < at {
                    m
                } else {
                    m - 1
                };
                assert(before[k] == after[m]);
            }
            lemma_brought_at(after, added, at as int);
            assert forall|slot: PairText| #[trigger] brought(after, slot) == (if slot == added {
                Some(members)
            } else {
                brought(before, slot)
            }) by {
                if slot != added {
                    lemma_brought_elsewhere(before, after, added, slot);
                }
            }
        }
    }
}

/// The failure of a delivery to a slot.
pub fn slot_failure(instance_id: &str, link_id: &str, why: &str) -> (r: String)
    ensures
        r@ == slot_text((instance_id@, link_id@)) + why@,
{
    let mut text: String = "`".to_owned();
    text.append(instance_id);
    text.append(".links.");
    text.append(link_id);
    text.append("`: ");
    text.append(why);
    text
}

/// What becomes of some sets. A set whose instance does not run here fails; of
/// the sets for one slot the last one is delivered, for both kinds alike.
pub fn replace_sets<P, O>(
    sets: Vec<SlotSet<P, O>>,
    running: &Vec<String>,
    known: &Vec<String>,
) -> (r: SetPlan<P, O>)
    ensures
        texts(r.failures@) == strangers(
            sets@,
            texts(running@),
            texts(known@),
            sets@.len() as int,
        ),
        sorted_slots(r.producers@),
        sorted_slots(r.observers@),
        forall|slot: PairText| #[trigger]
            brought(r.producers@, slot) == producers_for(
                sets@,
                texts(running@),
                slot,
                sets@.len() as int,
            ),
        forall|slot: PairText| #[trigger]
            brought(r.observers@, slot) == observed_for(
                sets@,
                texts(running@),
                slot,
                sets@.len() as int,
            ),
{
    let mut failures: Vec<String> = Vec::new();
    let mut producers: Vec<SlotDelivery<P>> = Vec::new();
    let mut observers: Vec<SlotDelivery<O>> = Vec::new();
    let ghost up = texts(running@);
    let ghost seen = texts(known@);
    proof {
        assert(texts(failures@) =~= Seq::<Seq<char>>::empty());
    }
    for set in it: sets
        invariant
            it.seq() == sets@,
            up == texts(running@),
            seen == texts(known@),
            texts(failures@) == strangers(sets@, up, seen, it.index() as int),
            sorted_slots(producers@),
            sorted_slots(observers@),
            forall|slot: PairText| #[trigger]
                brought(producers@, slot) == producers_for(sets@, up, slot, it.index() as int),
            forall|slot: PairText| #[trigger]
                brought(observers@, slot) == observed_for(sets@, up, slot, it.index() as int),
    {
        let ghost n = it.index() as int;
        let ghost slot_here = set_slot(set);
        proof {
            assert(sets@[n] == set);
        }
        if !has_text(running, set.instance_id.as_str()) {
            let why: &str = if has_text(known, set.instance_id.as_str()) {
                "the instance is not running"
            } else {
                "no such instance"
            };
            let ghost before = texts(failures@);
            let text = slot_failure(set.instance_id.as_str(), set.link_id.as_str(), why);
            let ghost told = text@;
            failures.push(text);
            proof {
                assert(texts(failures@) =~= before.push(told));
                assert forall|slot: PairText| #[trigger] brought(producers@, slot)
                    == producers_for(sets@, up, slot, n + 1) by {
                    assert(brought(producers@, slot) == producers_for(sets@, up, slot, n));
                }
                assert forall|slot: PairText| #[trigger] brought(observers@, slot)
                    == observed_for(sets@, up, slot, n + 1) by {
                    assert(brought(observers@, slot) == observed_for(sets@, up, slot, n));
                }
            }
        } else {
            let ghost old_producers = producers@;
            let ghost old_observers = observers@;
            match set.members {
                SlotMembers::Producers(members) => {
                    enter(
                        &mut producers,
                        SlotDelivery { instance_id: set.instance_id, link_id: set.link_id, members },
                    );
                },
                SlotMembers::Observed(members) => {
                    enter(
                        &mut observers,
                        SlotDelivery { instance_id: set.instance_id, link_id: set.link_id, members },
                    );
                },
            }
            proof {
                assert forall|slot: PairText| #[trigger] brought(producers@, slot)
                    == producers_for(sets@, up, slot, n + 1) by {
                    assert(brought(old_producers, slot) == producers_for(sets@, up, slot, n));
                }
                assert forall|slot: PairText| #[trigger] brought(observers@, slot)
                    == observed_for(sets@, up, slot, n + 1) by {
                    assert(brought(old_observers, slot) == observed_for(sets@, up, slot, n));
                }
            }
        }
    }
    SetPlan { failures, producers, observers }
}

/// The place of the last set for a slot among the first `n`, of producers where
/// `producers` says so and of observed sources else.
pub open spec fn is_last_for<P, O>(
    sets: Seq<SlotSet<P, O>>,
    slot: PairText,
    producers: bool,
    n: int,
    at: int,
) -> bool {
    &&& 0 <= at < n && sets[at].instance_id@ == slot.0 && sets[at].link_id@ == slot.1
    &&& (sets[at].members is Producers) == producers
    &&& forall|j: int|
        at < j < n ==> !((#[trigger] sets[j]).instance_id@ == slot.0 && sets[j].link_id@ == slot.1
            && (sets[j].members is Producers) == producers)
}

/// What the sets bring a slot is what the last one for it brings.
proof fn lemma_last_for<P, O>(
    sets: Seq<SlotSet<P, O>>,
    running: Seq<Seq<char>>,
    slot: PairText,
    n: int,
)
    requires
        0 <= n <= sets.len(),
    ensures
        producers_for(sets, running, slot, n) matches Some(members) ==> running.contains(slot.0)
            && exists|at: int|
            #[trigger] is_last_for(sets, slot, true, n, at) && sets[at].members
                == SlotMembers::<P, O>::Producers(members),
        producers_for(sets, running, slot, n) is None && running.contains(slot.0) ==> forall|at: int|
            !#[trigger] is_last_for(sets, slot, true, n, at),
        observed_for(sets, running, slot, n) matches Some(members) ==> running.contains(slot.0)
            && exists|at: int|
            #[trigger] is_last_for(sets, slot, false, n, at) && sets[at].members
                == SlotMembers::<P, O>::Observed(members),
        observed_for(sets, running, slot, n) is None && running.contains(slot.0) ==> forall|at: int|
            !#[trigger] is_last_for(sets, slot, false, n, at),
    decreases n,
{
    if n > 0 {
        lemma_last_for(sets, running, slot, n - 1);
        let last = sets[n - 1];
        let here = last.instance_id@ == slot.0 && last.link_id@ == slot.1;
        assert(here <==> set_slot(last) == slot);
        if here && last.members is Producers {
            assert(is_last_for(sets, slot, true, n, n - 1));
        }
        if here && last.members is Observed {
            assert(is_last_for(sets, slot, false, n, n - 1));
        }
        assert forall|at: int| at < n - 1 && !(here && last.members is Producers) implies (
        #[trigger] is_last_for(sets, slot, true, n, at) <==> is_last_for(
            sets,
            slot,
            true,
            n - 1,
            at,
        )) by {}
        assert forall|at: int| at < n - 1 && !(here && last.members is Observed) implies (
        #[trigger] is_last_for(sets, slot, false, n, at) <==> is_last_for(
            sets,
            slot,
            false,
            n - 1,
            at,
        )) by {}
        if !(here && last.members is Producers) {
            if let Some(members) = producers_for(sets, running, slot, n - 1) {
                let at = choose|at: int|
                    #[trigger] is_last_for(sets, slot, true, n - 1, at) && sets[at].members
                        == SlotMembers::<P, O>::Producers(members);
                assert(is_last_for(sets, slot, true, n, at));
            }
        }
        if !(here && last.members is Observed) {
            if let Some(members) = observed_for(sets, running, slot, n - 1) {
                let at = choose|at: int|
                    #[trigger] is_last_for(sets, slot, false, n - 1, at) && sets[at].members
                        == SlotMembers::<P, O>::Observed(members);
                assert(is_last_for(sets, slot, false, n, at));
            }
        }
    }
}

/// A running instance's slot is brought what the last set for it holds, where there is
/// one, and nothing where there is none; a slot of an instance that does not run is
/// brought nothing.
pub proof fn a_slot_gets_the_last_set_for_it<P, O>(
    sets: Vec<SlotSet<P, O>>,
    running: Vec<String>,
    known: Vec<String>,
    r: SetPlan<P, O>,
    slot: PairText,
)
    requires
        call_ensures(replace_sets::<P, O>, (sets, &running, &known), r),
    ensures
        !texts(running@).contains(slot.0) ==> brought(r.producers@, slot) is None && brought(
            r.observers@,
            slot,
        ) is None,
        texts(running@).contains(slot.0) ==> match brought(r.producers@, slot) {
            Some(members) => exists|at: int|
                #[trigger] is_last_for(sets@, slot, true, sets@.len() as int, at)
                    && sets@[at].members == SlotMembers::<P, O>::Producers(members),
            None => forall|at: int|
                !#[trigger] is_last_for(sets@, slot, true, sets@.len() as int, at),
        },
        texts(running@).contains(slot.0) ==> match brought(r.observers@, slot) {
            Some(members) => exists|at: int|
                #[trigger] is_last_for(sets@, slot, false, sets@.len() as int, at)
                    && sets@[at].members == SlotMembers::<P, O>::Observed(members),
            None => forall|at: int|
                !#[trigger] is_last_for(sets@, slot, false, sets@.len() as int, at),
        },
{
    lemma_last_for(sets@, texts(running@), slot, sets@.len() as int);
    assert(brought(r.producers@, slot) == producers_for(
        sets@,
        texts(running@),
        slot,
        sets@.len() as int,
    ));
    assert(brought(r.observers@, slot) == observed_for(
        sets@,
        texts(running@),
        slot,
        sets@.len() as int,
    ));
}

/// Whether the set at a place is for an instance that does not run.
pub open spec fn is_stranger<P, O>(sets: Seq<SlotSet<P, O>>, running: Seq<Seq<char>>) -> spec_fn(
    int,
) -> bool {
    |k: int| 0 <= k < sets.len() && !running.contains(sets[k].instance_id@)
}

/// What is said of the set at a place: its slot, and whether its instance is known.
pub open spec fn stranger_text<P, O>(sets: Seq<SlotSet<P, O>>, known: Seq<Seq<char>>) -> spec_fn(
    int,
) -> Seq<char> {
    |k: int|
        "`"@ + sets[k].instance_id@ + ".links."@ + sets[k].link_id@ + "`: "@ + (if known.contains(
            sets[k].instance_id@,
        ) {
            "the instance is not running"@
        } else {
            "no such instance"@
        })
}

/// The failures are those of the strangers, in order.
proof fn lemma_strangers<P, O>(
    sets: Seq<SlotSet<P, O>>,
    running: Seq<Seq<char>>,
    known: Seq<Seq<char>>,
    n: int,
)
    requires
        0 <= n <= sets.len(),
    ensures
        picked(
            n,
            is_stranger(sets, running),
            stranger_text(sets, known),
            strangers(sets, running, known, n),
        ),
    decreases n,
{
    let wanted = is_stranger(sets, running);
    let told = stranger_text(sets, known);
    if n == 0 {
        lemma_picked_none(wanted, told);
    } else {
        lemma_strangers(sets, running, known, n - 1);
        lemma_picked_next(n - 1, wanted, told, strangers(sets, running, known, n - 1));
    }
}

/// Every set for an instance that does not run here fails, in its turn, and no other.
pub proof fn every_set_for_a_stranger_fails<P, O>(
    sets: Vec<SlotSet<P, O>>,
    running: Vec<String>,
    known: Vec<String>,
    r: SetPlan<P, O>,
)
    requires
        call_ensures(replace_sets::<P, O>, (sets, &running, &known), r),
    ensures
        picked(
            sets@.len() as int,
            is_stranger(sets@, texts(running@)),
            stranger_text(sets@, texts(known@)),
            texts(r.failures@),
        ),
{
    lemma_strangers(sets@, texts(running@), texts(known@), sets@.len() as int);
}

} // verus!
