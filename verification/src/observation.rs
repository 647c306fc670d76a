//! Who observes whom, and what the observers are told.
//!
//! An observer's slot is told its whole set of members, in the order of the
//! plan, whenever one of its sources comes up or goes down. Each member carries
//! its source's generation, which goes up with every run of the source, so that
//! an observer tells the runs apart.
use crate::incarnation::{counted, drop_counter, set_counter, counter_place, SourceKey};
use crate::order::{
    ascending_pairs, has_text, insert_pair, lemma_picked_next, lemma_picked_none, pair_texts,
    picked, PairText,
};
use crate::text::{decimal, opt_str, str_eq, texts, to_decimal};
use vstd::prelude::*;
use vstd::string::*;

pub mod coordinator;

verus! {

/// How many seconds one delivery may take.
pub const OBSERVATION_UPDATE_TIMEOUT_SECS: u64 = 5;

/// A source as it is observed: an instance, through one of its own slots.
pub struct ObservedSource {
    pub producer: SourceKey,
    pub source_link_id: String,
}

/// An `ObservedSource`, its texts as sequences.
pub type PinText = (PairText, Seq<char>);

impl View for ObservedSource {
    type V = PinText;

    open spec fn view(&self) -> PinText {
        (self.producer@, self.source_link_id@)
    }
}

impl Clone for ObservedSource {
    fn clone(&self) -> (r: Self)
        ensures
            r@ == self@,
    {
        ObservedSource {
            producer: self.producer.clone(),
            source_link_id: self.source_link_id.clone(),
        }
    }
}

/// One member of one observer's slot.
pub struct ObserverRecord {
    pub observer_instance_id: String,
    pub observer_link_id: String,
    pub pin: ObservedSource,
}

/// An `ObserverRecord`, its texts as sequences.
pub struct RecordText {
    pub slot: PairText,
    pub pin: PinText,
}

impl View for ObserverRecord {
    type V = RecordText;

    open spec fn view(&self) -> RecordText {
        RecordText {
            slot: (self.observer_instance_id@, self.observer_link_id@),
            pin: self.pin@,
        }
    }
}

/// The contents of a list of records.
pub open spec fn record_texts(list: Seq<ObserverRecord>) -> Seq<RecordText> {
    list.map_values(|record: ObserverRecord| record@)
}

/// The observers of this daemon and what it knows of their sources.
pub struct ObservationRegistry {
    /// The members of all slots, those of one slot in the order of the plan.
    pub records: Vec<ObserverRecord>,
    /// How often each source has come up.
    pub generations: Vec<(SourceKey, u64)>,
    /// The sources on other daemons that are up.
    pub remote_live: Vec<SourceKey>,
}

/// How often a source has come up.
pub open spec fn generation(registry: ObservationRegistry, source: PairText) -> u64 {
    counted(registry.generations@, source)
}

/// Whether a source is in a list.
pub open spec fn has_source(list: Seq<SourceKey>, source: PairText) -> bool {
    exists|k: int| 0 <= k < list.len() && (#[trigger] list[k])@ == source
}

/// Whether a source on another daemon is up.
pub open spec fn is_remote_live(registry: ObservationRegistry, source: PairText) -> bool {
    has_source(registry.remote_live@, source)
}

/// What one event says about one source.
pub struct Verdict {
    pub source: PairText,
    pub live: bool,
}

/// Whether a source is up: the event knows best about its own source, the stack
/// about the sources of this daemon, and the last report about all others.
pub open spec fn is_live(
    registry: ObservationRegistry,
    core_node: Seq<char>,
    live: Seq<Seq<char>>,
    verdict: Verdict,
    source: PairText,
) -> bool {
    if source == verdict.source {
        verdict.live
    } else if source.0 == core_node {
        live.contains(source.1)
    } else {
        is_remote_live(registry, source)
    }
}

/// One member as its observer is told of it.
pub struct ObservedMemberState {
    pub source_generation: u64,
    pub source_live: bool,
    pub source: ObservedSource,
}

/// An `ObservedMemberState`, its texts as sequences.
pub struct MemberText {
    pub source_generation: u64,
    pub source_live: bool,
    pub source: PinText,
}

impl View for ObservedMemberState {
    type V = MemberText;

    open spec fn view(&self) -> MemberText {
        MemberText {
            source_generation: self.source_generation,
            source_live: self.source_live,
            source: self.source@,
        }
    }
}

/// The contents of a list of members.
pub open spec fn member_texts(list: Seq<ObservedMemberState>) -> Seq<MemberText> {
    list.map_values(|member: ObservedMemberState| member@)
}

/// The members of a slot among the first `n` records, in order.
pub open spec fn members_of(
    registry: ObservationRegistry,
    core_node: Seq<char>,
    live: Seq<Seq<char>>,
    verdict: Verdict,
    slot: PairText,
    n: int,
) -> Seq<MemberText>
    decreases n,
{
    if n <= 0 || n > registry.records@.len() {
        Seq::empty()
    } else {
        let before = members_of(registry, core_node, live, verdict, slot, n - 1);
        let record = registry.records@[n - 1]@;
        if record.slot == slot {
            before.push(
                MemberText {
                    source_generation: generation(registry, record.pin.0),
                    source_live: is_live(registry, core_node, live, verdict, record.pin.0),
                    source: record.pin,
                },
            )
        } else {
            before
        }
    }
}

/// What one slot is told.
pub struct Delivery {
    pub observer_instance_id: String,
    pub observer_link_id: String,
    pub members: Vec<ObservedMemberState>,
}

/// The slot of a delivery.
pub open spec fn delivery_slot(delivery: Delivery) -> PairText {
    (delivery.observer_instance_id@, delivery.observer_link_id@)
}

/// The slots of a list of deliveries.
pub open spec fn delivery_slots(list: Seq<Delivery>) -> Seq<PairText> {
    list.map_values(|delivery: Delivery| delivery_slot(delivery))
}

/// Whether a record brings its slot a delivery: it observes the source, or it is
/// one of the instance that came up; and its observer is up.
pub open spec fn reaches(
    record: RecordText,
    source: PairText,
    arriving: Option<Seq<char>>,
    live: Seq<Seq<char>>,
) -> bool {
    &&& record.pin.0 == source || arriving == Some(record.slot.0)
    &&& arriving == Some(record.slot.0) || live.contains(record.slot.0)
}

/// Whether one of the first `n` records brings a slot a delivery.
pub open spec fn is_reached(
    records: Seq<RecordText>,
    source: PairText,
    arriving: Option<Seq<char>>,
    live: Seq<Seq<char>>,
    slot: PairText,
    n: int,
) -> bool {
    exists|k: int|
        0 <= k < n && k < records.len() && (#[trigger] records[k]).slot == slot && reaches(
            records[k],
            source,
            arriving,
            live,
        )
}

/// Whether deliveries are those of an event: one for each slot that is reached,
/// each with the whole set of its slot.
pub open spec fn delivers(
    registry: ObservationRegistry,
    core_node: Seq<char>,
    live: Seq<Seq<char>>,
    verdict: Verdict,
    arriving: Option<Seq<char>>,
    r: Seq<Delivery>,
) -> bool {
    let records = record_texts(registry.records@);
    &&& ascending_pairs(delivery_slots(r))
    &&& forall|slot: PairText| #[trigger]
        delivery_slots(r).contains(slot) <==> is_reached(
            records,
            verdict.source,
            arriving,
            live,
            slot,
            records.len() as int,
        )
    &&& forall|k: int|
        0 <= k < r.len() ==> member_texts((#[trigger] r[k]).members@) == members_of(
            registry,
            core_node,
            live,
            verdict,
            delivery_slot(r[k]),
            registry.records@.len() as int,
        )
}

/// Whether a source is in a list.
fn source_listed(list: &Vec<SourceKey>, source: &SourceKey) -> (r: bool)
    ensures
        r == has_source(list@, source@),
{
    let mut i: usize = 0;
    while i < list.len()
        invariant
            i <= list@.len(),
            forall|k: int| 0 <= k < i ==> (#[trigger] list@[k])@ != source@,
        decreases list.len() - i,
    {
        if list[i].is_same(source) {
            return true;
        }
        i += 1;
    }
    false
}

/// Enters a source into a list.
fn enter_source(list: &mut Vec<SourceKey>, source: &SourceKey)
    ensures
        forall|other: PairText| #[trigger]
            has_source(final(list)@, other) == (has_source(old(list)@, other) || other == source@),
{
    let ghost before = list@;
    if !source_listed(list, source) {
        list.push(source.clone());
        proof {
            assert(list@[before.len() as int]@ == source@);
            assert forall|other: PairText| #[trigger] has_source(list@, other) == (has_source(
                before,
                other,
            ) || other == source@) by {
                if has_source(before, other) {
                    let k = choose|k: int| 0 <= k < before.len() && (#[trigger] before[k])@ == other;
                    assert(list@[k]@ == other);
                }
                if has_source(list@, other) {
                    let k = choose|k: int| 0 <= k < list@.len() && (#[trigger] list@[k])@ == other;
                    if k < before.len() {
                        assert(before[k]@ == other);
                    }
                }
            }
        }
    }
}

/// Strikes a source from a list.
fn strike_source(list: &mut Vec<SourceKey>, source: &SourceKey)
    ensures
        forall|other: PairText| #[trigger]
            has_source(final(list)@, other) == (has_source(old(list)@, other) && other != source@),
{
    let ghost before = list@;
    let mut kept: Vec<SourceKey> = Vec::new();
    let mut i: usize = 0;
    while i < list.len()
        invariant
            i <= list@.len(),
            list@ == before,
            forall|other: PairText| #[trigger]
                has_source(kept@, other) == (has_source(before.take(i as int), other) && other
                    != source@),
        decreases list.len() - i,
    {
        let ghost so_far = kept@;
        let same = list[i].is_same(source);
        if !same {
            kept.push(list[i].clone());
        }
        proof {
            let now = before.take(i + 1);
            assert forall|other: PairText| #[trigger] has_source(kept@, other) == (has_source(
                now,
                other,
            ) && other != source@) by {
                let was = before.take(i as int);
                if has_source(was, other) {
                    let k = choose|k: int| 0 <= k < was.len() && (#[trigger] was[k])@ == other;
                    assert(now[k]@ == other);
                }
                if has_source(now, other) && !has_source(was, other) {
                    let k = choose|k: int| 0 <= k < now.len() && (#[trigger] now[k])@ == other;
                    if k < i {
                        assert(was[k]@ == other);
                    }
                    assert(before[i as int]@ == other);
                    if !same {
                        assert(kept@[so_far.len() as int]@ == other);
                    }
                }
                if before[i as int]@ == other {
                    assert(now[i as int]@ == other);
                }
                if has_source(so_far, other) {
                    let k = choose|k: int| 0 <= k < so_far.len() && (#[trigger] so_far[k])@ == other;
                    assert(kept@[k]@ == other);
                }
                if has_source(kept@, other) && !has_source(so_far, other) {
                    let k = choose|k: int| 0 <= k < kept@.len() && (#[trigger] kept@[k])@ == other;
                    if k < so_far.len() {
                        assert(so_far[k]@ == other);
                    }
                    assert(before[i as int]@ == other);
                }
            }
        }
        i += 1;
    }
    proof {
        assert(before.take(before.len() as int) =~= before);
    }
    *list = kept;
}

/// The records of all observers but one, in order.
pub open spec fn without_observer(records: Seq<RecordText>, observer: Seq<char>) -> Seq<RecordText>
    decreases records.len(),
{
    if records.len() == 0 {
        Seq::empty()
    } else {
        let before = without_observer(records.drop_last(), observer);
        if records.last().slot.0 == observer {
            before
        } else {
            before.push(records.last())
        }
    }
}

/// The records that an instance's observations make: slot by slot, member by
/// member.
pub open spec fn planned_records(
    observer: Seq<char>,
    observations: Seq<(String, Vec<ObservedSource>)>,
) -> Seq<RecordText>
    decreases observations.len(),
{
    if observations.len() == 0 {
        Seq::empty()
    } else {
        let last = observations.last();
        planned_records(observer, observations.drop_last()) + last.1@.map_values(
            |pin: ObservedSource| RecordText { slot: (observer, last.0@), pin: pin@ },
        )
    }
}

/// Whether a source is observed at all.
pub open spec fn is_observed(records: Seq<RecordText>, source: PairText) -> bool {
    exists|k: int| 0 <= k < records.len() && (#[trigger] records[k]).pin.0 == source
}

impl Default for ObservationRegistry {
    fn default() -> (r: Self)
        ensures
            r.records@.len() == 0,
            r.generations@.len() == 0,
            r.remote_live@.len() == 0,
    {
        ObservationRegistry {
            records: Vec::new(),
            generations: Vec::new(),
            remote_live: Vec::new(),
        }
    }
}

impl ObservationRegistry {
    /// Forgets everything: the whole stack goes at once.
    pub fn clear(&mut self)
        ensures
            final(self).records@.len() == 0,
            final(self).generations@.len() == 0,
            final(self).remote_live@.len() == 0,
    {
        *self = ObservationRegistry::default();
    }

    /// Takes over the observations of a launch, in place of everything before.
    pub fn register_planned(&mut self, planned: Vec<ObserverRecord>)
        ensures
            final(self).records == planned,
            final(self).generations@.len() == 0,
            final(self).remote_live@.len() == 0,
    {
        self.clear();
        self.records = planned;
    }

    /// Takes the records of one observer out.
    pub(crate) fn drop_observer(&mut self, observer: &str)
        ensures
            record_texts(final(self).records@) == without_observer(
                record_texts(old(self).records@),
                observer@,
            ),
            final(self).generations == old(self).generations,
            final(self).remote_live == old(self).remote_live,
    {
        let mut kept: Vec<ObserverRecord> = Vec::new();
        let mut i: usize = 0;
        let ghost all = record_texts(self.records@);
        proof {
            assert(record_texts(kept@) =~= without_observer(all.take(0), observer@));
        }
        while i < self.records.len()
            invariant
                i <= self.records@.len(),
                all == record_texts(self.records@),
                record_texts(kept@) == without_observer(all.take(i as int), observer@),
            decreases self.records.len() - i,
        {
            let record = &self.records[i];
            let ghost before = record_texts(kept@);
            proof {
                assert(all[i as int] == record@);
                assert(all.take(i + 1).drop_last() =~= all.take(i as int));
                assert(all.take(i + 1).last() == record@);
            }
            if !str_eq(record.observer_instance_id.as_str(), observer) {
                kept.push(
                    ObserverRecord {
                        observer_instance_id: record.observer_instance_id.clone(),
                        observer_link_id: record.observer_link_id.clone(),
                        pin: record.pin.clone(),
                    },
                );
                proof {
                    assert(record_texts(kept@) =~= before.push(record@));
                }
            }
            i += 1;
        }
        proof {
            assert(all.take(all.len() as int) =~= all);
        }
        self.records = kept;
    }

    /// Takes over the observations of one instance that is run on its own, in
    /// place of those that it had before.
    pub fn register_instance(
        &mut self,
        observer_instance_id: &str,
        observations: &Vec<(String, Vec<ObservedSource>)>,
    )
        ensures
            record_texts(final(self).records@) == without_observer(
                record_texts(old(self).records@),
                observer_instance_id@,
            ) + planned_records(observer_instance_id@, observations@),
            final(self).generations == old(self).generations,
            final(self).remote_live == old(self).remote_live,
    {
        let ghost was = *self;
        self.drop_observer(observer_instance_id);
        let ghost kept = record_texts(self.records@);
        let ghost observer = observer_instance_id@;
        let mut i: usize = 0;
        proof {
            assert(observations@.take(0).len() == 0);
            assert(record_texts(self.records@) =~= kept + planned_records(
                observer,
                observations@.take(0),
            ));
        }
        while i < observations.len()
            invariant
                i <= observations@.len(),
                observer == observer_instance_id@,
                record_texts(self.records@) == kept + planned_records(
                    observer,
                    observations@.take(i as int),
                ),
                self.generations == was.generations,
                self.remote_live == was.remote_live,
            decreases observations.len() - i,
        {
            let entry = &observations[i];
            let ghost before = record_texts(self.records@);
            let ghost made = entry.1@.map_values(
                |pin: ObservedSource| RecordText { slot: (observer, entry.0@), pin: pin@ },
            );
            let mut j: usize = 0;
            proof {
                assert(before + made.take(0) =~= before);
            }
            while j < entry.1.len()
                invariant
                    j <= entry.1@.len(),
                    observer == observer_instance_id@,
                    made == entry.1@.map_values(
                        |pin: ObservedSource| RecordText { slot: (observer, entry.0@), pin: pin@ },
                    ),
                    record_texts(self.records@) == before + made.take(j as int),
                    self.generations == was.generations,
                    self.remote_live == was.remote_live,
                decreases entry.1.len() - j,
            {
                let ghost so_far = record_texts(self.records@);
                self.records.push(
                    ObserverRecord {
                        observer_instance_id: observer_instance_id.to_owned(),
                        observer_link_id: entry.0.clone(),
                        pin: entry.1[j].clone(),
                    },
                );
                proof {
                    assert(record_texts(self.records@) =~= so_far.push(made[j as int]));
                    assert(made.take(j + 1) =~= made.take(j as int).push(made[j as int]));
                    assert(so_far.push(made[j as int]) =~= before + made.take(j + 1));
                }
                j += 1;
            }
            proof {
                assert(made.take(entry.1@.len() as int) =~= made);
                assert(observations@.take(i + 1).drop_last() =~= observations@.take(i as int));
                assert(observations@.take(i + 1).last() == *entry);
                assert(before + made =~= kept + planned_records(
                    observer,
                    observations@.take(i + 1),
                ));
            }
            i += 1;
        }
        proof {
            assert(observations@.take(observations@.len() as int) =~= observations@);
        }
    }

    /// Whether a source is up.
    fn source_is_live(
        &self,
        core_node: &str,
        live: &Vec<String>,
        verdict_source: &SourceKey,
        verdict_live: bool,
        source: &SourceKey,
    ) -> (r: bool)
        ensures
            r == is_live(
                *self,
                core_node@,
                texts(live@),
                (Verdict { source: verdict_source@, live: verdict_live }),
                source@,
            ),
    {
        if source.is_same(verdict_source) {
            return verdict_live;
        }
        if str_eq(source.core_node.as_str(), core_node) {
            return has_text(live, source.instance_id.as_str());
        }
        source_listed(&self.remote_live, source)
    }

    /// How often a source has come up.
    fn generation_of(&self, source: &SourceKey) -> (r: u64)
        ensures
            r == generation(*self, source@),
    {
        match counter_place(&self.generations, source) {
            Some(at) => self.generations[at].1,
            None => 0,
        }
    }

    /// The members of a slot, in order.
    fn members(
        &self,
        core_node: &str,
        live: &Vec<String>,
        verdict_source: &SourceKey,
        verdict_live: bool,
        observer: &str,
        link: &str,
    ) -> (r: Vec<ObservedMemberState>)
        ensures
            member_texts(r@) == members_of(
                *self,
                core_node@,
                texts(live@),
                (Verdict { source: verdict_source@, live: verdict_live }),
                (observer@, link@),
                self.records@.len() as int,
            ),
    {
        let ghost verdict = Verdict { source: verdict_source@, live: verdict_live };
        let ghost slot: PairText = (observer@, link@);
        let mut out: Vec<ObservedMemberState> = Vec::new();
        let mut i: usize = 0;
        proof {
            assert(member_texts(out@) =~= Seq::<MemberText>::empty());
        }
        while i < self.records.len()
            invariant
                i <= self.records@.len(),
                verdict == (Verdict { source: verdict_source@, live: verdict_live }),
                slot == (observer@, link@),
                member_texts(out@) == members_of(
                    *self,
                    core_node@,
                    texts(live@),
                    verdict,
                    slot,
                    i as int,
                ),
            decreases self.records.len() - i,
        {
            let record = &self.records[i];
            let ghost before = member_texts(out@);
            if str_eq(record.observer_instance_id.as_str(), observer) && str_eq(
                record.observer_link_id.as_str(),
                link,
            ) {
                out.push(
                    ObservedMemberState {
                        source_generation: self.generation_of(&record.pin.producer),
                        source_live: self.source_is_live(
                            core_node,
                            live,
                            verdict_source,
                            verdict_live,
                            &record.pin.producer,
                        ),
                        source: record.pin.clone(),
                    },
                );
                proof {
                    assert(record@.slot == slot);
                    assert(member_texts(out@) =~= before.push(out@.last()@));
                }
            } else {
                proof {
                    assert(record@.slot != slot);
                }
            }
            i += 1;
        }
        out
    }

    /// The slots that an event reaches, each once, in order.
    fn slots(&self, source: &SourceKey, arriving: Option<&str>, live: &Vec<String>) -> (r: Vec<
        (String, String),
    >)
        ensures
            ascending_pairs(pair_texts(r@)),
            forall|slot: PairText| #[trigger]
                pair_texts(r@).contains(slot) <==> is_reached(
                    record_texts(self.records@),
                    source@,
                    opt_str(arriving),
                    texts(live@),
                    slot,
                    self.records@.len() as int,
                ),
    {
        let ghost records = record_texts(self.records@);
        let ghost who = opt_str(arriving);
        let ghost up = texts(live@);
        let mut out: Vec<(String, String)> = Vec::new();
        let mut i: usize = 0;
        while i < self.records.len()
            invariant
                i <= self.records@.len(),
                records == record_texts(self.records@),
                who == opt_str(arriving),
                up == texts(live@),
                ascending_pairs(pair_texts(out@)),
                forall|slot: PairText| #[trigger]
                    pair_texts(out@).contains(slot) <==> is_reached(
                        records,
                        source@,
                        who,
                        up,
                        slot,
                        i as int,
                    ),
            decreases self.records.len() - i,
        {
            let record = &self.records[i];
            let arrives: bool = match arriving {
                Some(id) => str_eq(record.observer_instance_id.as_str(), id),
                None => false,
            };
            let hit: bool = (record.pin.producer.is_same(source) || arrives) && (arrives || has_text(
                live,
                record.observer_instance_id.as_str(),
            ));
            let ghost before = pair_texts(out@);
            let ghost at = record@.slot;
            proof {
                assert(records[i as int] == record@);
                assert(hit == reaches(record@, source@, who, up));
            }
            if hit {
                insert_pair(
                    &mut out,
                    (record.observer_instance_id.clone(), record.observer_link_id.clone()),
                );
            }
            proof {
                let after = pair_texts(out@);
                assert forall|slot: PairText| #[trigger] after.contains(slot) <==> is_reached(
                    records,
                    source@,
                    who,
                    up,
                    slot,
                    i + 1,
                ) by {
                    assert(after.contains(slot) == after.to_set().contains(slot));
                    assert(before.contains(slot) == before.to_set().contains(slot));
                    assert(before.contains(slot) <==> is_reached(
                        records,
                        source@,
                        who,
                        up,
                        slot,
                        i as int,
                    ));
                    if is_reached(records, source@, who, up, slot, i as int) {
                        let k = choose|k: int|
                            0 <= k < i && k < records.len() && (#[trigger] records[k]).slot == slot
                                && reaches(records[k], source@, who, up);
                        assert(records[k].slot == slot);
                    }
                    if hit && slot == at {
                        assert(records[i as int].slot == slot);
                    }
                    if is_reached(records, source@, who, up, slot, i + 1) {
                        let k = choose|k: int|
                            0 <= k < i + 1 && k < records.len() && (#[trigger] records[k]).slot
                                == slot && reaches(records[k], source@, who, up);
                        if k < i {
                            assert(records[k].slot == slot);
                        }
                    }
                }
            }
            i += 1;
        }
        out
    }

    /// The deliveries of an event.
    fn assemble_deliveries(
        &self,
        source: &SourceKey,
        source_live: bool,
        arriving: Option<&str>,
        core_node: &str,
        live: &Vec<String>,
    ) -> (r: Vec<Delivery>)
        ensures
            delivers(
                *self,
                core_node@,
                texts(live@),
                (Verdict { source: source@, live: source_live }),
                opt_str(arriving),
                r@,
            ),
    {
        let ghost verdict = Verdict { source: source@, live: source_live };
        let slots = self.slots(source, arriving, live);
        let mut out: Vec<Delivery> = Vec::new();
        let mut i: usize = 0;
        while i < slots.len()
            invariant
                i <= slots@.len(),
                verdict == (Verdict { source: source@, live: source_live }),
                out@.len() == i,
                forall|k: int|
                    0 <= k < i ==> delivery_slot(#[trigger] out@[k]) == pair_texts(slots@)[k]
                        && member_texts(out@[k].members@) == members_of(
                        *self,
                        core_node@,
                        texts(live@),
                        verdict,
                        delivery_slot(out@[k]),
                        self.records@.len() as int,
                    ),
            decreases slots.len() - i,
        {
            let members = self.members(
                core_node,
                live,
                source,
                source_live,
                slots[i].0.as_str(),
                slots[i].1.as_str(),
            );
            out.push(
                Delivery {
                    observer_instance_id: slots[i].0.clone(),
                    observer_link_id: slots[i].1.clone(),
                    members,
                },
            );
            proof {
                assert(pair_texts(slots@)[i as int] == (
                    slots@[i as int].0@,
                    slots@[i as int].1@,
                ));
            }
            i += 1;
        }
        proof {
            assert(delivery_slots(out@) =~= pair_texts(slots@));
        }
        out
    }

    /// A source came up: its generation goes up, and every slot that observes it
    /// is told its whole set. `arriving` is the source's own instance where it
    /// is one of this daemon: its slots are told too, though the stack may not
    /// count it as up yet. `live` are the instances of this daemon that are up.
    pub fn source_reached_running(
        &mut self,
        source: &SourceKey,
        arriving: Option<&str>,
        core_node: &str,
        live: &Vec<String>,
    ) -> (r: Vec<Delivery>)
        requires
            generation(*old(self), source@) < u64::MAX,
        ensures
            final(self).records == old(self).records,
            forall|other: PairText| #[trigger]
                generation(*final(self), other) == (if other == source@ {
                    (generation(*old(self), other) + 1) as u64
                } else {
                    generation(*old(self), other)
                }),
            forall|other: PairText| #[trigger]
                is_remote_live(*final(self), other) == (is_remote_live(*old(self), other) || (other
                    == source@ && source@.0 != core_node@)),
            delivers(
                *final(self),
                core_node@,
                texts(live@),
                (Verdict { source: source@, live: true }),
                opt_str(arriving),
                r@,
            ),
    {
        let next: u64 = self.generation_of(source) + 1;
        set_counter(&mut self.generations, source, next);
        if !str_eq(source.core_node.as_str(), core_node) {
            enter_source(&mut self.remote_live, source);
        }
        self.assemble_deliveries(source, true, arriving, core_node, live)
    }

    /// A source went down: every slot that observes it is told its whole set,
    /// with the source in its place and marked as down. Its generation stays as
    /// long as somebody observes it.
    pub fn mark_source_down(&mut self, source: &SourceKey, core_node: &str, live: &Vec<String>) -> (r:
        Vec<Delivery>)
        ensures
            final(self).records == old(self).records,
            forall|other: PairText| #[trigger]
                generation(*final(self), other) == (if other == source@ && !is_observed(
                    record_texts(old(self).records@),
                    other,
                ) {
                    0
                } else {
                    generation(*old(self), other)
                }),
            forall|other: PairText| #[trigger]
                is_remote_live(*final(self), other) == (is_remote_live(*old(self), other) && other
                    != source@),
            delivers(
                *old(self),
                core_node@,
                texts(live@),
                (Verdict { source: source@, live: false }),
                None,
                r@,
            ),
    {
        let deliveries = self.assemble_deliveries(source, false, None, core_node, live);
        strike_source(&mut self.remote_live, source);
        if !self.observes(source) {
            drop_counter(&mut self.generations, source);
        }
        deliveries
    }

    /// Whether a source is observed at all.
    fn observes(&self, source: &SourceKey) -> (r: bool)
        ensures
            r == is_observed(record_texts(self.records@), source@),
    {
        let ghost records = record_texts(self.records@);
        let mut i: usize = 0;
        while i < self.records.len()
            invariant
                i <= self.records@.len(),
                records == record_texts(self.records@),
                forall|k: int| 0 <= k < i ==> (#[trigger] records[k]).pin.0 != source@,
            decreases self.records.len() - i,
        {
            proof {
                assert(records[i as int] == self.records@[i as int]@);
            }
            if self.records[i].pin.producer.is_same(source) {
                return true;
            }
            i += 1;
        }
        false
    }
}

/// What is logged about a delivery that failed.
pub fn delivery_warning(delivery: &Delivery, why: &str) -> (r: String)
    ensures
        r@ == "Best-effort observation delivery to '"@ + delivery.observer_instance_id@
            + "' slot `"@ + delivery.observer_link_id@ + "` ("@ + decimal(delivery.members@.len())
            + " member(s)) failed: "@ + why@,
{
    let mut text: String = "Best-effort observation delivery to '".to_owned();
    text.append(delivery.observer_instance_id.as_str());
    text.append("' slot `");
    text.append(delivery.observer_link_id.as_str());
    text.append("` (");
    text.append(to_decimal(delivery.members.len() as u64).as_str());
    text.append(" member(s)) failed: ");
    text.append(why);
    text
}

/// Taking an observer's records out leaves those of all others.
proof fn lemma_without_observer(records: Seq<RecordText>, observer: Seq<char>, record: RecordText)
    ensures
        without_observer(records, observer).contains(record) <==> records.contains(record)
            && record.slot.0 != observer,
    decreases records.len(),
{
    if records.len() > 0 {
        let rest = records.drop_last();
        let kept = without_observer(rest, observer);
        let all = without_observer(records, observer);
        lemma_without_observer(rest, observer, record);
        if rest.contains(record) {
            let k = choose|k: int| 0 <= k < rest.len() && rest[k] == record;
            assert(records[k] == record);
        }
        if kept.contains(record) {
            let k = choose|k: int| 0 <= k < kept.len() && kept[k] == record;
            assert(all[k] == record);
        }
        if records.contains(record) && !rest.contains(record) {
            let k = choose|k: int| 0 <= k < records.len() && records[k] == record;
            if k < rest.len() {
                assert(rest[k] == record);
            }
            assert(records.last() == record);
            if record.slot.0 != observer {
                assert(all[kept.len() as int] == record);
            }
        }
        if all.contains(record) && !kept.contains(record) {
            let k = choose|k: int| 0 <= k < all.len() && all[k] == record;
            if k < kept.len() {
                assert(kept[k] == record);
            }
            assert(records[records.len() - 1] == record);
        }
    }
}

/// A source that goes down is told to exactly the slots of others that were told
/// that it came up: nobody is left with a state that has passed. An instance of
/// this daemon takes its own slots along.
pub proof fn ups_and_downs_reach_the_same_slots(
    up: ObservationRegistry,
    down: ObservationRegistry,
    core_node: Seq<char>,
    live: Seq<Seq<char>>,
    source: PairText,
    own: Option<Seq<char>>,
    told_up: Seq<Delivery>,
    told_down: Seq<Delivery>,
    slot: PairText,
)
    requires
        record_texts(down.records@) == match own {
            Some(instance) => without_observer(record_texts(up.records@), instance),
            None => record_texts(up.records@),
        },
        delivers(up, core_node, live, (Verdict { source, live: true }), own, told_up),
        delivers(down, core_node, live, (Verdict { source, live: false }), None, told_down),
    ensures
        delivery_slots(told_down).contains(slot) <==> delivery_slots(told_up).contains(slot) && own
            != Some(slot.0),
{
    let before = record_texts(up.records@);
    let after = record_texts(down.records@);
    let n = before.len() as int;
    let m = after.len() as int;
    if is_reached(before, source, own, live, slot, n) && own != Some(slot.0) {
        let k = choose|k: int|
            0 <= k < n && k < before.len() && (#[trigger] before[k]).slot == slot && reaches(
                before[k],
                source,
                own,
                live,
            );
        let record = before[k];
        assert(before.contains(record));
        if own is Some {
            lemma_without_observer(before, own->0, record);
        }
        let j = choose|j: int| 0 <= j < after.len() && after[j] == record;
        assert(after[j].slot == slot);
        assert(is_reached(after, source, None, live, slot, m));
    }
    if is_reached(after, source, None, live, slot, m) {
        let k = choose|k: int|
            0 <= k < m && k < after.len() && (#[trigger] after[k]).slot == slot && reaches(
                after[k],
                source,
                None,
                live,
            );
        let record = after[k];
        assert(after.contains(record));
        if own is Some {
            lemma_without_observer(before, own->0, record);
        }
        let j = choose|j: int| 0 <= j < before.len() && before[j] == record;
        assert(before[j].slot == slot);
        assert(is_reached(before, source, own, live, slot, n));
    }
    assert(delivery_slots(told_up).contains(slot) <==> is_reached(
        before,
        source,
        own,
        live,
        slot,
        n,
    ));
}

/// What a slot is told of the event's own source is what the event says of it,
/// with the source's generation.
pub proof fn a_member_is_told_the_verdict(
    registry: ObservationRegistry,
    core_node: Seq<char>,
    live: Seq<Seq<char>>,
    verdict: Verdict,
    slot: PairText,
    n: int,
    k: int,
)
    requires
        0 <= n <= registry.records@.len(),
        0 <= k < members_of(registry, core_node, live, verdict, slot, n).len(),
        members_of(registry, core_node, live, verdict, slot, n)[k].source.0 == verdict.source,
    ensures
        members_of(registry, core_node, live, verdict, slot, n)[k].source_live == verdict.live,
        members_of(registry, core_node, live, verdict, slot, n)[k].source_generation == generation(
            registry,
            verdict.source,
        ),
    decreases n,
{
    if n > 0 {
        let before = members_of(registry, core_node, live, verdict, slot, n - 1);
        if k < before.len() {
            a_member_is_told_the_verdict(
                registry,
                core_node,
                live,
                verdict,
                slot,
                n - 1,
                k,
            );
        }
    }
}

/// Every slot that observes the event's source and whose observer is up is told, and so
/// is every slot of the instance that came up; nobody else is.
pub proof fn every_observer_that_is_up_is_told(
    registry: ObservationRegistry,
    core_node: Seq<char>,
    live: Seq<Seq<char>>,
    verdict: Verdict,
    arriving: Option<Seq<char>>,
    r: Seq<Delivery>,
    k: int,
)
    requires
        delivers(registry, core_node, live, verdict, arriving, r),
        0 <= k < registry.records@.len(),
    ensures
        ({
            let record = registry.records@[k];
            let slot = (record.observer_instance_id@, record.observer_link_id@);
            &&& record.pin.producer@ == verdict.source && live.contains(
                record.observer_instance_id@,
            ) ==> delivery_slots(r).contains(slot)
            &&& arriving == Some(record.observer_instance_id@) ==> delivery_slots(r).contains(slot)
        }),
        forall|d: int|
            0 <= d < r.len() ==> exists|i: int|
                0 <= i < registry.records@.len() && is_told_by(
                    #[trigger] registry.records@[i],
                    verdict.source,
                    arriving,
                    live,
                    delivery_slot(#[trigger] r[d]),
                ),
{
    let records = record_texts(registry.records@);
    let n = records.len() as int;
    let record = registry.records@[k];
    let slot = (record.observer_instance_id@, record.observer_link_id@);
    assert(records[k] == record@);
    assert(records[k].slot == slot);
    assert(delivery_slots(r).contains(slot) <==> is_reached(
        records,
        verdict.source,
        arriving,
        live,
        slot,
        n,
    ));
    assert forall|d: int| 0 <= d < r.len() implies exists|i: int|
        0 <= i < registry.records@.len() && is_told_by(
            #[trigger] registry.records@[i],
            verdict.source,
            arriving,
            live,
            delivery_slot(#[trigger] r[d]),
        ) by {
        let at = delivery_slot(r[d]);
        assert(delivery_slots(r)[d] == at);
        assert(delivery_slots(r).contains(at));
        assert(is_reached(records, verdict.source, arriving, live, at, n));
        let i = choose|i: int|
            0 <= i < n && i < records.len() && (#[trigger] records[i]).slot == at && reaches(
                records[i],
                verdict.source,
                arriving,
                live,
            );
        assert(records[i] == registry.records@[i]@);
        assert(is_told_by(registry.records@[i], verdict.source, arriving, live, at));
    }
}

/// Whether a record is a reason to tell its slot: it observes the source and its observer
/// is up, or its observer is the instance that came up.
pub open spec fn is_told_by(
    record: ObserverRecord,
    source: PairText,
    arriving: Option<Seq<char>>,
    live: Seq<Seq<char>>,
    slot: PairText,
) -> bool {
    &&& slot == (record.observer_instance_id@, record.observer_link_id@)
    &&& (record.pin.producer@ == source && live.contains(record.observer_instance_id@)) || arriving
        == Some(record.observer_instance_id@)
}

/// Whether the record at a place is of a slot.
pub open spec fn is_of_slot(records: Seq<ObserverRecord>, slot: PairText) -> spec_fn(int) -> bool {
    |k: int|
        0 <= k < records.len() && records[k].observer_instance_id@ == slot.0
            && records[k].observer_link_id@ == slot.1
}

/// What a slot is told of the source that the record at a place observes: up where the
/// event says so of its own source, where the stack has it up as an instance of this
/// daemon, or where it was last reported up by another.
pub open spec fn told_of(
    registry: ObservationRegistry,
    core_node: Seq<char>,
    live: Seq<Seq<char>>,
    verdict: Verdict,
) -> spec_fn(int) -> MemberText {
    |k: int|
        {
            let source = registry.records@[k].pin.producer@;
            MemberText {
                source_generation: counted(registry.generations@, source),
                source_live: (source == verdict.source && verdict.live) || (source
                    != verdict.source && source.0 == core_node && live.contains(source.1)) || (source
                    != verdict.source && source.0 != core_node && has_source(
                    registry.remote_live@,
                    source,
                )),
                source: registry.records@[k].pin@,
            }
        }
}

/// The members of a slot are what is told of its records, in order.
proof fn lemma_members(
    registry: ObservationRegistry,
    core_node: Seq<char>,
    live: Seq<Seq<char>>,
    verdict: Verdict,
    slot: PairText,
    n: int,
)
    requires
        0 <= n <= registry.records@.len(),
    ensures
        picked(
            n,
            is_of_slot(registry.records@, slot),
            told_of(registry, core_node, live, verdict),
            members_of(registry, core_node, live, verdict, slot, n),
        ),
    decreases n,
{
    let wanted = is_of_slot(registry.records@, slot);
    let told = told_of(registry, core_node, live, verdict);
    if n == 0 {
        lemma_picked_none(wanted, told);
    } else {
        lemma_members(registry, core_node, live, verdict, slot, n - 1);
        lemma_picked_next(
            n - 1,
            wanted,
            told,
            members_of(registry, core_node, live, verdict, slot, n - 1),
        );
        let record = registry.records@[n - 1];
        assert(record@.slot == (record.observer_instance_id@, record.observer_link_id@));
    }
}

/// A slot is told its whole set: every source that it observes, in the order of the
/// plan, each with its generation and whether it is up.
pub proof fn a_slot_is_told_its_whole_set(
    registry: ObservationRegistry,
    core_node: Seq<char>,
    live: Seq<Seq<char>>,
    verdict: Verdict,
    arriving: Option<Seq<char>>,
    r: Seq<Delivery>,
    d: int,
)
    requires
        delivers(registry, core_node, live, verdict, arriving, r),
        0 <= d < r.len(),
    ensures
        picked(
            registry.records@.len() as int,
            is_of_slot(
                registry.records@,
                (r[d].observer_instance_id@, r[d].observer_link_id@),
            ),
            told_of(registry, core_node, live, verdict),
            member_texts(r[d].members@),
        ),
{
    lemma_members(
        registry,
        core_node,
        live,
        verdict,
        delivery_slot(r[d]),
        registry.records@.len() as int,
    );
}

/// A source that comes up counts one run more, is told as up, and is kept as up where it
/// is another daemon's; no record changes.
pub proof fn a_source_that_comes_up_counts_one_more(
    registry: &mut ObservationRegistry,
    source: SourceKey,
    arriving: Option<&str>,
    core_node: &str,
    live: Vec<String>,
    r: Vec<Delivery>,
    other: PairText,
)
    requires
        generation(*old(registry), source@) < u64::MAX,
        call_ensures(
            ObservationRegistry::source_reached_running,
            (registry, &source, arriving, core_node, &live),
            r,
        ),
    ensures
        final(registry).records == old(registry).records,
        generation(*final(registry), source@) == generation(*old(registry), source@) + 1,
        other != source@ ==> generation(*final(registry), other) == generation(
            *old(registry),
            other,
        ) && is_remote_live(*final(registry), other) == is_remote_live(*old(registry), other),
        source@.0 != core_node@ ==> is_remote_live(*final(registry), source@),
        delivers(
            *final(registry),
            core_node@,
            texts(live@),
            (Verdict { source: source@, live: true }),
            opt_str(arriving),
            r@,
        ),
{
    let now = generation(*final(registry), source@);
    let same = generation(*final(registry), other);
    let up = is_remote_live(*final(registry), source@);
    let kept = is_remote_live(*final(registry), other);
}

/// A source that goes down is told as down and counts as down; its runs are remembered
/// as long as somebody observes it, and no record changes.
pub proof fn a_source_that_goes_down_is_told_as_down(
    registry: &mut ObservationRegistry,
    source: SourceKey,
    core_node: &str,
    live: Vec<String>,
    r: Vec<Delivery>,
    other: PairText,
)
    requires
        call_ensures(
            ObservationRegistry::mark_source_down,
            (registry, &source, core_node, &live),
            r,
        ),
    ensures
        final(registry).records == old(registry).records,
        !is_remote_live(*final(registry), source@),
        other != source@ ==> generation(*final(registry), other) == generation(
            *old(registry),
            other,
        ) && is_remote_live(*final(registry), other) == is_remote_live(*old(registry), other),
        (exists|k: int|
            0 <= k < old(registry).records@.len() && (#[trigger] old(
                registry,
            ).records@[k]).pin.producer@ == source@) ==> generation(*final(registry), source@)
            == generation(*old(registry), source@),
        delivers(
            *old(registry),
            core_node@,
            texts(live@),
            (Verdict { source: source@, live: false }),
            None,
            r@,
        ),
{
    let now = generation(*final(registry), source@);
    let same = generation(*final(registry), other);
    let up = is_remote_live(*final(registry), source@);
    let kept = is_remote_live(*final(registry), other);
    if exists|k: int|
        0 <= k < old(registry).records@.len() && (#[trigger] old(
            registry,
        ).records@[k]).pin.producer@ == source@ {
        let k = choose|k: int|
            0 <= k < old(registry).records@.len() && (#[trigger] old(
                registry,
            ).records@[k]).pin.producer@ == source@;
        assert(record_texts(old(registry).records@)[k].pin.0 == source@);
    }
}

/// The records that observations make hold every source of every slot.
proof fn lemma_planned_records(
    observer: Seq<char>,
    observations: Seq<(String, Vec<ObservedSource>)>,
    record: RecordText,
)
    ensures
        planned_records(observer, observations).contains(record) <==> exists|i: int, j: int|
            0 <= i < observations.len() && 0 <= j < observations[i].1@.len() && record == (RecordText {
                slot: (observer, observations[i].0@),
                pin: (#[trigger] observations[i].1@[j])@,
            }),
    decreases observations.len(),
{
    let all = planned_records(observer, observations);
    if observations.len() > 0 {
        let less = observations.drop_last();
        let last = observations.last();
        let before = planned_records(observer, less);
        lemma_planned_records(observer, less, record);
        let more = last.1@.map_values(
            |pin: ObservedSource| RecordText { slot: (observer, last.0@), pin: pin@ },
        );
        assert(all == before + more);
        if all.contains(record) {
            let k = choose|k: int| 0 <= k < all.len() && all[k] == record;
            if k < before.len() {
                assert(before[k] == record);
                assert(before.contains(record));
                let (i, j) = choose|i: int, j: int|
                    0 <= i < less.len() && 0 <= j < less[i].1@.len() && record == (RecordText {
                        slot: (observer, less[i].0@),
                        pin: (#[trigger] less[i].1@[j])@,
                    });
                assert(observations[i] == less[i]);
                let pin = observations[i].1@[j];
            } else {
                let pin = observations[observations.len() - 1].1@[k - before.len()];
                assert(more[k - before.len()] == record);
            }
        }
        if exists|i: int, j: int|
            0 <= i < observations.len() && 0 <= j < observations[i].1@.len() && record == (RecordText {
                slot: (observer, observations[i].0@),
                pin: (#[trigger] observations[i].1@[j])@,
            }) {
            let (i, j) = choose|i: int, j: int|
                0 <= i < observations.len() && 0 <= j < observations[i].1@.len() && record == (
                RecordText {
                    slot: (observer, observations[i].0@),
                    pin: (#[trigger] observations[i].1@[j])@,
                });
            if i < less.len() {
                assert(less[i] == observations[i]);
                let pin = less[i].1@[j];
                assert(before.contains(record));
                let k = choose|k: int| 0 <= k < before.len() && before[k] == record;
                assert(all[k] == record);
            } else {
                assert(more[j] == record);
                assert(all[before.len() + j] == record);
            }
        }
    }
}

/// An instance that is run anew observes what its observations say, and nothing that it
/// observed before; the records of all others stay.
pub proof fn an_instance_observes_what_it_is_run_with(
    registry: &mut ObservationRegistry,
    observer: &str,
    observations: Vec<(String, Vec<ObservedSource>)>,
    record: RecordText,
)
    requires
        call_ensures(
            ObservationRegistry::register_instance,
            (registry, observer, &observations),
            (),
        ),
    ensures
        record.slot.0 != observer@ ==> (record_texts(final(registry).records@).contains(record)
            <==> record_texts(old(registry).records@).contains(record)),
        record.slot.0 == observer@ ==> (record_texts(final(registry).records@).contains(record)
            <==> exists|i: int, j: int|
            0 <= i < observations@.len() && 0 <= j < observations@[i].1@.len() && record.slot.1
                == observations@[i].0@ && record.pin == (#[trigger] observations@[i].1@[j])@),
{
    let kept = without_observer(record_texts(old(registry).records@), observer@);
    let made = planned_records(observer@, observations@);
    let all = record_texts(final(registry).records@);
    lemma_without_observer(record_texts(old(registry).records@), observer@, record);
    lemma_planned_records(observer@, observations@, record);
    if kept.contains(record) {
        let k = choose|k: int| 0 <= k < kept.len() && kept[k] == record;
        assert(all[k] == record);
    }
    if made.contains(record) {
        let k = choose|k: int| 0 <= k < made.len() && made[k] == record;
        assert(all[kept.len() + k] == record);
    }
    if all.contains(record) {
        let k = choose|k: int| 0 <= k < all.len() && all[k] == record;
        if k < kept.len() {
            assert(kept[k] == record);
        } else {
            assert(made[k - kept.len()] == record);
        }
    }
    if exists|i: int, j: int|
        0 <= i < observations@.len() && 0 <= j < observations@[i].1@.len() && record.slot.1
            == observations@[i].0@ && record.pin == (#[trigger] observations@[i].1@[j])@ {
        let (i, j) = choose|i: int, j: int|
            0 <= i < observations@.len() && 0 <= j < observations@[i].1@.len() && record.slot.1
                == observations@[i].0@ && record.pin == (#[trigger] observations@[i].1@[j])@;
        if record.slot.0 == observer@ {
            let pin = observations@[i].1@[j];
            assert(record.slot == (observer@, observations@[i].0@));
        }
    }
}

} // verus!
