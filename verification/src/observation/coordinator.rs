//! The daemon's authority for observations: it follows the lifecycle of sources
//! and says which slots are told what.
use super::{
    delivers, generation, is_observed, is_remote_live, planned_records, record_texts,
    without_observer, Delivery, ObservationRegistry, ObservedMemberState, ObservedSource,
    ObserverRecord, Verdict,
};
use crate::common::SlotSequence;
use crate::incarnation::SourceKey;
use crate::order::PairText;
use crate::text::texts;
use vstd::prelude::*;
use vstd::string::*;

verus! {

/// What an update is called where an instance turns it down without a reason.
pub fn rejection_text() -> (r: String)
    ensures
        r@ == "observation_update rejected"@,
{
    "observation_update rejected".to_owned()
}

/// What an observer is told about one of its slots: the whole set of it.
pub struct ObservationUpdateRequest {
    pub link_id: String,
    pub sequence: u64,
    pub members: Vec<ObservedMemberState>,
}

/// The daemon's authority for observations.
pub struct ObservationCoordinator {
    pub core_node_name: String,
    pub updates: SlotSequence,
    pub registry: ObservationRegistry,
}

/// What a registry is once a source has come up.
pub open spec fn after_up(
    before: ObservationRegistry,
    after: ObservationRegistry,
    core_node: Seq<char>,
    source: PairText,
) -> bool {
    &&& after.records == before.records
    &&& forall|other: PairText| #[trigger]
        generation(after, other) == (if other == source {
            (generation(before, other) + 1) as u64
        } else {
            generation(before, other)
        })
    &&& forall|other: PairText| #[trigger]
        is_remote_live(after, other) == (is_remote_live(before, other) || (other == source
            && source.0 != core_node))
}

/// What a registry is once a source has gone down: its generation stays as long
/// as somebody observes it.
pub open spec fn after_down(
    before: ObservationRegistry,
    after: ObservationRegistry,
    source: PairText,
) -> bool {
    &&& after.records == before.records
    &&& forall|other: PairText| #[trigger]
        generation(after, other) == (if other == source && !is_observed(
            record_texts(before.records@),
            other,
        ) {
            0
        } else {
            generation(before, other)
        })
    &&& forall|other: PairText| #[trigger]
        is_remote_live(after, other) == (is_remote_live(before, other) && other != source)
}

impl ObservationCoordinator {
    /// A coordinator that knows of no observer, and whose updates are numbered
    /// from `millis` on.
    pub fn new(core_node_name: &str, millis: Option<u64>) -> (r: Self)
        ensures
            r.core_node_name@ == core_node_name@,
            r.updates.seq == match millis {
                Some(start) => start,
                None => 1,
            },
            r.registry.records@.len() == 0,
            r.registry.generations@.len() == 0,
            r.registry.remote_live@.len() == 0,
    {
        ObservationCoordinator {
            core_node_name: core_node_name.to_owned(),
            updates: SlotSequence::new(millis),
            registry: ObservationRegistry::default(),
        }
    }

    /// Forgets everything: the whole stack goes at once.
    pub fn clear(&mut self)
        ensures
            final(self).registry.records@.len() == 0,
            final(self).registry.generations@.len() == 0,
            final(self).registry.remote_live@.len() == 0,
            final(self).core_node_name == old(self).core_node_name,
            final(self).updates == old(self).updates,
    {
        self.registry.clear();
    }

    /// Takes over the observations of a launch, in place of everything before.
    pub fn register_planned(&mut self, planned: Vec<ObserverRecord>)
        ensures
            final(self).registry.records == planned,
            final(self).registry.generations@.len() == 0,
            final(self).registry.remote_live@.len() == 0,
            final(self).core_node_name == old(self).core_node_name,
            final(self).updates == old(self).updates,
    {
        self.registry.register_planned(planned);
    }

    /// Takes over the observations of one instance that is run on its own, in
    /// place of those that it had before.
    pub fn register_instance(
        &mut self,
        observer_instance_id: &str,
        observations: &Vec<(String, Vec<ObservedSource>)>,
    )
        ensures
            record_texts(final(self).registry.records@) == without_observer(
                record_texts(old(self).registry.records@),
                observer_instance_id@,
            ) + planned_records(observer_instance_id@, observations@),
            final(self).registry.generations == old(self).registry.generations,
            final(self).registry.remote_live == old(self).registry.remote_live,
            final(self).core_node_name == old(self).core_node_name,
            final(self).updates == old(self).updates,
    {
        self.registry.register_instance(observer_instance_id, observations);
    }

    /// An instance of this daemon came up: those that observe it are told, and
    /// so is it about its own slots. `live` are the instances that are up.
    pub fn on_instance_running(&mut self, instance_id: &str, live: &Vec<String>) -> (r: Vec<
        Delivery,
    >)
        requires
            generation(old(self).registry, (old(self).core_node_name@, instance_id@)) < u64::MAX,
        ensures
            after_up(
                old(self).registry,
                final(self).registry,
                old(self).core_node_name@,
                (old(self).core_node_name@, instance_id@),
            ),
            delivers(
                final(self).registry,
                old(self).core_node_name@,
                texts(live@),
                (Verdict { source: (old(self).core_node_name@, instance_id@), live: true }),
                Some(instance_id@),
                r@,
            ),
            final(self).core_node_name == old(self).core_node_name,
            final(self).updates == old(self).updates,
    {
        let source = SourceKey::new(self.core_node_name.as_str(), instance_id);
        self.registry.source_reached_running(
            &source,
            Some(instance_id),
            self.core_node_name.as_str(),
            live,
        )
    }

    /// A source on another daemon came up, as that daemon reports.
    pub fn remote_source_reached_running(
        &mut self,
        core_node: &str,
        instance_id: &str,
        live: &Vec<String>,
    ) -> (r: Vec<Delivery>)
        requires
            generation(old(self).registry, (core_node@, instance_id@)) < u64::MAX,
        ensures
            after_up(
                old(self).registry,
                final(self).registry,
                old(self).core_node_name@,
                (core_node@, instance_id@),
            ),
            delivers(
                final(self).registry,
                old(self).core_node_name@,
                texts(live@),
                (Verdict { source: (core_node@, instance_id@), live: true }),
                None,
                r@,
            ),
            final(self).core_node_name == old(self).core_node_name,
            final(self).updates == old(self).updates,
    {
        let source = SourceKey::new(core_node, instance_id);
        self.registry.source_reached_running(&source, None, self.core_node_name.as_str(), live)
    }

    /// A source on another daemon went down, as that daemon reports.
    pub fn remote_source_stopped(
        &mut self,
        core_node: &str,
        instance_id: &str,
        live: &Vec<String>,
    ) -> (r: Vec<Delivery>)
        ensures
            after_down(
                old(self).registry,
                final(self).registry,
                (core_node@, instance_id@),
            ),
            delivers(
                old(self).registry,
                old(self).core_node_name@,
                texts(live@),
                (Verdict { source: (core_node@, instance_id@), live: false }),
                None,
                r@,
            ),
            final(self).core_node_name == old(self).core_node_name,
            final(self).updates == old(self).updates,
    {
        let source = SourceKey::new(core_node, instance_id);
        self.registry.mark_source_down(&source, self.core_node_name.as_str(), live)
    }

    /// An instance of this daemon went down: it observes nothing any more, and
    /// those that observe it are told.
    pub fn on_instance_down(&mut self, instance_id: &str, live: &Vec<String>) -> (r: Vec<Delivery>)
        ensures
            record_texts(final(self).registry.records@) == without_observer(
                record_texts(old(self).registry.records@),
                instance_id@,
            ),
            after_down(
                (ObservationRegistry {
                    records: final(self).registry.records,
                    ..old(self).registry
                }),
                final(self).registry,
                (old(self).core_node_name@, instance_id@),
            ),
            delivers(
                (ObservationRegistry {
                    records: final(self).registry.records,
                    ..old(self).registry
                }),
                old(self).core_node_name@,
                texts(live@),
                (Verdict { source: (old(self).core_node_name@, instance_id@), live: false }),
                None,
                r@,
            ),
            final(self).core_node_name == old(self).core_node_name,
            final(self).updates == old(self).updates,
    {
        let source = SourceKey::new(self.core_node_name.as_str(), instance_id);
        self.registry.drop_observer(instance_id);
        proof {
            assert(self.registry == (ObservationRegistry {
                records: self.registry.records,
                ..old(self).registry
            }));
        }
        self.registry.mark_source_down(&source, self.core_node_name.as_str(), live)
    }

    /// The next update of the slot that a delivery is for.
    pub fn observation_update(&mut self, delivery: Delivery) -> (r: ObservationUpdateRequest)
        requires
            old(self).updates.seq < u64::MAX,
        ensures
            r.link_id == delivery.observer_link_id,
            r.sequence == old(self).updates.seq + 1,
            r.members == delivery.members,
            final(self).updates.seq == r.sequence,
            final(self).core_node_name == old(self).core_node_name,
            final(self).registry == old(self).registry,
    {
        ObservationUpdateRequest {
            link_id: delivery.observer_link_id,
            sequence: self.updates.next_sequence(),
            members: delivery.members,
        }
    }
}

/// A source that restarts comes back in a generation of its own: as long as
/// somebody observes it, the generation after the restart is above the one
/// before it.
pub proof fn a_restart_is_a_new_generation(
    first: ObservationRegistry,
    stopped: ObservationRegistry,
    second: ObservationRegistry,
    core_node: Seq<char>,
    source: PairText,
)
    requires
        after_down(first, stopped, source),
        after_up(stopped, second, core_node, source),
        is_observed(record_texts(first.records@), source),
        generation(first, source) < u64::MAX,
    ensures
        generation(second, source) > generation(first, source),
{
    assert(generation(stopped, source) == generation(first, source));
    assert(generation(second, source) == generation(stopped, source) + 1);
}

/// A source on another daemon counts as up from the report that it came up until
/// the report that it went down.
pub proof fn a_remote_source_is_as_last_reported(
    before: ObservationRegistry,
    up: ObservationRegistry,
    down: ObservationRegistry,
    core_node: Seq<char>,
    source: PairText,
)
    requires
        source.0 != core_node,
        after_up(before, up, core_node, source),
        after_down(up, down, source),
    ensures
        is_remote_live(up, source),
        !is_remote_live(down, source),
{
}

} // verus!
