//! Delivering producer sets to running consumers.
use crate::common::SlotSequence;
use vstd::prelude::*;
use vstd::string::*;

verus! {

/// How many seconds one delivery may take.
pub const BINDING_UPDATE_TIMEOUT_SECS: u64 = 5;

/// What an update is called where an instance turns it down without a reason.
pub fn rejection_text() -> (r: String)
    ensures
        r@ == "binding_update rejected"@,
{
    "binding_update rejected".to_owned()
}

/// What a consumer is told: the number of the update, the slot that the set is
/// for and the set. `P` is a set of producers.
pub struct BindingUpdate<P> {
    pub link_id: String,
    pub sequence: u64,
    pub producers: P,
}

/// The daemon's authority for the sets of slots.
pub struct BindingCoordinator {
    pub updates: SlotSequence,
}

impl BindingCoordinator {
    /// A coordinator whose updates are numbered from `millis` on.
    pub fn new(millis: Option<u64>) -> (r: Self)
        ensures
            r.updates.seq == match millis {
                Some(start) => start,
                None => 1,
            },
    {
        BindingCoordinator { updates: SlotSequence::new(millis) }
    }

    /// The delivery of a set to a slot of a consumer.
    pub fn replace_slot<P>(&mut self, consumer: &str, link_id: &str, producers: P) -> (r:
        SlotReplacement<P>)
        requires
            old(self).updates.seq < u64::MAX,
        ensures
            r.valid(),
            r.consumer@ == consumer@,
            r.update matches Some(update) && update.link_id@ == link_id@ && update.sequence
                == old(self).updates.seq + 1 && update.producers == producers,
            r.phase == ReplacePhase::Encode,
            final(self).updates.seq == old(self).updates.seq + 1,
    {
        SlotReplacement {
            consumer: consumer.to_owned(),
            update: Some(
                BindingUpdate {
                    link_id: link_id.to_owned(),
                    sequence: self.updates.next_sequence(),
                    producers,
                },
            ),
            phase: ReplacePhase::Encode,
        }
    }
}

/// What a delivery waits for.
#[derive(Clone, Copy, Debug, PartialEq, Eq, Structural)]
pub enum ReplacePhase {
    Encode,
    Send,
    Record,
    Over,
}

/// What came of the step that a delivery waits for.
pub enum ReplaceEvent {
    Encoded(Result<(), String>),
    Sent(Result<(), String>),
    /// Whether the stack still had the running instance to record the set on.
    Recorded(bool),
}

/// What a delivery does next.
pub enum ReplaceAction<P> {
    /// Send the update to this instance.
    Send { consumer: String },
    /// Record on the stack that the instance's slot holds the update's set.
    Record { consumer: String, update: BindingUpdate<P> },
    Finish(Result<(), String>),
}

/// The delivery of a set to a slot of a running consumer.
pub struct SlotReplacement<P> {
    pub consumer: String,
    /// The update, until it is recorded.
    pub update: Option<BindingUpdate<P>>,
    pub phase: ReplacePhase,
}

/// How a delivery goes on.
pub open spec fn replace_steps<P>(
    before: SlotReplacement<P>,
    event: ReplaceEvent,
    after: SlotReplacement<P>,
    step: Option<ReplaceAction<P>>,
) -> bool {
    &&& after.consumer == before.consumer
    &&& after.phase != ReplacePhase::Record ==> after.update == before.update
    &&& match (before.phase, event) {
        (ReplacePhase::Encode, ReplaceEvent::Encoded(Ok(_))) => after.phase == ReplacePhase::Send
            && (step matches Some(ReplaceAction::Send { consumer }) && consumer@
            == before.consumer@),
        (ReplacePhase::Send, ReplaceEvent::Sent(Ok(_))) => after.phase == ReplacePhase::Record
            && after.update is None && (step matches Some(
            ReplaceAction::Record { consumer, update },
        ) && consumer@ == before.consumer@ && before.update == Some(update)),
        (ReplacePhase::Encode, ReplaceEvent::Encoded(Err(why))) => after.phase
            == ReplacePhase::Over && step == Some(ReplaceAction::<P>::Finish(Err(why))),
        (ReplacePhase::Send, ReplaceEvent::Sent(Err(why))) => after.phase == ReplacePhase::Over
            && step == Some(ReplaceAction::<P>::Finish(Err(why))),
        (ReplacePhase::Record, ReplaceEvent::Recorded(recorded)) => after.phase
            == ReplacePhase::Over && if recorded {
            step == Some(ReplaceAction::<P>::Finish(Ok(())))
        } else {
            step matches Some(ReplaceAction::Finish(Err(text))) && text@
                == "the instance stopped running as it took the set"@
        },
        _ => after == before && step is None,
    }
}

impl<P> SlotReplacement<P> {
    /// Whether the update is there as long as it is needed.
    pub open spec fn valid(self) -> bool {
        self.phase == ReplacePhase::Encode || self.phase == ReplacePhase::Send
            ==> self.update is Some
    }

    /// Goes on after an event. An event that does not answer what the delivery
    /// waits for changes nothing.
    pub fn step(&mut self, event: ReplaceEvent) -> (r: Option<ReplaceAction<P>>)
        requires
            old(self).valid(),
        ensures
            final(self).valid(),
            replace_steps(*old(self), event, *final(self), r),
    {
        match (self.phase, event) {
            (ReplacePhase::Encode, ReplaceEvent::Encoded(Ok(_))) => {
                self.phase = ReplacePhase::Send;
                Some(ReplaceAction::Send { consumer: self.consumer.clone() })
            },
            (ReplacePhase::Send, ReplaceEvent::Sent(Ok(_))) => {
                self.phase = ReplacePhase::Record;
                match self.update.take() {
                    Some(update) => Some(
                        ReplaceAction::Record { consumer: self.consumer.clone(), update },
                    ),
                    None => None,
                }
            },
            (ReplacePhase::Encode, ReplaceEvent::Encoded(Err(why))) => {
                self.phase = ReplacePhase::Over;
                Some(ReplaceAction::Finish(Err(why)))
            },
            (ReplacePhase::Send, ReplaceEvent::Sent(Err(why))) => {
                self.phase = ReplacePhase::Over;
                Some(ReplaceAction::Finish(Err(why)))
            },
            (ReplacePhase::Record, ReplaceEvent::Recorded(recorded)) => {
                self.phase = ReplacePhase::Over;
                if recorded {
                    return Some(ReplaceAction::Finish(Ok(())));
                }
                Some(
                    ReplaceAction::Finish(
                        Err("the instance stopped running as it took the set".to_owned()),
                    ),
                )
            },
            _ => None,
        }
    }
}

/// The stack records a set only once the instance holds it, and a delivery
/// succeeds only once the stack has recorded the set.
pub proof fn a_recorded_set_was_delivered<P>(
    before: SlotReplacement<P>,
    event: ReplaceEvent,
    after: SlotReplacement<P>,
    step: Option<ReplaceAction<P>>,
)
    requires
        replace_steps(before, event, after, step),
    ensures
        step matches Some(ReplaceAction::Record { consumer, update }) ==> (
        event matches ReplaceEvent::Sent(Ok(_))) && consumer@ == before.consumer@ && before.update
            == Some(update),
        step == Some(ReplaceAction::<P>::Finish(Ok(()))) ==> before.phase == ReplacePhase::Record
            && event == ReplaceEvent::Recorded(true),
{
}

/// A call of `step` leads a delivery as `replace_steps` says.
pub proof fn a_call_steps_the_replacement<P>(
    delivery: &mut SlotReplacement<P>,
    event: ReplaceEvent,
    r: Option<ReplaceAction<P>>,
)
    requires
        call_ensures(SlotReplacement::<P>::step, (delivery, event), r),
    ensures
        replace_steps(*old(delivery), event, *final(delivery), r),
{
}

/// A set that cannot be encoded or sent ends its delivery with the reason, and is not
/// recorded; one that is encoded is sent, one that is sent is recorded, and a record
/// that finds no instance is a failure.
pub proof fn a_failed_delivery_records_nothing<P>(
    before: SlotReplacement<P>,
    event: ReplaceEvent,
    after: SlotReplacement<P>,
    step: Option<ReplaceAction<P>>,
)
    requires
        before.valid(),
        replace_steps(before, event, after, step),
    ensures
        before.phase == ReplacePhase::Encode ==> (event matches ReplaceEvent::Encoded(Err(why))
            ==> after.phase == ReplacePhase::Over && step == Some(
            ReplaceAction::<P>::Finish(Err(why)),
        )),
        before.phase == ReplacePhase::Send ==> (event matches ReplaceEvent::Sent(Err(why))
            ==> after.phase == ReplacePhase::Over && step == Some(
            ReplaceAction::<P>::Finish(Err(why)),
        )),
        before.phase == ReplacePhase::Encode && (event matches ReplaceEvent::Encoded(Ok(_)))
            ==> after.phase == ReplacePhase::Send && (step matches Some(
            ReplaceAction::Send { consumer },
        ) && consumer@ == before.consumer@),
        before.phase == ReplacePhase::Send && (event matches ReplaceEvent::Sent(Ok(_)))
            ==> after.phase == ReplacePhase::Record && (step matches Some(
            ReplaceAction::Record { .. },
        )),
        before.phase == ReplacePhase::Record && event == ReplaceEvent::Recorded(true) ==> step
            == Some(ReplaceAction::<P>::Finish(Ok(()))),
        before.phase == ReplacePhase::Record && event == ReplaceEvent::Recorded(false) ==> (
        step matches Some(ReplaceAction::Finish(Err(_)))),
        step matches Some(ReplaceAction::Finish(_)) ==> after.phase == ReplacePhase::Over,
        before.phase == ReplacePhase::Over ==> after == before && step is None,
{
}

/// Every delivery has a number above the ones before it, and takes the set to the slot
/// of the consumer that it is for.
pub proof fn deliveries_are_numbered_upwards<P>(
    coordinator: &mut BindingCoordinator,
    consumer: &str,
    link_id: &str,
    producers: P,
    r: SlotReplacement<P>,
)
    requires
        call_ensures(
            BindingCoordinator::replace_slot::<P>,
            (coordinator, consumer, link_id, producers),
            r,
        ),
    ensures
        r.consumer@ == consumer@,
        r.update matches Some(update) && update.link_id@ == link_id@ && update.producers == producers
            && update.sequence > old(coordinator).updates.seq && final(coordinator).updates.seq
            >= update.sequence,
        r.phase == ReplacePhase::Encode,
{
}

} // verus!
