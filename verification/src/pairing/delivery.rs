//! The delivery of pins: the one authority for what the endpoints of pairs are
//! told.
use super::{
    after_offer, dissolved_text, involving, offered, pair_text, pairs_to_deliver, pin_for,
    plan_present, slots, survivors, survivors_of, DeliveryStep, Pairing, PeerPin, PlannedPair,
    SideOutcome, SlotAddr,
};
use crate::common::SlotSequence;
use crate::text::{mentions, what_is_written_is_mentioned};
use vstd::prelude::*;
use vstd::string::*;

verus! {

/// How many seconds one delivery may take.
pub const PEER_UPDATE_TIMEOUT_SECS: u64 = 5;

/// What an update is called where an instance turns it down without a reason.
pub fn rejection_text() -> (r: String)
    ensures
        r@ == "peer_update rejected"@,
{
    "peer_update rejected".to_owned()
}

/// The warning about an endpoint that could not be told that it is unpaired.
pub fn unpair_warning(slot: &SlotAddr, reason: &str) -> (r: String)
    ensures
        r@ == "Best-effort unpair notification to '"@ + slot.instance_id@ + "' slot `"@
            + slot.link_id@ + "` failed: "@ + reason@,
{
    let mut text: String = "Best-effort unpair notification to '".to_owned();
    text.append(slot.instance_id.as_str());
    text.append("' slot `");
    text.append(slot.link_id.as_str());
    text.append("` failed: ");
    text.append(reason);
    text
}

/// What an instance is told about one of its slots: the whole state of it.
pub struct PeerUpdateRequest {
    pub link_id: String,
    pub sequence: u64,
    /// The pin, or `None` where the slot is unpaired.
    pub pin: Option<PeerPin>,
}

/// The daemon's authority for pairs.
pub struct PairingCoordinator {
    pub core_node_name: String,
    pub updates: SlotSequence,
}

impl PairingCoordinator {
    /// A coordinator whose updates are numbered from `millis` on.
    pub fn new(core_node_name: &str, millis: Option<u64>) -> (r: Self)
        ensures
            r.core_node_name@ == core_node_name@,
            r.updates.seq == match millis {
                Some(start) => start,
                None => 1,
            },
    {
        PairingCoordinator {
            core_node_name: core_node_name.to_owned(),
            updates: SlotSequence::new(millis),
        }
    }

    /// The next update of a slot.
    pub fn peer_update(&mut self, slot: &SlotAddr, pin: Option<PeerPin>) -> (r: PeerUpdateRequest)
        requires
            old(self).updates.seq < u64::MAX,
        ensures
            r.link_id@ == slot.link_id@,
            r.sequence == old(self).updates.seq + 1,
            r.pin == pin,
            final(self).updates.seq == r.sequence,
            final(self).core_node_name == old(self).core_node_name,
    {
        PeerUpdateRequest {
            link_id: slot.link_id.clone(),
            sequence: self.updates.next_sequence(),
            pin,
        }
    }

    /// The delivery of the pins of every pair that an instance is in, or the
    /// first of its planned pairs that is no longer in the registry.
    pub fn deliver_pairs_for_instance(
        &self,
        registry: Vec<Pairing>,
        instance_id: &str,
        planned: &Vec<PlannedPair>,
    ) -> (r: Result<PairDelivery, String>)
        ensures
            match r {
                Ok(delivery) => {
                    &&& delivery.valid()
                    &&& delivery.pairs@ == involving(registry@, instance_id@)
                    &&& delivery.at == 0 && !delivery.second && !delivery.failed
                    &&& forall|k: int|
                        0 <= k < planned@.len() ==> plan_present(
                            delivery.pairs@,
                            #[trigger] planned@[k]@,
                        )
                },
                Err(text) => exists|i: int|
                    0 <= i < planned@.len() && !plan_present(
                        involving(registry@, instance_id@),
                        #[trigger] planned@[i]@,
                    ) && (forall|k: int|
                        0 <= k < i ==> plan_present(
                            involving(registry@, instance_id@),
                            #[trigger] planned@[k]@,
                        )) && text@ == dissolved_text(planned@[i]@),
            },
    {
        match pairs_to_deliver(registry, instance_id, planned) {
            Ok(pairs) => Ok(PairDelivery { pairs, at: 0, second: false, failed: false }),
            Err(text) => Err(text),
        }
    }

    /// Who is told that it is unpaired once an instance's pairs are dissolved.
    pub fn dissolve_for_instance(&self, dissolved: &Vec<Pairing>, instance_id: &str) -> (r: Vec<
        SlotAddr,
    >)
        ensures
            slots(r@) == survivors_of(dissolved@, instance_id@),
    {
        survivors(dissolved, instance_id)
    }
}

/// The delivery of a list of pairs: each to its first endpoint, then to its
/// second.
pub struct PairDelivery {
    pub pairs: Vec<Pairing>,
    /// The pair that is delivered.
    pub at: usize,
    /// Whether its second endpoint is offered its pin.
    pub second: bool,
    /// Whether a pair could not be delivered.
    pub failed: bool,
}

/// What a delivery does next.
pub enum DeliveryAction {
    /// Offer this slot its pin, where its instance is live.
    Offer { slot: SlotAddr, pin: PeerPin },
    /// Take the pair out of the registry at `clear`, tell `notify` that it is
    /// unpaired, and fail.
    Revert { clear: SlotAddr, notify: Option<SlotAddr>, error: String },
    /// Every pair is delivered.
    Done,
}

/// What a delivery that has come this far does next.
pub open spec fn offers_next(
    delivery: PairDelivery,
    core_node: Seq<char>,
    action: DeliveryAction,
) -> bool {
    if delivery.at < delivery.pairs@.len() {
        action matches DeliveryAction::Offer { slot, pin } && slot@ == offered(
            delivery.pairs@[delivery.at as int],
            delivery.second,
        ) && pin.core_node@ == core_node && (pin.peer_instance_id@, pin.peer_link_id@) == offered(
            delivery.pairs@[delivery.at as int],
            !delivery.second,
        )
    } else {
        action is Done
    }
}

/// How a delivery goes on after the offer to one endpoint.
pub open spec fn delivery_steps(
    before: PairDelivery,
    outcome: SideOutcome,
    core_node: Seq<char>,
    after: PairDelivery,
    action: DeliveryAction,
) -> bool {
    let pair = before.pairs@[before.at as int];
    &&& after.pairs == before.pairs
    &&& match outcome {
        SideOutcome::Failed(reason) => {
            &&& after.at == before.at && after.second == before.second && after.failed
            &&& action matches DeliveryAction::Revert { clear, notify, error } && clear@ == offered(
                pair,
                before.second,
            ) && error@ == "failed to deliver pair `"@ + pair_text(pair@) + "` to instance '"@
                + offered(pair, before.second).0 + "': "@ + reason@ && (if before.second {
                notify matches Some(slot) && slot@ == offered(pair, false)
            } else {
                notify is None
            })
        },
        SideOutcome::NotLive | SideOutcome::Taken => {
            &&& !after.failed
            &&& after.second == !before.second
            &&& after.at == before.at + if before.second {
                1int
            } else {
                0int
            }
            &&& offers_next(after, core_node, action)
        },
    }
}

impl PairDelivery {
    pub open spec fn valid(self) -> bool {
        &&& self.at <= self.pairs@.len()
        &&& self.second ==> self.at < self.pairs@.len()
    }

    /// What the delivery does next.
    pub fn next(&self, core_node: &str) -> (r: DeliveryAction)
        requires
            self.valid(),
        ensures
            offers_next(*self, core_node@, r),
    {
        if self.at >= self.pairs.len() {
            return DeliveryAction::Done;
        }
        let pair = &self.pairs[self.at];
        let slot = if self.second {
            pair.b.slot.clone()
        } else {
            pair.a.slot.clone()
        };
        DeliveryAction::Offer { slot, pin: pin_for(pair, self.second, core_node) }
    }

    /// Goes on after the offer to one endpoint.
    pub fn step(&mut self, outcome: SideOutcome, core_node: &str) -> (r: DeliveryAction)
        requires
            old(self).valid(),
            !old(self).failed,
            old(self).at < old(self).pairs.len(),
        ensures
            final(self).valid(),
            delivery_steps(*old(self), outcome, core_node@, *final(self), r),
    {
        match after_offer(&self.pairs[self.at], self.second, outcome) {
            DeliveryStep::OfferSecond => {
                self.second = true;
                self.next(core_node)
            },
            DeliveryStep::Done => {
                self.second = false;
                self.at += 1;
                self.next(core_node)
            },
            DeliveryStep::Revert { clear, notify, error } => {
                self.failed = true;
                DeliveryAction::Revert { clear, notify, error }
            },
        }
    }
}

/// How many endpoints a delivery has served or passed over.
pub open spec fn endpoints_served(delivery: PairDelivery) -> int {
    2 * delivery.at + if delivery.second {
        1int
    } else {
        0int
    }
}

/// A delivery ends well only once both endpoints of every pair were served or
/// passed over, and each step serves exactly one; what fails is the pair that
/// was being delivered, and the pairs before it stand.
pub proof fn every_endpoint_is_served_once(
    before: PairDelivery,
    outcome: SideOutcome,
    core_node: Seq<char>,
    after: PairDelivery,
    action: DeliveryAction,
)
    requires
        before.valid(),
        before.at < before.pairs@.len(),
        delivery_steps(before, outcome, core_node, after, action),
    ensures
        !(outcome is Failed) ==> endpoints_served(after) == endpoints_served(before) + 1,
        outcome is Failed <==> after.failed,
        action is Done <==> endpoints_served(after) == 2 * after.pairs@.len() && !after.failed,
        action matches DeliveryAction::Revert { clear, .. } ==> clear@ == before.pairs@[before.at as int].a.slot@
            || clear@ == before.pairs@[before.at as int].b.slot@,
{
}

/// A call of `step` leads a delivery as `delivery_steps` says.
pub proof fn a_call_steps_the_delivery(
    delivery: &mut PairDelivery,
    outcome: SideOutcome,
    core_node: &str,
    r: DeliveryAction,
)
    requires
        call_ensures(PairDelivery::step, (delivery, outcome, core_node), r),
    ensures
        delivery_steps(*old(delivery), outcome, core_node@, *final(delivery), r),
        final(delivery).valid(),
{
}

/// A failed offer ends a delivery with the reason, and takes the pair back that was
/// being delivered; any other outcome offers the next end its peer.
pub proof fn a_failed_offer_ends_the_delivery(
    before: PairDelivery,
    outcome: SideOutcome,
    core_node: Seq<char>,
    after: PairDelivery,
    action: DeliveryAction,
)
    requires
        before.valid(),
        before.at < before.pairs@.len(),
        delivery_steps(before, outcome, core_node, after, action),
    ensures
        after.pairs == before.pairs,
        action is Revert <==> outcome is Failed,
        action matches DeliveryAction::Revert { error, notify, .. } ==> (
        outcome matches SideOutcome::Failed(why) && mentions(error@, why@)) && (notify is Some
            <==> before.second) && (notify matches Some(told) ==> told@
            == before.pairs@[before.at as int].a.slot@),
        action matches DeliveryAction::Offer { slot, pin } ==> {
            let pair = after.pairs@[after.at as int];
            &&& pin.core_node@ == core_node
            &&& after.second ==> slot@ == pair.b.slot@ && pin.peer_instance_id@
                == pair.a.slot.instance_id@ && pin.peer_link_id@ == pair.a.slot.link_id@
            &&& !after.second ==> slot@ == pair.a.slot@ && pin.peer_instance_id@
                == pair.b.slot.instance_id@ && pin.peer_link_id@ == pair.b.slot.link_id@
        },
{
    if let SideOutcome::Failed(why) = outcome {
        let pair = before.pairs@[before.at as int];
        what_is_written_is_mentioned(
            "failed to deliver pair `"@ + pair_text(pair@) + "` to instance '"@ + offered(
                pair,
                before.second,
            ).0 + "': "@,
            why@,
            ""@,
        );
    }
}

/// Updates of slots are numbered upwards: each has the number after the one before,
/// the slot that it is about, and what the slot is to be.
pub proof fn updates_are_numbered_upwards(
    coordinator: &mut PairingCoordinator,
    slot: SlotAddr,
    pin: Option<PeerPin>,
    r: PeerUpdateRequest,
)
    requires
        call_ensures(PairingCoordinator::peer_update, (coordinator, &slot, pin), r),
        old(coordinator).updates.seq < u64::MAX,
    ensures
        r.sequence > old(coordinator).updates.seq,
        final(coordinator).updates.seq >= r.sequence,
        r.link_id@ == slot.link_id@,
        r.pin == pin,
{
}

} // verus!
