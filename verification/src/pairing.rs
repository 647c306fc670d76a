//! Pairing: planning the pairs a starting instance asks for, and delivering
//! the resulting pins to both endpoints.
//!
//! A pair joins two slots of two instances. It is committed to the registry
//! first and delivered afterwards: first to endpoint `a`, then to `b`. When a
//! delivery fails the commit is reverted, and an endpoint that has already
//! taken its pin is told that it is unpaired again.
use crate::order::{ascending, has_text, insert_text};
use crate::text::{joined, mentions, str_eq, texts, what_is_written_is_mentioned};
use vstd::prelude::*;
use vstd::string::*;

pub mod delivery;

verus! {

/// One pairing slot: the instance that owns it and its link id.
#[derive(Debug, PartialEq, Eq)]
pub struct SlotAddr {
    pub instance_id: String,
    pub link_id: String,
}

impl View for SlotAddr {
    type V = (Seq<char>, Seq<char>);

    open spec fn view(&self) -> (Seq<char>, Seq<char>) {
        (self.instance_id@, self.link_id@)
    }
}

impl Clone for SlotAddr {
    fn clone(&self) -> (r: Self)
        ensures
            r@ == self@,
    {
        SlotAddr { instance_id: self.instance_id.clone(), link_id: self.link_id.clone() }
    }
}

/// A slot as it is written in messages: `instance:link`.
pub open spec fn slot_text(slot: (Seq<char>, Seq<char>)) -> Seq<char> {
    slot.0 + ":"@ + slot.1
}

impl SlotAddr {
    pub fn new(instance_id: &str, link_id: &str) -> (r: Self)
        ensures
            r@ == (instance_id@, link_id@),
    {
        SlotAddr { instance_id: instance_id.to_owned(), link_id: link_id.to_owned() }
    }

    /// The slot as it is written in messages: `instance:link`.
    pub fn label(&self) -> (r: String)
        ensures
            r@ == slot_text(self@),
    {
        let mut out: String = self.instance_id.clone();
        out.append(":");
        out.append(self.link_id.as_str());
        out
    }

    /// Whether two addresses name the same slot.
    pub fn same_as(&self, other: &SlotAddr) -> (r: bool)
        ensures
            r == (self@ == other@),
    {
        str_eq(self.instance_id.as_str(), other.instance_id.as_str()) && str_eq(
            self.link_id.as_str(),
            other.link_id.as_str(),
        )
    }
}

/// One endpoint of a pair: its slot and the role it plays.
#[derive(Debug, PartialEq, Eq)]
pub struct PairEndpoint {
    pub slot: SlotAddr,
    pub role: String,
}

/// A pair of the registry.
#[derive(Debug, PartialEq, Eq)]
pub struct Pairing {
    pub pairing_name: String,
    pub pairing_tag: String,
    pub a: PairEndpoint,
    pub b: PairEndpoint,
}

impl View for Pairing {
    type V = ((Seq<char>, Seq<char>), (Seq<char>, Seq<char>));

    open spec fn view(&self) -> ((Seq<char>, Seq<char>), (Seq<char>, Seq<char>)) {
        (self.a.slot@, self.b.slot@)
    }
}

/// Whether a pair has an endpoint on the instance.
pub open spec fn involves(
    pair: ((Seq<char>, Seq<char>), (Seq<char>, Seq<char>)),
    instance_id: Seq<char>,
) -> bool {
    pair.0.0 == instance_id || pair.1.0 == instance_id
}

/// Whether a pair joins exactly these two slots, whichever of them is `a`.
pub open spec fn joins(
    pair: ((Seq<char>, Seq<char>), (Seq<char>, Seq<char>)),
    own: (Seq<char>, Seq<char>),
    peer: (Seq<char>, Seq<char>),
) -> bool {
    if pair.0 == own {
        pair.1 == peer
    } else {
        pair.1 == own && pair.0 == peer
    }
}

impl Pairing {
    /// Whether the pair has an endpoint on the instance.
    pub fn involves_instance(&self, instance_id: &str) -> (r: bool)
        ensures
            r == involves(self@, instance_id@),
    {
        str_eq(self.a.slot.instance_id.as_str(), instance_id) || str_eq(
            self.b.slot.instance_id.as_str(),
            instance_id,
        )
    }

    /// The endpoint across from `slot`, where the pair has `slot` as an
    /// endpoint.
    pub fn peer_of(&self, slot: &SlotAddr) -> (r: Option<&PairEndpoint>)
        ensures
            match r {
                Some(peer) => if self.a.slot@ == slot@ {
                    *peer == self.b
                } else {
                    self.b.slot@ == slot@ && *peer == self.a
                },
                None => self.a.slot@ != slot@ && self.b.slot@ != slot@,
            },
    {
        if self.a.slot.same_as(slot) {
            Some(&self.b)
        } else if self.b.slot.same_as(slot) {
            Some(&self.a)
        } else {
            None
        }
    }
}

/// `a ⇌ b` in the slots' own notation.
pub open spec fn pair_text(pair: ((Seq<char>, Seq<char>), (Seq<char>, Seq<char>))) -> Seq<char> {
    slot_text(pair.0) + " ⇌ "@ + slot_text(pair.1)
}

/// The label of a pair in logs and messages: `a_inst:a_link ⇌ b_inst:b_link`.
pub fn pairing_label(pairing: &Pairing) -> (r: String)
    ensures
        r@ == pair_text(pairing@),
{
    let mut out: String = pairing.a.slot.label();
    out.append(" ⇌ ");
    out.append(pairing.b.slot.label().as_str());
    out
}

/// One resolved link request: this instance's slot and the concrete peer slot
/// it will be paired with.
#[derive(Debug, PartialEq, Eq)]
pub struct PlannedPair {
    pub own: SlotAddr,
    pub peer: SlotAddr,
}

impl View for PlannedPair {
    type V = ((Seq<char>, Seq<char>), (Seq<char>, Seq<char>));

    open spec fn view(&self) -> ((Seq<char>, Seq<char>), (Seq<char>, Seq<char>)) {
        (self.own@, self.peer@)
    }
}

impl Clone for PlannedPair {
    fn clone(&self) -> (r: Self)
        ensures
            r@ == self@,
    {
        PlannedPair { own: self.own.clone(), peer: self.peer.clone() }
    }
}

/// Whether some pair of the list joins the two slots of a plan.
pub open spec fn plan_present(
    pairs: Seq<Pairing>,
    plan: ((Seq<char>, Seq<char>), (Seq<char>, Seq<char>)),
) -> bool {
    exists|k: int| 0 <= k < pairs.len() && joins(#[trigger] pairs[k]@, plan.0, plan.1)
}

/// Whether some pair of the list joins the two slots of a plan.
fn holds_plan(pairs: &Vec<Pairing>, plan: &PlannedPair) -> (r: bool)
    ensures
        r == plan_present(pairs@, plan@),
{
    let mut i: usize = 0;
    while i < pairs.len()
        invariant
            i <= pairs@.len(),
            forall|k: int| 0 <= k < i ==> !joins(#[trigger] pairs@[k]@, plan.own@, plan.peer@),
        decreases pairs.len() - i,
    {
        if let Some(peer) = pairs[i].peer_of(&plan.own) {
            if peer.slot.same_as(&plan.peer) {
                proof {
                    assert(joins(pairs@[i as int]@, plan.own@, plan.peer@));
                }
                return true;
            }
        }
        i += 1;
    }
    false
}

/// The first planned pair that the registry does not hold, in either endpoint
/// order; `None` when it holds them all.
pub fn find_missing_planned_pair<'a>(
    pairs: &Vec<Pairing>,
    planned: &'a Vec<PlannedPair>,
) -> (r: Option<&'a PlannedPair>)
    ensures
        match r {
            Some(plan) => exists|i: int|
                0 <= i < planned@.len() && *plan == #[trigger] planned@[i] && !plan_present(
                    pairs@,
                    planned@[i]@,
                ) && (forall|k: int| 0 <= k < i ==> plan_present(pairs@, #[trigger] planned@[k]@)),
            None => forall|k: int|
                0 <= k < planned@.len() ==> plan_present(pairs@, #[trigger] planned@[k]@),
        },
{
    let mut i: usize = 0;
    while i < planned.len()
        invariant
            i <= planned@.len(),
            forall|k: int| 0 <= k < i ==> plan_present(pairs@, #[trigger] planned@[k]@),
        decreases planned.len() - i,
    {
        if !holds_plan(pairs, &planned[i]) {
            return Some(&planned[i]);
        }
        i += 1;
    }
    None
}

/// Where a link request points: a peer instance, and one of its slots where
/// the request pins it.
#[derive(Debug, PartialEq, Eq)]
pub struct PairTarget {
    pub peer_instance_id: String,
    pub peer_link_id: Option<String>,
}

/// A target in the launcher's notation: `peer` or `peer/peer_link`.
pub open spec fn target_text(target: PairTarget) -> Seq<char> {
    match target.peer_link_id {
        Some(link) => target.peer_instance_id@ + "/"@ + link@,
        None => target.peer_instance_id@,
    }
}

impl PairTarget {
    /// A target that leaves the peer's slot open.
    pub fn new(peer_instance_id: &str) -> (r: Self)
        ensures
            r.peer_instance_id@ == peer_instance_id@,
            r.peer_link_id is None,
    {
        PairTarget { peer_instance_id: peer_instance_id.to_owned(), peer_link_id: None }
    }

    /// A target that pins the peer's slot.
    pub fn pinned(peer_instance_id: &str, peer_link_id: &str) -> (r: Self)
        ensures
            r.peer_instance_id@ == peer_instance_id@,
            r.peer_link_id matches Some(link) && link@ == peer_link_id@,
    {
        PairTarget {
            peer_instance_id: peer_instance_id.to_owned(),
            peer_link_id: Some(peer_link_id.to_owned()),
        }
    }

    /// The target in the launcher's notation: `peer` or `peer/peer_link`.
    pub fn render(&self) -> (r: String)
        ensures
            r@ == target_text(*self),
    {
        let mut out: String = self.peer_instance_id.clone();
        if let Some(link) = &self.peer_link_id {
            out.append("/");
            out.append(link.as_str());
        }
        out
    }
}

/// One pairing slot of a node's manifest. An observer slot taps a pair and
/// takes no part in it.
#[derive(Debug, PartialEq, Eq)]
pub struct PairingDep {
    pub name: String,
    pub tag: String,
    pub role: String,
    pub link_id: String,
    pub participant: bool,
    pub optional: bool,
}

/// The new instance's side of a pairing check: its identity and the pairing
/// arguments of its run goal. `requested` and `covered` are in key order.
pub struct PairingRequest<'a> {
    pub node_name: &'a str,
    pub node_tag: &'a str,
    pub instance_id: &'a str,
    pub pairing_deps: &'a Vec<PairingDep>,
    /// Link id to peer target, from the command line or a launch plan.
    pub requested: &'a Vec<(String, PairTarget)>,
    /// Slots that deliberately start unpaired.
    pub deferred: &'a Vec<String>,
    /// Slots that a later-starting instance of the same launch will claim.
    pub covered: &'a Vec<(String, PairTarget)>,
}

/// The live instances of one node, as a plan sees them.
pub struct PairingNodeSnapshot {
    pub node_name: String,
    pub node_tag: String,
    pub instance_ids: Vec<String>,
    pub pairing_deps: Vec<PairingDep>,
}

/// What the rules shared with the launcher are asked: the nodes that are there
/// already, the new instance with its links and deferred slots, and the slots that
/// are taken, each with the slot across from it.
pub struct PairingValidation<'a> {
    pub snapshot: &'a Vec<PairingNodeSnapshot>,
    pub node_name: &'a str,
    pub node_tag: &'a str,
    pub instance_id: &'a str,
    pub pairing_deps: &'a Vec<PairingDep>,
    pub links: Vec<(String, String)>,
    pub defer_links: Vec<String>,
    pub already_paired: Vec<(SlotAddr, String)>,
}

/// What the pairing validator answers: its findings one by one, the same
/// findings as one report, and the pairs it resolved, the declaring slot
/// first.
pub struct Validated {
    pub errors: Vec<String>,
    pub report: String,
    pub planned: Vec<(SlotAddr, SlotAddr)>,
}

/// The keys of a list of link requests.
pub open spec fn keys_of(list: Seq<(String, PairTarget)>) -> Seq<Seq<char>> {
    list.map_values(|entry: (String, PairTarget)| entry.0@)
}

/// Every slot that a request names: requested, covered, deferred.
pub open spec fn named_slots(request: PairingRequest) -> Seq<Seq<char>> {
    keys_of(request.requested@) + keys_of(request.covered@) + texts(request.deferred@)
}

/// Whether the manifest declares `link` as a slot that takes part in pairs.
pub open spec fn participates(deps: Seq<PairingDep>, link: Seq<char>) -> bool {
    exists|k: int|
        0 <= k < deps.len() && (#[trigger] deps[k]).participant && deps[k].link_id@ == link
}

/// Whether the manifest declares `link` as an optional slot of a pair.
pub open spec fn optional_slot(deps: Seq<PairingDep>, link: Seq<char>) -> bool {
    exists|k: int|
        0 <= k < deps.len() && (#[trigger] deps[k]).participant && deps[k].optional
            && deps[k].link_id@ == link
}

/// The covered slots that count as deferred: those that are not optional.
pub open spec fn required_of(deps: Seq<PairingDep>, links: Seq<Seq<char>>) -> Seq<Seq<char>>
    decreases links.len(),
{
    if links.len() == 0 {
        Seq::empty()
    } else {
        let before = required_of(deps, links.drop_last());
        if optional_slot(deps, links.last()) {
            before
        } else {
            before.push(links.last())
        }
    }
}

/// The refusal of a request that targets its own instance.
pub open spec fn self_target_text(link: Seq<char>, instance_id: Seq<char>) -> Seq<char> {
    "pairing slot `"@ + link + "` targets its own instance '"@ + instance_id
        + "'; a pair joins two distinct instances"@
}

/// The refusal of a key that names no participant slot; `declared` are those
/// there are.
pub open spec fn stray_slot_text(
    link: Seq<char>,
    instance_id: Seq<char>,
    declared: Seq<Seq<char>>,
) -> Seq<char> {
    "pairing slot `"@ + link + "` on instance '"@ + instance_id
        + "' matches no declared participant pairing slot; declared: ["@ + joined(
        declared,
        ", "@,
    ) + "]"@
}

/// Whether a request is refused for targeting its own instance, with which
/// text: the first such request is named.
pub open spec fn refused_as_own(request: PairingRequest, text: Seq<char>) -> bool {
    exists|i: int|
        0 <= i < request.requested@.len() && (#[trigger] request.requested@[i]).1.peer_instance_id@
            == request.instance_id@ && (forall|k: int|
            0 <= k < i ==> (#[trigger] request.requested@[k]).1.peer_instance_id@
                != request.instance_id@) && text == self_target_text(
            request.requested@[i].0@,
            request.instance_id@,
        )
}

/// Whether any request targets its own instance.
pub open spec fn targets_itself(request: PairingRequest) -> bool {
    exists|i: int|
        0 <= i < request.requested@.len() && (#[trigger] request.requested@[i]).1.peer_instance_id@
            == request.instance_id@
}

/// Whether a request is refused for a key that names no participant slot,
/// with which text: the first such key is named, and every slot there is, in
/// order.
pub open spec fn refused_as_stray(request: PairingRequest, text: Seq<char>) -> bool {
    exists|i: int, declared: Seq<Seq<char>>|
        0 <= i < named_slots(request).len() && !participates(
            request.pairing_deps@,
            #[trigger] named_slots(request)[i],
        ) && (forall|k: int|
            0 <= k < i ==> participates(
                request.pairing_deps@,
                #[trigger] named_slots(request)[k],
            )) && ascending(declared) && (forall|link: Seq<char>|
            declared.contains(link) == participates(request.pairing_deps@, link)) && text
            == #[trigger] stray_slot_text(named_slots(request)[i], request.instance_id@, declared)
}

/// Whether every key names a participant slot.
pub open spec fn all_declared(request: PairingRequest) -> bool {
    forall|k: int|
        0 <= k < named_slots(request).len() ==> participates(
            request.pairing_deps@,
            #[trigger] named_slots(request)[k],
        )
}

/// Whether the validator is asked exactly what a request and the live pairs
/// amount to.
pub open spec fn asks_for(
    validation: PairingValidation,
    snapshot: Vec<PairingNodeSnapshot>,
    live_pairs: Seq<Pairing>,
    request: PairingRequest,
) -> bool {
    &&& *validation.snapshot == snapshot
    &&& validation.node_name@ == request.node_name@
    &&& validation.node_tag@ == request.node_tag@
    &&& validation.instance_id@ == request.instance_id@
    &&& *validation.pairing_deps == *request.pairing_deps
    &&& validation.links@.len() == request.requested@.len()
    &&& forall|k: int|
        0 <= k < request.requested@.len() ==> (#[trigger] validation.links@[k]).0@
            == request.requested@[k].0@ && validation.links@[k].1@ == target_text(
            request.requested@[k].1,
        )
    &&& texts(validation.defer_links@) == texts(request.deferred@) + required_of(
        request.pairing_deps@,
        keys_of(request.covered@),
    )
    &&& validation.already_paired@.len() == 2 * live_pairs.len()
    &&& forall|k: int|
        0 <= k < live_pairs.len() ==> (#[trigger] validation.already_paired@[2 * k]).0@
            == live_pairs[k].a.slot@ && validation.already_paired@[2 * k].1@ == slot_text(
            live_pairs[k].b.slot@,
        )
    &&& forall|k: int|
        0 <= k < live_pairs.len() ==> (#[trigger] validation.already_paired@[2 * k + 1]).0@
            == live_pairs[k].b.slot@ && validation.already_paired@[2 * k + 1].1@ == slot_text(
            live_pairs[k].a.slot@,
        )
}

/// Whether a planning result is what the validator's answer amounts to: its
/// report where it found anything wrong, else its pairs.
pub open spec fn answers(validated: Validated, r: Result<Vec<PlannedPair>, String>) -> bool {
    if validated.errors@.len() > 0 {
        r matches Err(text) && text@ == validated.report@
    } else {
        r matches Ok(pairs) && pairs@.len() == validated.planned@.len() && forall|k: int|
            0 <= k < validated.planned@.len() ==> (#[trigger] pairs@[k])@ == (
                validated.planned@[k].0@,
                validated.planned@[k].1@,
            )
    }
}

/// The keys of a list of link requests.
fn link_keys(list: &Vec<(String, PairTarget)>) -> (r: Vec<String>)
    ensures
        texts(r@) == keys_of(list@),
{
    let mut out: Vec<String> = Vec::new();
    let mut i: usize = 0;
    while i < list.len()
        invariant
            i <= list@.len(),
            out@.len() == i,
            forall|k: int| 0 <= k < i ==> (#[trigger] out@[k])@ == list@[k].0@,
        decreases list.len() - i,
    {
        out.push(list[i].0.clone());
        i += 1;
    }
    proof {
        assert(texts(out@) =~= keys_of(list@));
    }
    out
}

/// The declared participant slots, in order.
fn participant_slots(deps: &Vec<PairingDep>) -> (r: Vec<String>)
    ensures
        ascending(texts(r@)),
        forall|link: Seq<char>| texts(r@).contains(link) == participates(deps@, link),
{
    let mut out: Vec<String> = Vec::new();
    let mut i: usize = 0;
    while i < deps.len()
        invariant
            i <= deps@.len(),
            ascending(texts(out@)),
            forall|link: Seq<char>|
                texts(out@).contains(link) == participates(deps@.take(i as int), link),
        decreases deps.len() - i,
    {
        let ghost before = texts(out@);
        let ghost seen = deps@.take(i as int);
        let ghost now = deps@.take(i + 1);
        if deps[i].participant {
            let _fresh = insert_text(&mut out, deps[i].link_id.clone());
            proof {
                let after = texts(out@);
                assert forall|link: Seq<char>| after.contains(link) == participates(now, link) by {
                    assert(after.contains(link) == after.to_set().contains(link));
                    assert(before.contains(link) == before.to_set().contains(link));
                    if participates(seen, link) {
                        let k = choose|k: int|
                            0 <= k < seen.len() && (#[trigger] seen[k]).participant
                                && seen[k].link_id@ == link;
                        assert(now[k] == seen[k]);
                    }
                    if link == deps@[i as int].link_id@ {
                        assert(now[i as int] == deps@[i as int]);
                    }
                    if participates(now, link) {
                        let k = choose|k: int|
                            0 <= k < now.len() && (#[trigger] now[k]).participant
                                && now[k].link_id@ == link;
                        if k < i {
                            assert(seen[k] == now[k]);
                        }
                    }
                }
            }
        } else {
            proof {
                assert forall|link: Seq<char>| before.contains(link) == participates(now, link) by {
                    if participates(seen, link) {
                        let k = choose|k: int|
                            0 <= k < seen.len() && (#[trigger] seen[k]).participant
                                && seen[k].link_id@ == link;
                        assert(now[k] == seen[k]);
                    }
                    if participates(now, link) {
                        let k = choose|k: int|
                            0 <= k < now.len() && (#[trigger] now[k]).participant
                                && now[k].link_id@ == link;
                        assert(seen[k] == now[k]);
                    }
                }
            }
        }
        i += 1;
    }
    proof {
        assert(deps@.take(deps@.len() as int) =~= deps@);
    }
    out
}

/// Whether the manifest declares `link` as an optional slot of a pair.
fn is_optional_slot(deps: &Vec<PairingDep>, link: &str) -> (r: bool)
    ensures
        r == optional_slot(deps@, link@),
{
    let mut i: usize = 0;
    while i < deps.len()
        invariant
            i <= deps@.len(),
            forall|k: int|
                0 <= k < i ==> !((#[trigger] deps@[k]).participant && deps@[k].optional
                    && deps@[k].link_id@ == link@),
        decreases deps.len() - i,
    {
        if deps[i].participant && deps[i].optional && str_eq(deps[i].link_id.as_str(), link) {
            return true;
        }
        i += 1;
    }
    false
}

/// The slots that count as deferred: the deferred ones, then the covered ones
/// that are not optional.
fn defer_like(request: &PairingRequest) -> (r: Vec<String>)
    ensures
        texts(r@) == texts(request.deferred@) + required_of(
            request.pairing_deps@,
            keys_of(request.covered@),
        ),
{
    let mut out: Vec<String> = Vec::new();
    let mut i: usize = 0;
    while i < request.deferred.len()
        invariant
            i <= request.deferred@.len(),
            texts(out@) == texts(request.deferred@).take(i as int),
        decreases request.deferred.len() - i,
    {
        let ghost before = texts(out@);
        out.push(request.deferred[i].clone());
        proof {
            let all = texts(request.deferred@);
            assert(texts(out@) =~= before.push(all[i as int]));
            assert(all.take(i + 1) =~= all.take(i as int).push(all[i as int]));
        }
        i += 1;
    }
    let keys = link_keys(request.covered);
    let ghost links = keys_of(request.covered@);
    let mut j: usize = 0;
    proof {
        assert(texts(out@) =~= texts(request.deferred@) + required_of(
            request.pairing_deps@,
            links.take(0),
        ));
    }
    while j < keys.len()
        invariant
            j <= keys@.len(),
            texts(keys@) == links,
            texts(out@) == texts(request.deferred@) + required_of(
                request.pairing_deps@,
                links.take(j as int),
            ),
        decreases keys.len() - j,
    {
        let ghost before = texts(out@);
        proof {
            assert(links.take(j + 1).drop_last() =~= links.take(j as int));
            assert(links[j as int] == keys@[j as int]@);
        }
        if !is_optional_slot(request.pairing_deps, keys[j].as_str()) {
            out.push(keys[j].clone());
            proof {
                assert(texts(out@) =~= before.push(links[j as int]));
                assert(texts(out@) =~= texts(request.deferred@) + required_of(
                    request.pairing_deps@,
                    links.take(j + 1),
                ));
            }
        }
        j += 1;
    }
    proof {
        assert(links.take(links.len() as int) =~= links);
    }
    out
}

/// The slots that live pairs hold, each with the slot across from it.
fn held_slots(live_pairs: &Vec<Pairing>) -> (r: Vec<(SlotAddr, String)>)
    ensures
        r@.len() == 2 * live_pairs@.len(),
        forall|k: int|
            0 <= k < live_pairs@.len() ==> (#[trigger] r@[2 * k]).0@ == live_pairs@[k].a.slot@
                && r@[2 * k].1@ == slot_text(live_pairs@[k].b.slot@),
        forall|k: int|
            0 <= k < live_pairs@.len() ==> (#[trigger] r@[2 * k + 1]).0@ == live_pairs@[k].b.slot@
                && r@[2 * k + 1].1@ == slot_text(live_pairs@[k].a.slot@),
{
    let mut out: Vec<(SlotAddr, String)> = Vec::new();
    let mut i: usize = 0;
    while i < live_pairs.len()
        invariant
            i <= live_pairs@.len(),
            out@.len() == 2 * i,
            forall|k: int|
                0 <= k < i ==> (#[trigger] out@[2 * k]).0@ == live_pairs@[k].a.slot@ && out@[2
                    * k].1@ == slot_text(live_pairs@[k].b.slot@),
            forall|k: int|
                0 <= k < i ==> (#[trigger] out@[2 * k + 1]).0@ == live_pairs@[k].b.slot@ && out@[2
                    * k + 1].1@ == slot_text(live_pairs@[k].a.slot@),
        decreases live_pairs.len() - i,
    {
        let pair = &live_pairs[i];
        out.push((pair.a.slot.clone(), pair.b.slot.label()));
        out.push((pair.b.slot.clone(), pair.a.slot.label()));
        i += 1;
    }
    out
}

/// Whether this is an answer to why an id is no name.
pub open spec fn names<N: Fn(&str) -> Option<String>>(
    name_problem: N,
    id: Seq<char>,
    answer: Option<String>,
) -> bool {
    exists|asked: &str| asked@ == id && #[trigger] name_problem.ensures((asked,), answer)
}

/// Whether every id of the nodes that are there is a name.
pub open spec fn ids_are_names<N: Fn(&str) -> Option<String>>(
    nodes: Seq<PairingNodeSnapshot>,
    name_problem: N,
) -> bool {
    forall|i: int, j: int|
        0 <= i < nodes.len() && 0 <= j < nodes[i].instance_ids@.len() ==> names(
            name_problem,
            (#[trigger] nodes[i].instance_ids@[j])@,
            None,
        )
}

/// Whether an id of the nodes that are there is none, and the text names the first
/// such id.
pub open spec fn refused_for_id<N: Fn(&str) -> Option<String>>(
    nodes: Seq<PairingNodeSnapshot>,
    name_problem: N,
    text: Seq<char>,
) -> bool {
    exists|i: int, j: int, why: String|
        0 <= i < nodes.len() && 0 <= j < nodes[i].instance_ids@.len() && #[trigger] names(
            name_problem,
            nodes[i].instance_ids@[j]@,
            Some(why),
        ) && text == "invalid instance id `"@ + nodes[i].instance_ids@[j]@ + "` in stack: "@ + why@
            && forall|a: int, b: int|
            0 <= a <= i && 0 <= b < nodes[a].instance_ids@.len() && (a < i || b < j) ==> names(
                name_problem,
                (#[trigger] nodes[a].instance_ids@[b])@,
                None,
            )
}

/// Why an id of the nodes that are there is no name, where one is none.
fn refuse_ids<N: Fn(&str) -> Option<String>>(
    nodes: &Vec<PairingNodeSnapshot>,
    name_problem: &N,
) -> (r: Option<String>)
    requires
        forall|id: &str| #[trigger] name_problem.requires((id,)),
    ensures
        match r {
            Some(text) => refused_for_id(nodes@, *name_problem, text@),
            None => ids_are_names(nodes@, *name_problem),
        },
{
    let mut i: usize = 0;
    while i < nodes.len()
        invariant
            i <= nodes@.len(),
            forall|id: &str| #[trigger] name_problem.requires((id,)),
            forall|a: int, b: int|
                0 <= a < i && 0 <= b < nodes@[a].instance_ids@.len() ==> names(
                    *name_problem,
                    (#[trigger] nodes@[a].instance_ids@[b])@,
                    None,
                ),
        decreases nodes.len() - i,
    {
        let mut j: usize = 0;
        while j < nodes[i].instance_ids.len()
            invariant
                i < nodes@.len(),
                j <= nodes@[i as int].instance_ids@.len(),
                forall|id: &str| #[trigger] name_problem.requires((id,)),
                forall|a: int, b: int|
                    0 <= a <= i && 0 <= b < nodes@[a].instance_ids@.len() && (a < i || b < j)
                        ==> names(
                        *name_problem,
                        (#[trigger] nodes@[a].instance_ids@[b])@,
                        None,
                    ),
            decreases nodes@[i as int].instance_ids.len() - j,
        {
            let id = nodes[i].instance_ids[j].as_str();
            let answer = name_problem(id);
            proof {
                assert(id@ == nodes@[i as int].instance_ids@[j as int]@);
                assert(name_problem.ensures((id,), answer));
                assert(names(*name_problem, nodes@[i as int].instance_ids@[j as int]@, answer));
            }
            if let Some(why) = answer {
                let mut text: String = "invalid instance id `".to_owned();
                text.append(id);
                text.append("` in stack: ");
                text.append(why.as_str());
                proof {
                    assert(names(
                        *name_problem,
                        nodes@[i as int].instance_ids@[j as int]@,
                        Some(why),
                    ));
                    assert(refused_for_id(nodes@, *name_problem, text@));
                }
                return Some(text);
            }
            j += 1;
        }
        i += 1;
    }
    None
}

/// The daemon's check of a run goal's pairing arguments, before anything is
/// spawned, and the concrete pairs they resolve to. `snapshot` are the nodes that
/// are there and their live instances; the new instance is not one of them.
///
/// A request that targets its own instance is refused first, then a key that
/// names no participant slot, then an id for which `name_problem` says why it is
/// no name: the new instance's, or one of the stack's. What is left goes to
/// `validate`, the rule set shared with the launcher: covered slots count as
/// deferred there unless they are optional.
pub fn plan_requested_pairs<
    N: Fn(&str) -> Option<String>,
    F: Fn(&PairingValidation) -> Validated,
>(
    snapshot: &Vec<PairingNodeSnapshot>,
    live_pairs: &Vec<Pairing>,
    request: &PairingRequest,
    name_problem: &N,
    validate: F,
) -> (r: Result<Vec<PlannedPair>, String>)
    requires
        forall|id: &str| #[trigger] name_problem.requires((id,)),
        forall|validation: PairingValidation| #[trigger] validate.requires((&validation,)),
    ensures
        targets_itself(*request) ==> (r matches Err(text) && refused_as_own(*request, text@)),
        !targets_itself(*request) && !all_declared(*request) ==> (r matches Err(text)
            && refused_as_stray(*request, text@)),
        !targets_itself(*request) && all_declared(*request) ==> {
            ||| exists|why: String|
                #[trigger] names(*name_problem, request.instance_id@, Some(why)) && (
                r matches Err(text) && text@ == "invalid instance id `"@ + request.instance_id@
                    + "`: "@ + why@)
            ||| names(*name_problem, request.instance_id@, None) && (r matches Err(text)
                && refused_for_id(snapshot@, *name_problem, text@))
            ||| names(*name_problem, request.instance_id@, None) && ids_are_names(
                snapshot@,
                *name_problem,
            ) && exists|validation: PairingValidation, validated: Validated|
                asks_for(validation, *snapshot, live_pairs@, *request)
                    && #[trigger] validate.ensures((&validation,), validated) && answers(
                    validated,
                    r,
                )
        },
{
    let mut i: usize = 0;
    while i < request.requested.len()
        invariant
            i <= request.requested@.len(),
            forall|k: int|
                0 <= k < i ==> (#[trigger] request.requested@[k]).1.peer_instance_id@
                    != request.instance_id@,
        decreases request.requested.len() - i,
    {
        if str_eq(request.requested[i].1.peer_instance_id.as_str(), request.instance_id) {
            let mut text: String = "pairing slot `".to_owned();
            text.append(request.requested[i].0.as_str());
            text.append("` targets its own instance '");
            text.append(request.instance_id);
            text.append("'; a pair joins two distinct instances");
            proof {
                assert(refused_as_own(*request, text@)) by {
                    let entry = request.requested@[i as int];
                }
            }
            return Err(text);
        }
        i += 1;
    }
    let declared = participant_slots(request.pairing_deps);
    let mut keys = link_keys(request.requested);
    let mut covered = link_keys(request.covered);
    let mut deferred = request.deferred.clone();
    proof {
        assert(deferred@ =~= request.deferred@) by {
            assert forall|k: int| 0 <= k < request.deferred@.len() implies deferred@[k]
                == request.deferred@[k] by {
                assert(cloned::<String>(request.deferred@[k], deferred@[k]));
            }
        }
    }
    keys.append(&mut covered);
    keys.append(&mut deferred);
    proof {
        assert(texts(keys@) =~= named_slots(*request));
    }
    let mut j: usize = 0;
    while j < keys.len()
        invariant
            j <= keys@.len(),
            texts(keys@) == named_slots(*request),
            ascending(texts(declared@)),
            forall|link: Seq<char>|
                texts(declared@).contains(link) == participates(request.pairing_deps@, link),
            forall|k: int|
                0 <= k < j ==> participates(
                    request.pairing_deps@,
                    #[trigger] named_slots(*request)[k],
                ),
            !targets_itself(*request),
        decreases keys.len() - j,
    {
        proof {
            assert(named_slots(*request)[j as int] == keys@[j as int]@);
        }
        if !has_text(&declared, keys[j].as_str()) {
            let mut text: String = "pairing slot `".to_owned();
            text.append(keys[j].as_str());
            text.append("` on instance '");
            text.append(request.instance_id);
            text.append("' matches no declared participant pairing slot; declared: [");
            text.append(crate::text::join(&declared, ", ").as_str());
            text.append("]");
            proof {
                assert(text@ == stray_slot_text(
                    named_slots(*request)[j as int],
                    request.instance_id@,
                    texts(declared@),
                ));
                assert(refused_as_stray(*request, text@));
                assert(!all_declared(*request));
            }
            return Err(text);
        }
        j += 1;
    }
    let answer = name_problem(request.instance_id);
    proof {
        assert(name_problem.ensures((request.instance_id,), answer));
        assert(names(*name_problem, request.instance_id@, answer));
    }
    if let Some(why) = answer {
        let mut text: String = "invalid instance id `".to_owned();
        text.append(request.instance_id);
        text.append("`: ");
        text.append(why.as_str());
        proof {
            assert(names(*name_problem, request.instance_id@, Some(why)));
        }
        return Err(text);
    }
    if let Some(text) = refuse_ids(snapshot, name_problem) {
        return Err(text);
    }
    let mut links: Vec<(String, String)> = Vec::new();
    let mut m: usize = 0;
    while m < request.requested.len()
        invariant
            m <= request.requested@.len(),
            links@.len() == m,
            forall|k: int|
                0 <= k < m ==> (#[trigger] links@[k]).0@ == request.requested@[k].0@
                    && links@[k].1@ == target_text(request.requested@[k].1),
        decreases request.requested.len() - m,
    {
        links.push((request.requested[m].0.clone(), request.requested[m].1.render()));
        m += 1;
    }
    let validation = PairingValidation {
        snapshot,
        node_name: request.node_name,
        node_tag: request.node_tag,
        instance_id: request.instance_id,
        pairing_deps: request.pairing_deps,
        links,
        defer_links: defer_like(request),
        already_paired: held_slots(live_pairs),
    };
    let validated = validate(&validation);
    finish_plan(validated)
}

/// What the validator's answer amounts to: its report where it found anything
/// wrong, else its pairs, the new instance's slot first.
pub fn finish_plan(validated: Validated) -> (r: Result<Vec<PlannedPair>, String>)
    ensures
        answers(validated, r),
{
    if validated.errors.len() > 0 {
        return Err(validated.report);
    }
    let mut pairs: Vec<PlannedPair> = Vec::new();
    let mut i: usize = 0;
    while i < validated.planned.len()
        invariant
            i <= validated.planned@.len(),
            pairs@.len() == i,
            forall|k: int|
                0 <= k < i ==> (#[trigger] pairs@[k])@ == (
                    validated.planned@[k].0@,
                    validated.planned@[k].1@,
                ),
        decreases validated.planned.len() - i,
    {
        let pair = &validated.planned[i];
        pairs.push(PlannedPair { own: pair.0.clone(), peer: pair.1.clone() });
        i += 1;
    }
    Ok(pairs)
}

/// The pairs of a list that have an endpoint on the instance, in order.
pub open spec fn involving(pairs: Seq<Pairing>, instance_id: Seq<char>) -> Seq<Pairing>
    decreases pairs.len(),
{
    if pairs.len() == 0 {
        Seq::empty()
    } else {
        let before = involving(pairs.drop_last(), instance_id);
        if involves(pairs.last()@, instance_id) {
            before.push(pairs.last())
        } else {
            before
        }
    }
}

/// The refusal of a delivery whose planned pair is gone.
pub open spec fn dissolved_text(
    plan: ((Seq<char>, Seq<char>), (Seq<char>, Seq<char>)),
) -> Seq<char> {
    "pair `"@ + slot_text(plan.0) + " ⇌ "@ + slot_text(plan.1)
        + "` was dissolved before delivery completed (its peer was stopped or unpaired concurrently)"@
}

/// Whether every plan of a list has its pair.
pub open spec fn all_present(pairs: Seq<Pairing>, planned: Seq<PlannedPair>) -> bool {
    forall|k: int| 0 <= k < planned.len() ==> plan_present(pairs, #[trigger] planned[k]@)
}

/// What `deliver_pairs_for_instance` sets out to deliver: the registry's
/// pairs with an endpoint on the instance. A pair that was planned and has
/// been dissolved since refuses the whole delivery.
pub fn pairs_to_deliver(
    registry: Vec<Pairing>,
    instance_id: &str,
    planned: &Vec<PlannedPair>,
) -> (r: Result<Vec<Pairing>, String>)
    ensures
        match r {
            Ok(pairs) => pairs@ == involving(registry@, instance_id@) && forall|k: int|
                0 <= k < planned@.len() ==> plan_present(
                    involving(registry@, instance_id@),
                    #[trigger] planned@[k]@,
                ),
            Err(text) => exists|i: int|
                0 <= i < planned@.len() && !plan_present(
                    involving(registry@, instance_id@),
                    #[trigger] planned@[i]@,
                ) && (forall|k: int|
                    0 <= k < i ==> plan_present(
                        involving(registry@, instance_id@),
                        #[trigger] planned@[k]@,
                    )) && text@ == dissolved_text(planned@[i]@),
        },
        r is Ok <==> all_present(involving(registry@, instance_id@), planned@),
{
    let mut pairs: Vec<Pairing> = Vec::new();
    let ghost all = registry@;
    for pair in it: registry
        invariant
            it.seq() == all,
            pairs@ == involving(all.take(it.index() as int), instance_id@),
    {
        proof {
            let i = it.index() as int;
            assert(all.take(i + 1).drop_last() =~= all.take(i));
            assert(all.take(i + 1).last() == pair);
        }
        if pair.involves_instance(instance_id) {
            pairs.push(pair);
        }
    }
    proof {
        assert(all.take(all.len() as int) =~= all);
    }
    if let Some(missing) = find_missing_planned_pair(&pairs, planned) {
        let mut text: String = "pair `".to_owned();
        text.append(missing.own.label().as_str());
        text.append(" ⇌ ");
        text.append(missing.peer.label().as_str());
        text.append(
            "` was dissolved before delivery completed (its peer was stopped or unpaired concurrently)",
        );
        return Err(text);
    }
    Ok(pairs)
}

/// What came of offering one endpoint of a pair its pin.
pub enum SideOutcome {
    /// The endpoint's instance is not live; it takes its pins from its own
    /// start.
    NotLive,
    /// The endpoint took the pin, or a newer state had already reached it.
    Taken,
    /// The delivery failed, and why.
    Failed(String),
}

/// What follows the offer to one endpoint.
pub enum DeliveryStep {
    /// Offer the second endpoint its pin.
    OfferSecond,
    /// Both endpoints are served.
    Done,
    /// Take the pair out of the registry at `clear`, tell `notify` that it is
    /// unpaired, and fail with `error`.
    Revert { clear: SlotAddr, notify: Option<SlotAddr>, error: String },
}

/// The pin that one endpoint of a pair is offered: the peer's core node,
/// instance and link id.
pub struct PeerPin {
    pub core_node: String,
    pub peer_instance_id: String,
    pub peer_link_id: String,
}

/// The slot that is offered its pin: `a`'s first, then `b`'s.
pub open spec fn offered(pairing: Pairing, second: bool) -> (Seq<char>, Seq<char>) {
    if second {
        pairing.b.slot@
    } else {
        pairing.a.slot@
    }
}

/// The pin that one endpoint of a pair is offered.
pub fn pin_for(pairing: &Pairing, second: bool, core_node: &str) -> (r: PeerPin)
    ensures
        r.core_node@ == core_node@,
        (r.peer_instance_id@, r.peer_link_id@) == offered(*pairing, !second),
{
    let peer = if second {
        &pairing.a
    } else {
        &pairing.b
    };
    PeerPin {
        core_node: core_node.to_owned(),
        peer_instance_id: peer.slot.instance_id.clone(),
        peer_link_id: peer.slot.link_id.clone(),
    }
}

/// What follows the offer to one endpoint of a pair. A failure reverts the
/// pair; an endpoint that was served before it is told so.
pub fn after_offer(pairing: &Pairing, second: bool, outcome: SideOutcome) -> (r: DeliveryStep)
    ensures
        match outcome {
            SideOutcome::NotLive | SideOutcome::Taken => r == if second {
                DeliveryStep::Done
            } else {
                DeliveryStep::OfferSecond
            },
            SideOutcome::Failed(reason) => r matches DeliveryStep::Revert { clear, notify, error }
                && clear@ == offered(*pairing, second) && error@
                == "failed to deliver pair `"@ + pair_text(pairing@) + "` to instance '"@
                + offered(*pairing, second).0 + "': "@ + reason@ && (if second {
                notify matches Some(slot) && slot@ == offered(*pairing, false)
            } else {
                notify is None
            }),
        },
{
    match outcome {
        SideOutcome::NotLive | SideOutcome::Taken => if second {
            DeliveryStep::Done
        } else {
            DeliveryStep::OfferSecond
        },
        SideOutcome::Failed(reason) => {
            let endpoint = if second {
                &pairing.b
            } else {
                &pairing.a
            };
            let mut error: String = "failed to deliver pair `".to_owned();
            error.append(pairing_label(pairing).as_str());
            error.append("` to instance '");
            error.append(endpoint.slot.instance_id.as_str());
            error.append("': ");
            error.append(reason.as_str());
            let notify = if second {
                Some(pairing.a.slot.clone())
            } else {
                None
            };
            DeliveryStep::Revert { clear: endpoint.slot.clone(), notify, error }
        },
    }
}

/// The slots across from an instance's in a list of pairs, in order.
pub open spec fn survivors_of(
    dissolved: Seq<Pairing>,
    instance_id: Seq<char>,
) -> Seq<(Seq<char>, Seq<char>)>
    decreases dissolved.len(),
{
    if dissolved.len() == 0 {
        Seq::empty()
    } else {
        let before = survivors_of(dissolved.drop_last(), instance_id);
        let pair = dissolved.last()@;
        let first = if pair.0.0 == instance_id {
            before
        } else {
            before.push(pair.0)
        };
        if pair.1.0 == instance_id {
            first
        } else {
            first.push(pair.1)
        }
    }
}

/// The addresses of a list of slots.
pub open spec fn slots(list: Seq<SlotAddr>) -> Seq<(Seq<char>, Seq<char>)> {
    list.map_values(|slot: SlotAddr| slot@)
}

/// Who is told that it is unpaired once an instance's pairs are dissolved:
/// every endpoint on another instance, in order.
pub fn survivors(dissolved: &Vec<Pairing>, instance_id: &str) -> (r: Vec<SlotAddr>)
    ensures
        slots(r@) == survivors_of(dissolved@, instance_id@),
{
    let mut out: Vec<SlotAddr> = Vec::new();
    let mut i: usize = 0;
    proof {
        assert(slots(out@) =~= survivors_of(dissolved@.take(0), instance_id@));
    }
    while i < dissolved.len()
        invariant
            i <= dissolved@.len(),
            slots(out@) == survivors_of(dissolved@.take(i as int), instance_id@),
        decreases dissolved.len() - i,
    {
        let pair = &dissolved[i];
        proof {
            assert(dissolved@.take(i + 1).drop_last() =~= dissolved@.take(i as int));
        }
        let ghost before = slots(out@);
        if !str_eq(pair.a.slot.instance_id.as_str(), instance_id) {
            out.push(pair.a.slot.clone());
            proof {
                assert(slots(out@) =~= before.push(pair.a.slot@));
            }
        }
        let ghost middle = slots(out@);
        if !str_eq(pair.b.slot.instance_id.as_str(), instance_id) {
            out.push(pair.b.slot.clone());
            proof {
                assert(slots(out@) =~= middle.push(pair.b.slot@));
            }
        }
        i += 1;
    }
    proof {
        assert(dissolved@.take(dissolved@.len() as int) =~= dissolved@);
    }
    out
}

/// Dissolving an instance's pairs tells nobody on that instance, and tells an
/// endpoint of every pair that it was in.
pub proof fn dissolving_tells_every_survivor(dissolved: Seq<Pairing>, instance_id: Seq<char>)
    ensures
        forall|k: int|
            0 <= k < survivors_of(dissolved, instance_id).len() ==> (#[trigger] survivors_of(
                dissolved,
                instance_id,
            )[k]).0 != instance_id,
        forall|k: int|
            0 <= k < dissolved.len() && (#[trigger] dissolved[k]).a.slot.instance_id@
                != instance_id ==> survivors_of(dissolved, instance_id).contains(
                dissolved[k].a.slot@,
            ),
        forall|k: int|
            0 <= k < dissolved.len() && (#[trigger] dissolved[k]).b.slot.instance_id@
                != instance_id ==> survivors_of(dissolved, instance_id).contains(
                dissolved[k].b.slot@,
            ),
    decreases dissolved.len(),
{
    if dissolved.len() > 0 {
        let init = dissolved.drop_last();
        dissolving_tells_every_survivor(init, instance_id);
        let before = survivors_of(init, instance_id);
        let all = survivors_of(dissolved, instance_id);
        assert forall|x: (Seq<char>, Seq<char>)| before.contains(x) implies all.contains(x) by {
            let k = choose|k: int| 0 <= k < before.len() && before[k] == x;
            assert(all[k] == x);
        }
        assert forall|k: int|
            0 <= k < dissolved.len() && (#[trigger] dissolved[k]).a.slot.instance_id@
                != instance_id implies all.contains(dissolved[k].a.slot@) by {
            if k < init.len() {
                assert(init[k] == dissolved[k]);
            } else {
                assert(all[before.len() as int] == dissolved[k].a.slot@);
            }
        }
        assert forall|k: int|
            0 <= k < dissolved.len() && (#[trigger] dissolved[k]).b.slot.instance_id@
                != instance_id implies all.contains(dissolved[k].b.slot@) by {
            if k < init.len() {
                assert(init[k] == dissolved[k]);
            } else {
                assert(all[all.len() - 1] == dissolved[k].b.slot@);
            }
        }
    }
}

/// A plan is made only where no slot is asked to pair with its own instance, and every
/// slot that is requested, covered or deferred is one that the manifest declares as
/// taking part in pairs.
pub proof fn only_declared_slots_are_planned<
    N: Fn(&str) -> Option<String>,
    F: Fn(&PairingValidation) -> Validated,
>(
    snapshot: Vec<PairingNodeSnapshot>,
    live_pairs: Vec<Pairing>,
    request: PairingRequest,
    name_problem: N,
    validate: F,
    r: Result<Vec<PlannedPair>, String>,
)
    requires
        call_ensures(
            plan_requested_pairs::<N, F>,
            (&snapshot, &live_pairs, &request, &name_problem, validate),
            r,
        ),
    ensures
        r is Ok ==> forall|i: int|
            0 <= i < request.requested@.len() ==> (
            #[trigger] request.requested@[i]).1.peer_instance_id@ != request.instance_id@
                && is_declared(request.pairing_deps@, request.requested@[i].0@),
        r is Ok ==> forall|i: int|
            0 <= i < request.covered@.len() ==> is_declared(
                request.pairing_deps@,
                (#[trigger] request.covered@[i]).0@,
            ),
        r is Ok ==> forall|i: int|
            0 <= i < request.deferred@.len() ==> is_declared(
                request.pairing_deps@,
                (#[trigger] request.deferred@[i])@,
            ),
        targets_itself(request) ==> (r matches Err(text) && mentions(text@, request.instance_id@)),
{
    if targets_itself(request) {
        if let Err(text) = r {
            let i = choose|i: int|
                0 <= i < request.requested@.len() && (
                #[trigger] request.requested@[i]).1.peer_instance_id@ == request.instance_id@ && (
                forall|k: int|
                    0 <= k < i ==> (#[trigger] request.requested@[k]).1.peer_instance_id@
                        != request.instance_id@) && text@ == self_target_text(
                    request.requested@[i].0@,
                    request.instance_id@,
                );
            let link = request.requested@[i].0@;
            what_is_written_is_mentioned(
                "pairing slot `"@ + link + "` targets its own instance '"@,
                request.instance_id@,
                "'; a pair joins two distinct instances"@,
            );
        }
    }
    if r is Ok {
        let all = named_slots(request);
        let first = keys_of(request.requested@);
        let second = keys_of(request.covered@);
        assert(all_declared(request));
        assert forall|i: int| 0 <= i < request.requested@.len() implies (
        #[trigger] request.requested@[i]).1.peer_instance_id@ != request.instance_id@
            && is_declared(request.pairing_deps@, request.requested@[i].0@) by {
            assert(all[i] == request.requested@[i].0@);
            assert(participates(request.pairing_deps@, all[i]));
            lemma_declared(request.pairing_deps@, all[i]);
        }
        assert forall|i: int| 0 <= i < request.covered@.len() implies is_declared(
            request.pairing_deps@,
            (#[trigger] request.covered@[i]).0@,
        ) by {
            assert(all[first.len() + i] == request.covered@[i].0@);
            lemma_declared(request.pairing_deps@, all[first.len() + i]);
        }
        assert forall|i: int| 0 <= i < request.deferred@.len() implies is_declared(
            request.pairing_deps@,
            (#[trigger] request.deferred@[i])@,
        ) by {
            assert(all[first.len() + second.len() + i] == request.deferred@[i]@);
            lemma_declared(request.pairing_deps@, all[first.len() + second.len() + i]);
        }
    }
}

/// Whether a slot is among those that take part in pairs.
pub open spec fn is_declared(deps: Seq<PairingDep>, link: Seq<char>) -> bool {
    !(forall|k: int|
        0 <= k < deps.len() ==> !(#[trigger] deps[k]).participant || deps[k].link_id@ != link)
}

/// A slot that participates is declared.
proof fn lemma_declared(deps: Seq<PairingDep>, link: Seq<char>)
    requires
        participates(deps, link),
    ensures
        is_declared(deps, link),
{
}

/// Whether a validation asks for every slot as a request has it: each requested link
/// with the instance, and the slot of it, that it targets; each deferred slot, and each covered one that is
/// not optional, as deferred, and no other; and both slots of every live pair as taken.
pub open spec fn asks_for_all(
    validation: PairingValidation,
    live_pairs: Seq<Pairing>,
    request: PairingRequest,
) -> bool {
    &&& forall|k: int|
        0 <= k < request.requested@.len() ==> (#[trigger] validation.links@[k]).0@
            == request.requested@[k].0@ && validation.links@[k].1@ == (match request.requested@[k].1.peer_link_id {
            Some(link) => request.requested@[k].1.peer_instance_id@ + "/"@ + link@,
            None => request.requested@[k].1.peer_instance_id@,
        })
    &&& validation.links@.len() == request.requested@.len()
    &&& forall|j: int|
        0 <= j < validation.defer_links@.len() ==> is_put_off(
            request,
            (#[trigger] validation.defer_links@[j])@,
        )
    &&& forall|k: int|
        0 <= k < request.deferred@.len() ==> texts(validation.defer_links@).contains(
            (#[trigger] request.deferred@[k])@,
        )
    &&& forall|k: int|
        0 <= k < request.covered@.len() && !may_stay_open(
            request.pairing_deps@,
            (#[trigger] request.covered@[k]).0@,
        ) ==> texts(validation.defer_links@).contains(request.covered@[k].0@)
    &&& forall|k: int|
        0 <= k < live_pairs.len() ==> is_taken(validation, (#[trigger] live_pairs[k]).a.slot@)
            && is_taken(validation, live_pairs[k].b.slot@)
}

/// Whether a request puts a slot off: it defers it, or has it covered though it is not
/// optional.
pub open spec fn is_put_off(request: PairingRequest, link: Seq<char>) -> bool {
    (exists|k: int| 0 <= k < request.deferred@.len() && (#[trigger] request.deferred@[k])@ == link)
        || (exists|k: int|
        0 <= k < request.covered@.len() && (#[trigger] request.covered@[k]).0@ == link
            && !may_stay_open(request.pairing_deps@, link))
}

/// Whether a slot that takes part in pairs is declared as one that may stay open.
pub open spec fn may_stay_open(deps: Seq<PairingDep>, link: Seq<char>) -> bool {
    !(forall|k: int|
        0 <= k < deps.len() ==> !(#[trigger] deps[k]).participant || !deps[k].optional
            || deps[k].link_id@ != link)
}

/// The slots that may stay open are the optional ones.
proof fn lemma_may_stay_open(deps: Seq<PairingDep>, link: Seq<char>)
    ensures
        may_stay_open(deps, link) <==> optional_slot(deps, link),
{
}

/// Whether a validation is told that a slot is taken.
pub open spec fn is_taken(validation: PairingValidation, slot: (Seq<char>, Seq<char>)) -> bool {
    exists|k: int|
        0 <= k < validation.already_paired@.len() && (
        #[trigger] validation.already_paired@[k]).0@ == slot
}

/// A plan is what the shared rules say of the whole request: they are asked for all of
/// it, find nothing wrong, and their pairs are the plan, in order.
pub proof fn a_plan_is_what_the_rules_allow<
    N: Fn(&str) -> Option<String>,
    F: Fn(&PairingValidation) -> Validated,
>(
    snapshot: Vec<PairingNodeSnapshot>,
    live_pairs: Vec<Pairing>,
    request: PairingRequest,
    name_problem: N,
    validate: F,
    pairs: Vec<PlannedPair>,
)
    requires
        call_ensures(
            plan_requested_pairs::<N, F>,
            (&snapshot, &live_pairs, &request, &name_problem, validate),
            Ok(pairs),
        ),
    ensures
        exists|validation: PairingValidation, validated: Validated|
            #[trigger] validate.ensures((&validation,), validated) && asks_for_all(
                validation,
                live_pairs@,
                request,
            ) && validated.errors@.len() == 0 && pairs@.len() == validated.planned@.len() && forall|
                k: int,
            |
                0 <= k < pairs@.len() ==> (#[trigger] pairs@[k]).own@ == validated.planned@[k].0@
                    && pairs@[k].peer@ == validated.planned@[k].1@,
{
    let r: Result<Vec<PlannedPair>, String> = Ok(pairs);
    let (validation, validated) = choose|validation: PairingValidation, validated: Validated|
        asks_for(validation, snapshot, live_pairs@, request) && #[trigger] validate.ensures(
            (&validation,),
            validated,
        ) && answers(validated, r);
    let deferred = texts(request.deferred@);
    let links = keys_of(request.covered@);
    let required = required_of(request.pairing_deps@, links);
    lemma_required(request.pairing_deps@, links);
    let all = texts(validation.defer_links@);
    assert forall|k: int| 0 <= k < request.deferred@.len() implies all.contains(
        (#[trigger] request.deferred@[k])@,
    ) by {
        assert(all[k] == deferred[k]);
    }
    assert forall|k: int|
        0 <= k < request.covered@.len() && !may_stay_open(
            request.pairing_deps@,
            (#[trigger] request.covered@[k]).0@,
        ) implies all.contains(request.covered@[k].0@) by {
        lemma_may_stay_open(request.pairing_deps@, request.covered@[k].0@);
        assert(links[k] == request.covered@[k].0@);
        assert(required.contains(links[k]));
        let j = choose|j: int| 0 <= j < required.len() && required[j] == links[k];
        assert(all[deferred.len() + j] == links[k]);
    }
    assert forall|k: int| 0 <= k < live_pairs@.len() implies is_taken(
        validation,
        (#[trigger] live_pairs@[k]).a.slot@,
    ) && is_taken(validation, live_pairs@[k].b.slot@) by {
        assert(validation.already_paired@[2 * k].0@ == live_pairs@[k].a.slot@);
        assert(validation.already_paired@[2 * k + 1].0@ == live_pairs@[k].b.slot@);
    }
    assert forall|j: int| 0 <= j < validation.defer_links@.len() implies is_put_off(
        request,
        (#[trigger] validation.defer_links@[j])@,
    ) by {
        let link = validation.defer_links@[j]@;
        assert(all[j] == link);
        if j < deferred.len() {
            assert(request.deferred@[j]@ == link);
        } else {
            let m = j - deferred.len();
            assert(required[m] == link);
            assert(required.contains(link));
            lemma_only_required(request.pairing_deps@, links, link);
            lemma_may_stay_open(request.pairing_deps@, link);
            let k = choose|k: int| 0 <= k < links.len() && links[k] == link;
            assert(request.covered@[k].0@ == link);
        }
    }
    assert(asks_for_all(validation, live_pairs@, request));
    assert forall|k: int| 0 <= k < pairs@.len() implies (#[trigger] pairs@[k]).own@
        == validated.planned@[k].0@ && pairs@[k].peer@ == validated.planned@[k].1@ by {
        assert(pairs@[k]@ == (validated.planned@[k].0@, validated.planned@[k].1@));
    }
}

/// Only links that are not optional are required.
proof fn lemma_only_required(deps: Seq<PairingDep>, links: Seq<Seq<char>>, link: Seq<char>)
    requires
        required_of(deps, links).contains(link),
    ensures
        links.contains(link) && !optional_slot(deps, link),
    decreases links.len(),
{
    if links.len() > 0 {
        let less = links.drop_last();
        let before = required_of(deps, less);
        let all = required_of(deps, links);
        let k = choose|k: int| 0 <= k < all.len() && all[k] == link;
        if k < before.len() {
            assert(before[k] == link);
            lemma_only_required(deps, less, link);
            let j = choose|j: int| 0 <= j < less.len() && less[j] == link;
            assert(links[j] == link);
        } else {
            assert(links[links.len() - 1] == link);
        }
    }
}

/// Every link that is not optional is required.
proof fn lemma_required(deps: Seq<PairingDep>, links: Seq<Seq<char>>)
    ensures
        forall|k: int|
            0 <= k < links.len() && !optional_slot(deps, #[trigger] links[k]) ==> required_of(
                deps,
                links,
            ).contains(links[k]),
    decreases links.len(),
{
    if links.len() > 0 {
        let less = links.drop_last();
        lemma_required(deps, less);
        let before = required_of(deps, less);
        let all = required_of(deps, links);
        assert forall|k: int| 0 <= k < links.len() && !optional_slot(
            deps,
            #[trigger] links[k],
        ) implies all.contains(links[k]) by {
            if k < less.len() {
                assert(less[k] == links[k]);
                let j = choose|j: int| 0 <= j < before.len() && before[j] == links[k];
                assert(all[j] == links[k]);
            } else {
                assert(all.last() == links[k]);
            }
        }
    }
}

/// Anything that the rules find wrong refuses a plan, with their report.
pub proof fn what_the_rules_refuse_is_refused(validated: Validated, r: Result<Vec<PlannedPair>, String>)
    requires
        call_ensures(finish_plan, (validated,), r),
    ensures
        r is Ok <==> validated.errors@.len() == 0,
        r matches Err(text) ==> text@ == validated.report@,
        r matches Ok(pairs) ==> pairs@.len() == validated.planned@.len() && forall|k: int|
            0 <= k < pairs@.len() ==> (#[trigger] pairs@[k]).own@ == validated.planned@[k].0@
                && pairs@[k].peer@ == validated.planned@[k].1@,
{
    if let Ok(pairs) = r {
        assert forall|k: int| 0 <= k < pairs@.len() implies (#[trigger] pairs@[k]).own@
            == validated.planned@[k].0@ && pairs@[k].peer@ == validated.planned@[k].1@ by {
            assert(pairs@[k]@ == (validated.planned@[k].0@, validated.planned@[k].1@));
        }
    }
}

/// The pairs of an instance are all the pairs with an end on it, and no others.
proof fn lemma_involving(pairs: Seq<Pairing>, instance_id: Seq<char>)
    ensures
        forall|pair: Pairing|
            #![trigger involving(pairs, instance_id).contains(pair)]
            #![trigger pairs.contains(pair)]
            involving(pairs, instance_id).contains(pair) <==> pairs.contains(pair) && (
            pair.a.slot.instance_id@ == instance_id || pair.b.slot.instance_id@ == instance_id),
    decreases pairs.len(),
{
    if pairs.len() > 0 {
        let less = pairs.drop_last();
        lemma_involving(less, instance_id);
        let all = involving(pairs, instance_id);
        let before = involving(less, instance_id);
        assert forall|pair: Pairing|
            #![trigger all.contains(pair)]
            #![trigger pairs.contains(pair)]
            all.contains(pair) <==> pairs.contains(pair) && (pair.a.slot.instance_id@
                == instance_id || pair.b.slot.instance_id@ == instance_id) by {
            if all.contains(pair) {
                let k = choose|k: int| 0 <= k < all.len() && all[k] == pair;
                if k < before.len() {
                    assert(before[k] == pair);
                    assert(before.contains(pair));
                    let j = choose|j: int| 0 <= j < less.len() && less[j] == pair;
                    assert(pairs[j] == pair);
                } else {
                    assert(pairs[pairs.len() - 1] == pair);
                }
            }
            if pairs.contains(pair) && (pair.a.slot.instance_id@ == instance_id
                || pair.b.slot.instance_id@ == instance_id) {
                let j = choose|j: int| 0 <= j < pairs.len() && pairs[j] == pair;
                if j < less.len() {
                    assert(less[j] == pair);
                    assert(less.contains(pair));
                    let k = choose|k: int| 0 <= k < before.len() && before[k] == pair;
                    assert(all[k] == pair);
                } else {
                    assert(all[all.len() - 1] == pair);
                }
            }
        }
    }
}

/// Whether a registry has a pair between two slots, in either order, with an end on an
/// instance.
pub open spec fn is_paired(
    registry: Seq<Pairing>,
    instance_id: Seq<char>,
    plan: PlannedPair,
) -> bool {
    exists|k: int|
        0 <= k < registry.len() && ((#[trigger] registry[k]).a.slot.instance_id@ == instance_id
            || registry[k].b.slot.instance_id@ == instance_id) && (registry[k].a.slot@ == plan.own@
            && registry[k].b.slot@ == plan.peer@ || registry[k].b.slot@ == plan.own@
            && registry[k].a.slot@ == plan.peer@)
}

/// A delivery goes ahead only while every pair that was planned is there, between its
/// two slots, in either order; it then takes in all the pairs of the instance, and no
/// others.
pub proof fn only_standing_pairs_are_delivered(
    registry: Vec<Pairing>,
    instance_id: &str,
    planned: Vec<PlannedPair>,
    r: Result<Vec<Pairing>, String>,
)
    requires
        call_ensures(pairs_to_deliver, (registry, instance_id, &planned), r),
    ensures
        r is Ok ==> forall|k: int|
            0 <= k < planned@.len() ==> is_paired(
                registry@,
                instance_id@,
                #[trigger] planned@[k],
            ),
        r matches Ok(pairs) ==> forall|pair: Pairing| #[trigger]
            pairs@.contains(pair) <==> registry@.contains(pair) && (pair.a.slot.instance_id@
                == instance_id@ || pair.b.slot.instance_id@ == instance_id@),
        r is Err ==> exists|k: int|
            0 <= k < planned@.len() && ((#[trigger] planned@[k]).own@ == planned@[k].peer@
                || !is_paired(registry@, instance_id@, planned@[k])),
{
    lemma_involving(registry@, instance_id@);
    let mine = involving(registry@, instance_id@);
    assert forall|plan: PlannedPair| #[trigger] plan_present(mine, plan@) implies is_paired(
        registry@,
        instance_id@,
        plan,
    ) by {
        let k = choose|k: int| 0 <= k < mine.len() && joins(#[trigger] mine[k]@, plan.own@, plan.peer@);
        assert(mine.contains(mine[k]));
        assert(registry@.contains(mine[k]));
        let j = choose|j: int| 0 <= j < registry@.len() && registry@[j] == mine[k];
        assert(registry@[j].a.slot@ == mine[k]@.0);
    }
    assert forall|plan: PlannedPair|
        is_paired(registry@, instance_id@, plan) && plan.own@ != plan.peer@ implies #[trigger] plan_present(
        mine,
        plan@,
    ) by {
        let k = choose|k: int|
            0 <= k < registry@.len() && ((#[trigger] registry@[k]).a.slot.instance_id@
                == instance_id@ || registry@[k].b.slot.instance_id@ == instance_id@) && (
            registry@[k].a.slot@ == plan.own@ && registry@[k].b.slot@ == plan.peer@
                || registry@[k].b.slot@ == plan.own@ && registry@[k].a.slot@ == plan.peer@);
        let pair = registry@[k];
        assert(registry@.contains(pair));
        assert(mine.contains(pair));
        let j = choose|j: int| 0 <= j < mine.len() && mine[j] == pair;
        assert(joins(mine[j]@, plan.own@, plan.peer@));
    }
    match r {
        Ok(pairs) => {
            assert(all_present(mine, planned@));
            assert forall|k: int| 0 <= k < planned@.len() implies is_paired(
                registry@,
                instance_id@,
                #[trigger] planned@[k],
            ) by {
                assert(plan_present(mine, planned@[k]@));
            }
        },
        Err(text) => {
            assert(!all_present(mine, planned@));
            let i = choose|i: int|
                0 <= i < planned@.len() && !plan_present(mine, #[trigger] planned@[i]@);
            let plan = planned@[i];
            if is_paired(registry@, instance_id@, plan) && plan.own@ != plan.peer@ {
                assert(plan_present(mine, plan@));
            }
        },
    }
}

/// Each endpoint of a pair is offered the other one: what the first is offered is the
/// second's slot, and the other way round.
pub proof fn each_end_is_offered_the_other(
    pairing: Pairing,
    second: bool,
    core_node: &str,
    r: PeerPin,
)
    requires
        call_ensures(pin_for, (&pairing, second, core_node), r),
    ensures
        r.core_node@ == core_node@,
        second ==> r.peer_instance_id@ == pairing.a.slot.instance_id@ && r.peer_link_id@
            == pairing.a.slot.link_id@,
        !second ==> r.peer_instance_id@ == pairing.b.slot.instance_id@ && r.peer_link_id@
            == pairing.b.slot.link_id@,
{
}

/// A failed offer takes the pair back and says why; the end that was served before is
/// told, and nobody else. Any other outcome goes on, to the second end and to the end.
pub proof fn a_failed_offer_takes_the_pair_back(
    pairing: Pairing,
    second: bool,
    outcome: SideOutcome,
    r: DeliveryStep,
)
    requires
        call_ensures(after_offer, (&pairing, second, outcome), r),
    ensures
        r is Revert <==> outcome is Failed,
        r is OfferSecond <==> !(outcome is Failed) && !second,
        r is Done <==> !(outcome is Failed) && second,
        r matches DeliveryStep::Revert { clear, notify, error } ==> {
            &&& outcome matches SideOutcome::Failed(why) && mentions(error@, why@)
            &&& second ==> clear@ == pairing.b.slot@ && (notify matches Some(told) && told@
                == pairing.a.slot@)
            &&& !second ==> clear@ == pairing.a.slot@ && notify is None
        },
{
    if let SideOutcome::Failed(why) = outcome {
        what_is_written_is_mentioned(
            "failed to deliver pair `"@ + pair_text(pairing@) + "` to instance '"@ + offered(
                pairing,
                second,
            ).0 + "': "@,
            why@,
            ""@,
        );
    }
}

/// Who is told that it is unpaired is exactly who had an end of a dissolved pair on
/// another instance.
pub proof fn every_survivor_is_told(
    dissolved: Vec<Pairing>,
    instance_id: &str,
    r: Vec<SlotAddr>,
    k: int,
)
    requires
        call_ensures(survivors, (&dissolved, instance_id), r),
        0 <= k < dissolved@.len(),
    ensures
        dissolved@[k].a.slot.instance_id@ != instance_id@ ==> slots(r@).contains(
            dissolved@[k].a.slot@,
        ),
        dissolved@[k].b.slot.instance_id@ != instance_id@ ==> slots(r@).contains(
            dissolved@[k].b.slot@,
        ),
        forall|j: int|
            0 <= j < r@.len() ==> (#[trigger] r@[j]).instance_id@ != instance_id@,
{
    dissolving_tells_every_survivor(dissolved@, instance_id@);
    assert forall|j: int| 0 <= j < r@.len() implies (#[trigger] r@[j]).instance_id@
        != instance_id@ by {
        assert(slots(r@)[j] == r@[j]@);
    }
}

/// The peer of a slot is the other end of the pair, and a slot that is no end has none.
pub proof fn the_peer_of_an_end_is_the_other(pairing: Pairing, slot: SlotAddr, r: Option<&PairEndpoint>)
    requires
        call_ensures(Pairing::peer_of, (&pairing, &slot), r),
    ensures
        r is Some <==> pairing.a.slot@ == slot@ || pairing.b.slot@ == slot@,
        pairing.a.slot@ == slot@ ==> r == Some(&pairing.b),
        pairing.b.slot@ == slot@ && pairing.a.slot@ != slot@ ==> r == Some(&pairing.a),
{
}

} // verus!
