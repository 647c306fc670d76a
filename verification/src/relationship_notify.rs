//! Telling other daemons what happens to the instances of this one.
//!
//! Who is told comes from two places. A pair names the core node of its peer.
//! An observer is invisible to what it observes, so the planner names the
//! daemons that observe an instance when the instance is run.
use crate::order::{ascending, insert_text, remove_text};
use crate::text::{copy_all, str_eq, texts};
use vstd::prelude::*;
use vstd::string::*;

verus! {

/// How many seconds one notification may take.
pub const NOTIFY_TIMEOUT_SECS: u64 = 10;

/// The daemons that observe each instance.
pub struct WatcherRegistry {
    pub entries: Vec<(String, Vec<String>)>,
}

/// The daemons that a list of entries has for an instance, each once.
pub open spec fn watchers_in(entries: Seq<(String, Vec<String>)>, instance_id: Seq<char>) -> Set<
    Seq<char>,
>
    decreases entries.len(),
{
    if entries.len() == 0 {
        Set::empty()
    } else if entries.last().0@ == instance_id {
        texts(entries.last().1@).to_set()
    } else {
        watchers_in(entries.drop_last(), instance_id)
    }
}

/// The daemons that observe an instance.
pub open spec fn watchers(registry: WatcherRegistry, instance_id: Seq<char>) -> Set<Seq<char>> {
    watchers_in(registry.entries@, instance_id)
}

/// Whether every entry's daemons are in order, and no instance is entered twice.
pub open spec fn well_kept(entries: Seq<(String, Vec<String>)>) -> bool {
    &&& forall|k: int| 0 <= k < entries.len() ==> ascending(texts((#[trigger] entries[k]).1@))
    &&& forall|i: int, j: int|
        0 <= i < j < entries.len() ==> (#[trigger] entries[i]).0@ != (#[trigger] entries[j]).0@
}

/// What an instance's entry says is what the registry says of the instance.
proof fn lemma_watchers_at(entries: Seq<(String, Vec<String>)>, at: int)
    requires
        well_kept(entries),
        0 <= at < entries.len(),
    ensures
        watchers_in(entries, entries[at].0@) == texts(entries[at].1@).to_set(),
    decreases entries.len(),
{
    if at < entries.len() - 1 {
        let rest = entries.drop_last();
        assert(entries[at].0@ != entries[entries.len() - 1].0@);
        assert(well_kept(rest)) by {
            assert forall|k: int| 0 <= k < rest.len() implies ascending(
                texts((#[trigger] rest[k]).1@),
            ) by {
                assert(rest[k] == entries[k]);
            }
            assert forall|i: int, j: int| 0 <= i < j < rest.len() implies (#[trigger] rest[i]).0@ != (
            #[trigger] rest[j]).0@ by {
                assert(rest[i] == entries[i] && rest[j] == entries[j]);
            }
        }
        lemma_watchers_at(rest, at);
        assert(rest[at] == entries[at]);
    }
}

/// An instance without an entry has no daemons.
proof fn lemma_no_watchers(entries: Seq<(String, Vec<String>)>, instance_id: Seq<char>)
    requires
        forall|k: int| 0 <= k < entries.len() ==> (#[trigger] entries[k]).0@ != instance_id,
    ensures
        watchers_in(entries, instance_id) == Set::<Seq<char>>::empty(),
    decreases entries.len(),
{
    if entries.len() > 0 {
        let rest = entries.drop_last();
        assert forall|k: int| 0 <= k < rest.len() implies (#[trigger] rest[k]).0@ != instance_id by {
            assert(rest[k] == entries[k]);
        }
        lemma_no_watchers(rest, instance_id);
    }
}

/// Taking an entry out leaves the others.
proof fn lemma_remove_entry(
    before: Seq<(String, Vec<String>)>,
    at: int,
    other: Seq<char>,
)
    requires
        well_kept(before),
        0 <= at < before.len(),
    ensures
        well_kept(before.remove(at)),
        other != before[at].0@ ==> watchers_in(before.remove(at), other) == watchers_in(
            before,
            other,
        ),
        watchers_in(before.remove(at), before[at].0@) == Set::<Seq<char>>::empty(),
{
    let after = before.remove(at);
    assert forall|k: int| 0 <= k < after.len() implies ascending(texts((#[trigger] after[k]).1@)) by {
        assert(after[k] == before[if k < at {
            k
        } else {
            k + 1
        }]);
    }
    assert forall|i: int, j: int| 0 <= i < j < after.len() implies (#[trigger] after[i]).0@ != (
    #[trigger] after[j]).0@ by {
        let bi = if i < at {
            i
        } else {
            i + 1
        };
        let bj = if j < at {
            j
        } else {
            j + 1
        };
        assert(after[i] == before[bi] && after[j] == before[bj]);
    }
    assert forall|k: int| 0 <= k < after.len() implies (#[trigger] after[k]).0@ != before[at].0@ by {
        let b = if k < at {
            k
        } else {
            k + 1
        };
        assert(after[k] == before[b]);
    }
    lemma_no_watchers(after, before[at].0@);
    if other != before[at].0@ {
        if exists|k: int| 0 <= k < before.len() && (#[trigger] before[k]).0@ == other {
            let k = choose|k: int| 0 <= k < before.len() && (#[trigger] before[k]).0@ == other;
            lemma_watchers_at(before, k);
            let a = if k < at {
                k
            } else {
                k - 1
            };
            assert(after[a] == before[k]);
            lemma_watchers_at(after, a);
        } else {
            lemma_no_watchers(before, other);
            assert forall|k: int| 0 <= k < after.len() implies (#[trigger] after[k]).0@ != other by {
                let b = if k < at {
                    k
                } else {
                    k + 1
                };
                assert(after[k] == before[b]);
            }
            lemma_no_watchers(after, other);
        }
    }
}

impl Default for WatcherRegistry {
    fn default() -> (r: Self)
        ensures
            well_kept(r.entries@),
            forall|id: Seq<char>| #[trigger] watchers(r, id) == Set::<Seq<char>>::empty(),
    {
        WatcherRegistry { entries: Vec::new() }
    }
}

impl WatcherRegistry {
    /// Where an instance is entered.
    fn place(&self, instance_id: &str) -> (r: Option<usize>)
        ensures
            match r {
                Some(at) => at < self.entries@.len() && self.entries@[at as int].0@
                    == instance_id@,
                None => forall|k: int|
                    0 <= k < self.entries@.len() ==> (#[trigger] self.entries@[k]).0@
                        != instance_id@,
            },
    {
        let mut i: usize = 0;
        while i < self.entries.len()
            invariant
                i <= self.entries@.len(),
                forall|k: int| 0 <= k < i ==> (#[trigger] self.entries@[k]).0@ != instance_id@,
            decreases self.entries.len() - i,
        {
            if str_eq(self.entries[i].0.as_str(), instance_id) {
                return Some(i);
            }
            i += 1;
        }
        None
    }

    /// Notes the daemons that observe an instance, in place of those noted
    /// before: an instance that is run again is another one, with another plan.
    /// This daemon itself is left out.
    pub fn set(&mut self, instance_id: &str, core_nodes: &Vec<String>, self_core_node: &str)
        requires
            well_kept(old(self).entries@),
        ensures
            well_kept(final(self).entries@),
            watchers(*final(self), instance_id@) == texts(core_nodes@).to_set().remove(
                self_core_node@,
            ),
            forall|other: Seq<char>|
                other != instance_id@ ==> #[trigger] watchers(*final(self), other) == watchers(
                    *old(self),
                    other,
                ),
    {
        let mut recipients = crate::order::sorted_set(core_nodes);
        remove_text(&mut recipients, self_core_node);
        self.forget(instance_id);
        let ghost mid = *self;
        if recipients.len() > 0 {
            let ghost before = self.entries@;
            proof {
                assert forall|k: int| 0 <= k < before.len() implies (#[trigger] before[k]).0@
                    != instance_id@ by {
                    if before[k].0@ == instance_id@ {
                        lemma_watchers_at(before, k);
                    }
                }
            }
            self.entries.push((instance_id.to_owned(), recipients));
            proof {
                let after = self.entries@;
                assert(after.drop_last() =~= before);
                assert forall|k: int| 0 <= k < after.len() implies ascending(
                    texts((#[trigger] after[k]).1@),
                ) by {
                    if k < before.len() {
                        assert(after[k] == before[k]);
                    }
                }
                assert forall|i: int, j: int| 0 <= i < j < after.len() implies (
                #[trigger] after[i]).0@ != (#[trigger] after[j]).0@ by {
                    assert(after[i] == before[i]);
                    if j < before.len() {
                        assert(after[j] == before[j]);
                    }
                }
                assert forall|other: Seq<char>| other != instance_id@ implies #[trigger] watchers(
                    *self,
                    other,
                ) == watchers(*old(self), other) by {
                    assert(watchers_in(after, other) == watchers_in(before, other));
                    assert(watchers(mid, other) == watchers(*old(self), other));
                }
            }
        } else {
            proof {
                assert(texts(recipients@).to_set() =~= Set::<Seq<char>>::empty());
            }
        }
    }

    /// Drops what is noted about an instance.
    pub fn forget(&mut self, instance_id: &str)
        requires
            well_kept(old(self).entries@),
        ensures
            well_kept(final(self).entries@),
            watchers(*final(self), instance_id@) == Set::<Seq<char>>::empty(),
            forall|k: int|
                0 <= k < final(self).entries@.len() ==> (#[trigger] final(self).entries@[k]).0@
                    != instance_id@,
            forall|other: Seq<char>|
                other != instance_id@ ==> #[trigger] watchers(*final(self), other) == watchers(
                    *old(self),
                    other,
                ),
    {
        let ghost before = self.entries@;
        match self.place(instance_id) {
            None => {
                proof {
                    lemma_no_watchers(before, instance_id@);
                }
            },
            Some(at) => {
                let _gone = self.entries.remove(at);
                proof {
                    assert(self.entries@ =~= before.remove(at as int));
                    lemma_remove_entry(before, at as int, instance_id@);
                    assert forall|k: int| 0 <= k < self.entries@.len() implies (
                    #[trigger] self.entries@[k]).0@ != instance_id@ by {
                        let b = if k < at {
                            k
                        } else {
                            k + 1
                        };
                        assert(self.entries@[k] == before[b]);
                    }
                    assert forall|other: Seq<char>| other != instance_id@ implies #[trigger] watchers(
                        *self,
                        other,
                    ) == watchers_in(before, other) by {
                        lemma_remove_entry(before, at as int, other);
                    }
                }
            },
        }
    }

    /// The daemons that are told about an instance, in order: those that observe
    /// it and those of its peers, without this one.
    pub fn recipients(
        &self,
        instance_id: &str,
        pair_peers: &Vec<String>,
        self_core_node: &str,
    ) -> (r: Vec<String>)
        requires
            well_kept(self.entries@),
        ensures
            ascending(texts(r@)),
            texts(r@).to_set() == (watchers(*self, instance_id@) + texts(
                pair_peers@,
            ).to_set()).remove(self_core_node@),
    {
        let mut out: Vec<String> = match self.place(instance_id) {
            Some(at) => {
                proof {
                    lemma_watchers_at(self.entries@, at as int);
                }
                copy_all(&self.entries[at].1)
            },
            None => {
                proof {
                    lemma_no_watchers(self.entries@, instance_id@);
                }
                let none: Vec<String> = Vec::new();
                proof {
                    assert(texts(none@).to_set() =~= Set::<Seq<char>>::empty());
                }
                none
            },
        };
        let ghost watching = watchers(*self, instance_id@);
        let mut i: usize = 0;
        proof {
            assert(texts(pair_peers@).take(0).to_set() =~= Set::<Seq<char>>::empty());
            assert(texts(out@).to_set() =~= watching + texts(pair_peers@).take(0).to_set());
        }
        while i < pair_peers.len()
            invariant
                i <= pair_peers@.len(),
                ascending(texts(out@)),
                texts(out@).to_set() == watching + texts(pair_peers@).take(i as int).to_set(),
            decreases pair_peers.len() - i,
        {
            let _fresh = insert_text(&mut out, pair_peers[i].clone());
            proof {
                let all = texts(pair_peers@);
                assert(all[i as int] == pair_peers@[i as int]@);
                assert(all.take(i + 1) =~= all.take(i as int).push(all[i as int]));
                lemma_push_set(all.take(i as int), all[i as int]);
                assert(texts(out@).to_set() =~= watching + all.take(i + 1).to_set());
            }
            i += 1;
        }
        proof {
            assert(texts(pair_peers@).take(pair_peers@.len() as int) =~= texts(pair_peers@));
        }
        remove_text(&mut out, self_core_node);
        out
    }
}

/// The members of a list with one more at its end.
proof fn lemma_push_set(list: Seq<Seq<char>>, x: Seq<char>)
    ensures
        list.push(x).to_set() == list.to_set().insert(x),
{
    let after = list.push(x);
    assert forall|y: Seq<char>| #[trigger] after.to_set().contains(y) == list.to_set().insert(
        x,
    ).contains(y) by {
        if list.contains(y) {
            let k = choose|k: int| 0 <= k < list.len() && list[k] == y;
            assert(after[k] == y);
        }
        if y == x {
            assert(after[list.len() as int] == y);
        }
        if after.contains(y) {
            let k = choose|k: int| 0 <= k < after.len() && after[k] == y;
            if k < list.len() {
                assert(list[k] == y);
            }
        }
    }
    assert(after.to_set() =~= list.to_set().insert(x));
}

/// What happens to an instance.
#[derive(Clone, Copy, Debug, PartialEq, Eq, Structural)]
pub enum RelationshipEvent {
    ReachedRunning,
    Stopped,
}

/// What is logged about a daemon that could not be told.
pub fn stale_warning(core_node: &str, instance_id: &str, event: RelationshipEvent, why: &str) -> (r:
    String)
    ensures
        r@ == "could not tell `"@ + core_node@ + "` that `"@ + instance_id@ + "` "@ + (match event {
            RelationshipEvent::ReachedRunning => "reached Running"@,
            RelationshipEvent::Stopped => "stopped"@,
        }) + " ("@ + why@
            + "); that daemon's view of this instance is stale until its next update"@,
{
    let mut text: String = "could not tell `".to_owned();
    text.append(core_node);
    text.append("` that `");
    text.append(instance_id);
    text.append("` ");
    match event {
        RelationshipEvent::ReachedRunning => text.append("reached Running"),
        RelationshipEvent::Stopped => text.append("stopped"),
    }
    text.append(" (");
    text.append(why);
    text.append("); that daemon's view of this instance is stale until its next update");
    text
}

/// An event that the daemons in `told` are being told about.
pub struct Announcement {
    pub instance_id: String,
    pub event: RelationshipEvent,
    pub told: Vec<String>,
}

/// Begins to announce an event. The watchers stay noted while the daemons are
/// told.
pub fn announce(
    registry: &WatcherRegistry,
    instance_id: &str,
    event: RelationshipEvent,
    pair_peers: &Vec<String>,
    self_core_node: &str,
) -> (r: Announcement)
    requires
        well_kept(registry.entries@),
    ensures
        r.instance_id@ == instance_id@,
        r.event == event,
        ascending(texts(r.told@)),
        texts(r.told@).to_set() == (watchers(*registry, instance_id@) + texts(
            pair_peers@,
        ).to_set()).remove(self_core_node@),
{
    let told = registry.recipients(instance_id, pair_peers, self_core_node);
    Announcement { instance_id: instance_id.to_owned(), event, told }
}

impl Announcement {
    /// Ends the announcement, once every daemon was told or could not be. The
    /// watchers of an instance that stopped are forgotten: the next instance of
    /// that id has a plan of its own.
    pub fn over(self, registry: &mut WatcherRegistry)
        requires
            well_kept(old(registry).entries@),
        ensures
            well_kept(final(registry).entries@),
            self.event == RelationshipEvent::ReachedRunning ==> *final(registry) == *old(registry),
            self.event == RelationshipEvent::Stopped ==> watchers(
                *final(registry),
                self.instance_id@,
            ) == Set::<Seq<char>>::empty(),
            forall|other: Seq<char>|
                other != self.instance_id@ ==> #[trigger] watchers(*final(registry), other)
                    == watchers(*old(registry), other),
    {
        match self.event {
            RelationshipEvent::ReachedRunning => {},
            RelationshipEvent::Stopped => registry.forget(self.instance_id.as_str()),
        }
    }
}

/// A daemon never tells itself.
pub proof fn no_daemon_tells_itself(
    watching: Set<Seq<char>>,
    peers: Set<Seq<char>>,
    self_core_node: Seq<char>,
    told: Seq<Seq<char>>,
)
    requires
        told.to_set() == (watching + peers).remove(self_core_node),
    ensures
        !told.contains(self_core_node),
        forall|daemon: Seq<char>|
            daemon != self_core_node ==> (#[trigger] told.contains(daemon) <==> watching.contains(
                daemon,
            ) || peers.contains(daemon)),
{
    assert(forall|daemon: Seq<char>| told.contains(daemon) == told.to_set().contains(daemon));
}

/// An event is told to every daemon that observes the instance and to those of its peers,
/// and never to this one.
pub proof fn every_watching_daemon_is_told(
    registry: WatcherRegistry,
    instance_id: &str,
    event: RelationshipEvent,
    pair_peers: Vec<String>,
    self_core_node: &str,
    r: Announcement,
    daemon: Seq<char>,
)
    requires
        well_kept(registry.entries@),
        call_ensures(
            announce,
            (&registry, instance_id, event, &pair_peers, self_core_node),
            r,
        ),
    ensures
        r.instance_id@ == instance_id@ && r.event == event,
        texts(r.told@).contains(daemon) <==> daemon != self_core_node@ && (watchers(
            registry,
            instance_id@,
        ).contains(daemon) || texts(pair_peers@).contains(daemon)),
{
    let told = texts(r.told@);
    let peers = texts(pair_peers@);
    assert(told.contains(daemon) == told.to_set().contains(daemon));
    assert(peers.contains(daemon) == peers.to_set().contains(daemon));
}

/// The daemons noted for an instance are those that are given, without this one, and
/// nothing changes for the others.
pub proof fn the_given_daemons_are_noted(
    registry: &mut WatcherRegistry,
    instance_id: &str,
    core_nodes: Vec<String>,
    self_core_node: &str,
    daemon: Seq<char>,
    other: Seq<char>,
)
    requires
        well_kept(old(registry).entries@),
        call_ensures(
            WatcherRegistry::set,
            (registry, instance_id, &core_nodes, self_core_node),
            (),
        ),
    ensures
        watchers(*final(registry), instance_id@).contains(daemon) <==> daemon != self_core_node@
            && texts(core_nodes@).contains(daemon),
        other != instance_id@ ==> watchers(*final(registry), other) == watchers(
            *old(registry),
            other,
        ),
{
    let given = texts(core_nodes@);
    assert(given.contains(daemon) == given.to_set().contains(daemon));
    let same = watchers(*final(registry), other);
}

/// Once an event is told, the watchers of an instance that stopped are forgotten, and
/// those of one that came up are kept; the others stay in any case.
pub proof fn only_a_stopped_instance_is_forgotten(
    announcement: Announcement,
    registry: &mut WatcherRegistry,
    other: Seq<char>,
    daemon: Seq<char>,
)
    requires
        well_kept(old(registry).entries@),
        call_ensures(Announcement::over, (announcement, registry), ()),
    ensures
        announcement.event == RelationshipEvent::ReachedRunning ==> watchers(
            *final(registry),
            announcement.instance_id@,
        ) == watchers(*old(registry), announcement.instance_id@),
        announcement.event == RelationshipEvent::Stopped ==> !watchers(
            *final(registry),
            announcement.instance_id@,
        ).contains(daemon),
        other != announcement.instance_id@ ==> watchers(*final(registry), other) == watchers(
            *old(registry),
            other,
        ),
{
    let same = watchers(*final(registry), other);
}

} // verus!
