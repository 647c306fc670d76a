//! The walk from a name to the pins of its whole closure.
//!
//! A walk hands out the identities that it meets, one after the other, and is
//! told of each whether a repository holds it. Its end is the root's closure, or
//! a report of everything that is missing or claimed twice.
use super::{identities, identity_of, root_first, rooted, MaterializedPin, PinnedClosure};
use crate::order::{
    ascending_pairs, has_pair, in_order, insert_pair, pair_texts, sort_texts, PairText,
};
use crate::text::{a_join_mentions_every_text, a_longer_text_mentions_as_much, join, joined, mentions, mentions_carry_over, str_eq, texts, what_is_written_is_mentioned};
use vstd::prelude::*;
use vstd::string::*;

verus! {

/// A node that a walk still has to resolve.
pub struct WalkKey {
    pub name: String,
    pub tag: String,
    pub is_root: bool,
}

/// The identity of a node that a walk has to resolve.
pub open spec fn key_of(key: WalkKey) -> PairText {
    (key.name@, key.tag@)
}

/// The identities of a list of nodes that a walk has to resolve.
pub open spec fn keys_of(list: Seq<WalkKey>) -> Seq<PairText> {
    list.map_values(|key: WalkKey| key_of(key))
}

/// The walk from a root to its whole closure.
///
/// Nodes wait in `pending`; each is handed out once and then stands in `seen`. It
/// is `open` until the walk is told what came of it: then it is one of the
/// `missing`, one of the `claimed`, or one of the `nodes`, and what such a node
/// depends on is pending or seen.
pub struct ClosureWalk {
    pub root: (String, String),
    pub pending: Vec<WalkKey>,
    pub seen: Vec<(String, String)>,
    /// Identities that were handed out and not answered for yet.
    pub open: Vec<WalkKey>,
    /// Identities that no repository holds, each once, in order.
    pub missing: Vec<(String, String)>,
    /// Identities that several repositories claim, and the report of each.
    pub claimed: Vec<(String, String)>,
    pub ambiguous: Vec<String>,
    pub nodes: Vec<MaterializedPin>,
}

/// The identity of a walk's root.
pub open spec fn root_of(walk: ClosureWalk) -> PairText {
    (walk.root.0@, walk.root.1@)
}

/// Whether an identity has been resolved or waits to be.
pub open spec fn accounted_for(walk: ClosureWalk, key: PairText) -> bool {
    pair_texts(walk.seen@).contains(key) || keys_of(walk.pending@).contains(key)
}

/// Whether every dependency of every node at hand has been resolved or waits
/// to be.
pub open spec fn deps_accounted_for(walk: ClosureWalk) -> bool {
    forall|i: int, j: int|
        0 <= i < walk.nodes@.len() && 0 <= j < walk.nodes@[i].manifest.nodes@.len()
            ==> accounted_for(
            walk,
            #[trigger] pair_texts(walk.nodes@[i].manifest.nodes@)[j],
        )
}

/// Whether a node of one identity depends on another identity.
pub open spec fn depends(nodes: Seq<MaterializedPin>, from: PairText, to: PairText) -> bool {
    exists|i: int, j: int|
        0 <= i < nodes.len() && 0 <= j < nodes[i].manifest.nodes@.len() && identity_of(nodes[i])
            == from && #[trigger] pair_texts(nodes[i].manifest.nodes@)[j] == to
}

/// Whether every identity of a path depends on the next one.
pub open spec fn leads(nodes: Seq<MaterializedPin>, path: Seq<PairText>) -> bool {
    forall|k: int|
        0 <= k < path.len() - 1 ==> #[trigger] depends(nodes, path[k], path[k + 1])
}

/// Whether an identity is reached from a root through what nodes depend on.
pub open spec fn reached(nodes: Seq<MaterializedPin>, root: PairText, key: PairText) -> bool {
    exists|path: Seq<PairText>|
        path.len() > 0 && path[0] == root && path.last() == key && #[trigger] leads(nodes, path)
}

/// Whether everything that was resolved or waits to be is reached from the root.
pub open spec fn only_reached(walk: ClosureWalk) -> bool {
    forall|key: PairText| #[trigger]
        accounted_for(walk, key) ==> reached(walk.nodes@, root_of(walk), key)
}

/// Whether the root is the first identity that is handed out, and the only one
/// that is marked as the root.
pub open spec fn knows_root(walk: ClosureWalk) -> bool {
    &&& if walk.seen@.len() == 0 {
        &&& walk.pending@.len() == 1
        &&& walk.pending@[0].is_root
        &&& key_of(walk.pending@[0]) == root_of(walk)
    } else {
        &&& pair_texts(walk.seen@).contains(root_of(walk))
        &&& forall|k: int| 0 <= k < walk.pending@.len() ==> !(#[trigger] walk.pending@[k]).is_root
    }
    &&& forall|k: int|
        0 <= k < walk.open@.len() ==> (#[trigger] walk.open@[k]).is_root == (key_of(walk.open@[k])
            == root_of(walk))
    &&& forall|k: int|
        0 <= k < walk.nodes@.len() ==> (#[trigger] walk.nodes@[k]).is_root == (identity_of(
            walk.nodes@[k],
        ) == root_of(walk))
}

/// Whether every identity that was handed out is in exactly one place: open,
/// missing, claimed or a node, and there once.
pub open spec fn sorted_out(walk: ClosureWalk) -> bool {
    let open = keys_of(walk.open@).to_set();
    let nodes = identities(walk.nodes@).to_set();
    let missing = pair_texts(walk.missing@).to_set();
    let claimed = pair_texts(walk.claimed@).to_set();
    &&& pair_texts(walk.seen@).to_set() == open + nodes + missing + claimed
    &&& open.disjoint(nodes) && open.disjoint(missing) && open.disjoint(claimed)
    &&& nodes.disjoint(missing) && nodes.disjoint(claimed)
    &&& missing.disjoint(claimed)
    &&& keys_of(walk.open@).no_duplicates()
    &&& identities(walk.nodes@).no_duplicates()
    &&& pair_texts(walk.claimed@).no_duplicates()
    &&& walk.claimed@.len() == walk.ambiguous@.len()
}

/// Whether some nodes are the closure of a root: the root first and alone marked
/// as the root, and each identity that is reached from it, and no other, once.
pub open spec fn is_closure(root: PairText, nodes: Seq<MaterializedPin>) -> bool {
    &&& nodes.len() > 0
    &&& identity_of(nodes[0]) == root
    &&& forall|k: int| 0 <= k < nodes.len() ==> (#[trigger] nodes[k]).is_root == (k == 0)
    &&& identities(nodes).no_duplicates()
    &&& forall|key: PairText| #[trigger]
        identities(nodes).contains(key) <==> reached(nodes, root, key)
}

/// Where the next node to resolve waits: the last pending one, of the first
/// `n`, that is not seen; -1 where there is none.
pub open spec fn next_place(pending: Seq<PairText>, seen: Seq<PairText>, n: int) -> int
    decreases n,
{
    if n <= 0 || n > pending.len() {
        -1
    } else if seen.contains(pending[n - 1]) {
        next_place(pending, seen, n - 1)
    } else {
        n - 1
    }
}

/// The report of identities that no repository holds.
pub open spec fn missing_text(
    missing: Seq<PairText>,
    cache_path: Seq<char>,
    hint: Seq<char>,
) -> Seq<char> {
    "Dependencies missing from nodes cache ("@ + cache_path + "): "@ + joined(
        missing.map_values(|key: PairText| key.0 + ":"@ + key.1),
        ", "@,
    )
        + ". Run `peppy repo refresh` or add the missing nodes to a configured repository"@ + hint
        + "."@
}

/// Whether a list of problems is what a walk ran into: the ambiguous
/// identities in order, then the missing ones in one report.
pub open spec fn reports_problems(
    walk: ClosureWalk,
    cache_path: Seq<char>,
    hint: Seq<char>,
    problems: Seq<Seq<char>>,
) -> bool {
    exists|ambiguous: Seq<Seq<char>>|
        #[trigger] in_order(ambiguous) && ambiguous.to_multiset() == texts(
            walk.ambiguous@,
        ).to_multiset() && problems == if walk.missing@.len() > 0 {
            ambiguous.push(missing_text(pair_texts(walk.missing@), cache_path, hint))
        } else {
            ambiguous
        }
}

/// Takes an identity out of a list in which it stands once at most.
fn take_key(list: &mut Vec<WalkKey>, name: &str, tag: &str) -> (r: Option<WalkKey>)
    requires
        keys_of(old(list)@).no_duplicates(),
    ensures
        match r {
            Some(key) => key_of(key) == (name@, tag@) && old(list)@.contains(key) && keys_of(
                old(list)@,
            ).contains((name@, tag@)) && keys_of(final(list)@).no_duplicates() && keys_of(
                final(list)@,
            ).to_set() == keys_of(old(list)@).to_set().remove((name@, tag@)) && forall|k: int|
                0 <= k < final(list)@.len() ==> old(list)@.contains(#[trigger] final(list)@[k]),
            None => !keys_of(old(list)@).contains((name@, tag@)) && final(list)@ == old(list)@,
        },
{
    let ghost before = list@;
    let mut i: usize = 0;
    while i < list.len()
        invariant
            i <= list@.len(),
            list@ == before,
            before == old(list)@,
            keys_of(before).no_duplicates(),
            forall|k: int| 0 <= k < i ==> #[trigger] keys_of(before)[k] != (name@, tag@),
        decreases list.len() - i,
    {
        if str_eq(list[i].name.as_str(), name) && str_eq(list[i].tag.as_str(), tag) {
            let key = list.remove(i);
            proof {
                lemma_remove_set(keys_of(before), i as int);
                assert(keys_of(list@) =~= keys_of(before).remove(i as int));
                assert(keys_of(before)[i as int] == (name@, tag@));
                assert(before[i as int] == key);
                assert forall|k: int| 0 <= k < list@.len() implies before.contains(
                    #[trigger] list@[k],
                ) by {
                    assert(list@[k] == before[if k < i {
                        k
                    } else {
                        k + 1
                    }]);
                }
            }
            return Some(key);
        }
        proof {
            assert(keys_of(before)[i as int] == key_of(before[i as int]));
        }
        i += 1;
    }
    None
}

impl ClosureWalk {
    /// Whether the walk's lists fit together.
    pub open spec fn valid(self) -> bool {
        &&& ascending_pairs(pair_texts(self.missing@))
        &&& pair_texts(self.seen@).no_duplicates()
        &&& deps_accounted_for(self)
        &&& only_reached(self)
        &&& knows_root(self)
        &&& sorted_out(self)
    }

    /// A walk that begins at a root.
    pub fn new(root_name: &str, root_tag: &str) -> (r: Self)
        ensures
            r.valid(),
            root_of(r) == (root_name@, root_tag@),
            keys_of(r.pending@) == seq![(root_name@, root_tag@)],
            r.pending@[0].is_root,
            r.seen@.len() == 0,
            r.open@.len() == 0,
            r.missing@.len() == 0,
            r.claimed@.len() == 0,
            r.ambiguous@.len() == 0,
            r.nodes@.len() == 0,
    {
        let mut pending: Vec<WalkKey> = Vec::new();
        pending.push(
            WalkKey { name: root_name.to_owned(), tag: root_tag.to_owned(), is_root: true },
        );
        let walk = ClosureWalk {
            root: (root_name.to_owned(), root_tag.to_owned()),
            pending,
            seen: Vec::new(),
            open: Vec::new(),
            missing: Vec::new(),
            claimed: Vec::new(),
            ambiguous: Vec::new(),
            nodes: Vec::new(),
        };
        proof {
            let root = root_of(walk);
            assert(keys_of(walk.pending@) =~= seq![root]);
            assert forall|key: PairText| #[trigger] accounted_for(walk, key) implies reached(
                walk.nodes@,
                root,
                key,
            ) by {
                lemma_root_reached(walk.nodes@, root);
                assert(key == root);
            }
            assert(pair_texts(walk.seen@).to_set() =~= keys_of(walk.open@).to_set() + identities(
                walk.nodes@,
            ).to_set() + pair_texts(walk.missing@).to_set() + pair_texts(
                walk.claimed@,
            ).to_set());
        }
        walk
    }

    /// The next node to resolve, the one that came to wait last; it counts as
    /// seen from now on, and is open until it is answered for. Pending nodes that
    /// are seen already are dropped.
    pub fn next(&mut self) -> (r: Option<WalkKey>)
        requires
            old(self).valid(),
        ensures
            final(self).valid(),
            final(self).root == old(self).root,
            final(self).missing == old(self).missing,
            final(self).claimed == old(self).claimed,
            final(self).ambiguous == old(self).ambiguous,
            final(self).nodes == old(self).nodes,
            ({
                let place = next_place(
                    keys_of(old(self).pending@),
                    pair_texts(old(self).seen@),
                    old(self).pending@.len() as int,
                );
                match r {
                    Some(key) => place >= 0 && key == old(self).pending@[place]
                        && final(self).pending@ == old(self).pending@.take(place) && pair_texts(
                        final(self).seen@,
                    ) == pair_texts(old(self).seen@).push(key_of(key)) && !pair_texts(
                        old(self).seen@,
                    ).contains(key_of(key)) && keys_of(final(self).open@) == keys_of(
                        old(self).open@,
                    ).push(key_of(key)) && key.is_root == (key_of(key) == root_of(*old(self))),
                    None => place < 0 && final(self).pending@.len() == 0 && final(self).seen
                        == old(self).seen && final(self).open == old(self).open,
                }
            }),
    {
        let ghost start = *self;
        proof {
            assert(self.pending@.take(self.pending@.len() as int) =~= self.pending@);
        }
        while self.pending.len() > 0
            invariant
                self.root == start.root,
                self.seen == start.seen,
                self.open == start.open,
                self.missing == start.missing,
                self.claimed == start.claimed,
                self.ambiguous == start.ambiguous,
                self.nodes == start.nodes,
                start.valid(),
                start == *old(self),
                self.pending@.len() <= start.pending@.len(),
                self.pending@ == start.pending@.take(self.pending@.len() as int),
                next_place(
                    keys_of(start.pending@),
                    pair_texts(start.seen@),
                    start.pending@.len() as int,
                ) == next_place(
                    keys_of(start.pending@),
                    pair_texts(start.seen@),
                    self.pending@.len() as int,
                ),
                forall|k: int|
                    self.pending@.len() <= k < start.pending@.len() ==> pair_texts(
                        start.seen@,
                    ).contains(#[trigger] keys_of(start.pending@)[k]),
            decreases self.pending.len(),
        {
            let ghost n = self.pending@.len() as int;
            let ghost waiting = self.pending@;
            let popped = self.pending.pop();
            if let Some(key) = popped {
                proof {
                    assert(waiting[n - 1] == key);
                    assert(start.pending@[n - 1] == key);
                    assert(keys_of(start.pending@)[n - 1] == key_of(key));
                    assert(self.pending@ =~= start.pending@.take(n - 1));
                }
                if !has_pair(&self.seen, key.name.as_str(), key.tag.as_str()) {
                    let ghost known = pair_texts(self.seen@);
                    self.seen.push((key.name.clone(), key.tag.clone()));
                    self.open.push(
                        WalkKey {
                            name: key.name.clone(),
                            tag: key.tag.clone(),
                            is_root: key.is_root,
                        },
                    );
                    proof {
                        let now = pair_texts(self.seen@);
                        assert(now =~= known.push(key_of(key)));
                        assert(keys_of(self.open@) =~= keys_of(start.open@).push(key_of(key)));
                        assert(self.open@.take(start.open@.len() as int) =~= start.open@);
                        lemma_walk_moves(start, *self, n - 1);
                        lemma_hand_out(start, *self, n - 1);
                    }
                    return Some(key);
                }
            }
        }
        proof {
            assert(start.seen@.len() > 0) by {
                if start.seen@.len() == 0 {
                    assert(keys_of(start.pending@)[0] == root_of(start));
                    assert(pair_texts(start.seen@).contains(root_of(start)));
                }
            }
            lemma_walk_moves(start, *self, 0);
            assert forall|key: PairText| #[trigger] accounted_for(*self, key) implies reached(
                self.nodes@,
                root_of(*self),
                key,
            ) by {
                assert(accounted_for(start, key));
            }
        }
        None
    }

    /// Takes the answer that no repository holds an identity; whether it was asked
    /// for.
    pub fn not_found(&mut self, name: &str, tag: &str) -> (r: bool)
        requires
            old(self).valid(),
        ensures
            final(self).valid(),
            final(self).root == old(self).root,
            final(self).pending == old(self).pending,
            final(self).seen == old(self).seen,
            final(self).claimed == old(self).claimed,
            final(self).ambiguous == old(self).ambiguous,
            final(self).nodes == old(self).nodes,
            r == keys_of(old(self).open@).contains((name@, tag@)),
            r ==> keys_of(final(self).open@).to_set() == keys_of(old(self).open@).to_set().remove(
                (name@, tag@),
            ) && pair_texts(final(self).missing@).to_set() == pair_texts(
                old(self).missing@,
            ).to_set().insert((name@, tag@)),
            !r ==> final(self).open@ == old(self).open@ && final(self).missing
                == old(self).missing,
    {
        let ghost start = *self;
        match take_key(&mut self.open, name, tag) {
            None => {
                proof {
                    lemma_same_ways(start, *self);
                }
                false
            },
            Some(key) => {
                insert_pair(&mut self.missing, (key.name, key.tag));
                proof {
                    lemma_same_ways(start, *self);
                    lemma_answered(start, *self, (name@, tag@));
                }
                true
            },
        }
    }

    /// Takes the answer that several repositories claim an identity; whether it was
    /// asked for.
    pub fn claimed_twice(&mut self, name: &str, tag: &str, report: String) -> (r: bool)
        requires
            old(self).valid(),
        ensures
            final(self).valid(),
            final(self).root == old(self).root,
            final(self).pending == old(self).pending,
            final(self).seen == old(self).seen,
            final(self).missing == old(self).missing,
            final(self).nodes == old(self).nodes,
            r == keys_of(old(self).open@).contains((name@, tag@)),
            r ==> keys_of(final(self).open@).to_set() == keys_of(old(self).open@).to_set().remove(
                (name@, tag@),
            ) && pair_texts(final(self).claimed@) == pair_texts(old(self).claimed@).push(
                (name@, tag@),
            ) && final(self).ambiguous@ == old(self).ambiguous@.push(report),
            !r ==> final(self).open@ == old(self).open@ && final(self).claimed
                == old(self).claimed && final(self).ambiguous == old(self).ambiguous,
    {
        let ghost start = *self;
        match take_key(&mut self.open, name, tag) {
            None => {
                proof {
                    lemma_same_ways(start, *self);
                }
                false
            },
            Some(key) => {
                self.claimed.push((key.name, key.tag));
                self.ambiguous.push(report);
                proof {
                    let was = pair_texts(start.claimed@);
                    assert(pair_texts(self.claimed@) =~= was.push((name@, tag@)));
                    lemma_push_set(was, (name@, tag@));
                    lemma_same_ways(start, *self);
                    lemma_answered(start, *self, (name@, tag@));
                }
                true
            },
        }
    }

    /// Takes a node whose bytes are at hand, where it was asked for: what it depends
    /// on and is not seen yet comes to wait, in the order of its manifest.
    #[verifier::rlimit(40)]
    pub fn materialized(&mut self, node: MaterializedPin) -> (r: bool)
        requires
            old(self).valid(),
        ensures
            final(self).valid(),
            final(self).root == old(self).root,
            final(self).seen == old(self).seen,
            final(self).missing == old(self).missing,
            final(self).claimed == old(self).claimed,
            final(self).ambiguous == old(self).ambiguous,
            r == (keys_of(old(self).open@).contains(identity_of(node)) && node.is_root == (
            identity_of(node) == root_of(*old(self)))),
            r ==> keys_of(final(self).open@).to_set() == keys_of(old(self).open@).to_set().remove(
                identity_of(node),
            ) && final(self).nodes@ == old(self).nodes@.push(node) && keys_of(
                final(self).pending@,
            ) == keys_of(old(self).pending@) + unseen(
                pair_texts(node.manifest.nodes@),
                pair_texts(old(self).seen@),
                node.manifest.nodes@.len() as int,
            ),
            !r ==> final(self).open@ == old(self).open@ && final(self).nodes == old(self).nodes
                && final(self).pending == old(self).pending,
    {
        let ghost start = *self;
        let ghost id = identity_of(node);
        let is_root: bool = str_eq(node.pin.name.as_str(), self.root.0.as_str()) && str_eq(
            node.pin.tag.as_str(),
            self.root.1.as_str(),
        );
        if node.is_root != is_root {
            return false;
        }
        match take_key(&mut self.open, node.pin.name.as_str(), node.pin.tag.as_str()) {
            None => {
                proof {
                    lemma_same_ways(start, *self);
                }
                return false;
            },
            Some(_) => {},
        }
        let ghost left = self.open@;
        let ghost deps = pair_texts(node.manifest.nodes@);
        let ghost known = pair_texts(self.seen@);
        let mut i: usize = 0;
        proof {
            assert(keys_of(self.pending@) + unseen(deps, known, 0) =~= keys_of(self.pending@));
            assert(known.contains(id)) by {
                assert(keys_of(start.open@).to_set().contains(id));
                assert(known.to_set().contains(id));
            }
        }
        while i < node.manifest.nodes.len()
            invariant
                i <= node.manifest.nodes@.len(),
                deps == pair_texts(node.manifest.nodes@),
                known == pair_texts(self.seen@),
                known.contains(id),
                self.root == start.root,
                self.seen == start.seen,
                self.open@ == left,
                self.missing == start.missing,
                self.claimed == start.claimed,
                self.ambiguous == start.ambiguous,
                self.nodes == start.nodes,
                start == *old(self),
                start.valid(),
                keys_of(self.pending@) == keys_of(start.pending@) + unseen(deps, known, i as int),
                forall|k: int|
                    0 <= k < self.pending@.len() ==> !(#[trigger] self.pending@[k]).is_root,
            decreases node.manifest.nodes.len() - i,
        {
            let dep = &node.manifest.nodes[i];
            let ghost before = keys_of(self.pending@);
            proof {
                assert(deps[i as int] == (dep.0@, dep.1@));
            }
            if !has_pair(&self.seen, dep.0.as_str(), dep.1.as_str()) {
                self.pending.push(
                    WalkKey { name: dep.0.clone(), tag: dep.1.clone(), is_root: false },
                );
                proof {
                    assert(keys_of(self.pending@) =~= before.push(deps[i as int]));
                    assert(before.push(deps[i as int]) =~= keys_of(start.pending@) + unseen(
                        deps,
                        known,
                        i + 1,
                    ));
                }
            }
            i += 1;
        }
        self.nodes.push(node);
        proof {
            lemma_taken_in(start, *self, node);
            assert(identities(self.nodes@) =~= identities(start.nodes@).push(id));
            lemma_push_set(identities(start.nodes@), id);
            lemma_answered(start, *self, id);
        }
        true
    }

    /// What the walk came to: the closure, its root first, or every problem it
    /// ran into.
    pub fn finish(self, cache_path: &str, hint: &str) -> (r: Result<PinnedClosure, Vec<String>>)
        requires
            self.valid(),
            self.pending@.len() == 0,
            self.open@.len() == 0,
        ensures
            match r {
                Ok(closure) => self.missing@.len() == 0 && self.ambiguous@.len() == 0
                    && closure.nodes@ == rooted(self.nodes@, true) + rooted(self.nodes@, false)
                    && is_closure(root_of(self), closure.nodes@),
                Err(problems) => (self.missing@.len() > 0 || self.ambiguous@.len() > 0)
                    && reports_problems(self, cache_path@, hint@, texts(problems@)),
            },
    {
        let mut problems = sort_texts(&self.ambiguous);
        let ghost ambiguous = texts(problems@);
        if self.missing.len() > 0 {
            let mut list: Vec<String> = Vec::new();
            let mut i: usize = 0;
            while i < self.missing.len()
                invariant
                    i <= self.missing@.len(),
                    list@.len() == i,
                    forall|k: int|
                        0 <= k < i ==> (#[trigger] list@[k])@ == self.missing@[k].0@ + ":"@
                            + self.missing@[k].1@,
                decreases self.missing.len() - i,
            {
                let mut text: String = self.missing[i].0.clone();
                text.append(":");
                text.append(self.missing[i].1.as_str());
                list.push(text);
                i += 1;
            }
            proof {
                assert(texts(list@) =~= pair_texts(self.missing@).map_values(
                    |key: PairText| key.0 + ":"@ + key.1,
                ));
            }
            let mut text: String = "Dependencies missing from nodes cache (".to_owned();
            text.append(cache_path);
            text.append("): ");
            text.append(join(&list, ", ").as_str());
            text.append(
                ". Run `peppy repo refresh` or add the missing nodes to a configured repository",
            );
            text.append(hint);
            text.append(".");
            let ghost added = text@;
            problems.push(text);
            proof {
                assert(texts(problems@) =~= ambiguous.push(added));
            }
        }
        proof {
            texts(self.ambiguous@).to_multiset_ensures();
            ambiguous.to_multiset_ensures();
            assert(ambiguous.len() == texts(self.ambiguous@).len());
            assert(texts(self.ambiguous@).len() == self.ambiguous@.len());
        }
        if problems.len() > 0 {
            proof {
                assert(in_order(ambiguous));
                assert(reports_problems(self, cache_path@, hint@, texts(problems@)));
                assert(texts(problems@).len() == problems@.len());
            }
            return Err(problems);
        }
        proof {
            assert(texts(problems@).len() == problems@.len());
        }
        proof {
            lemma_closure(self);
        }
        Ok(PinnedClosure { nodes: root_first(self.nodes) })
    }
}

/// The first `n` of a manifest's dependencies that are not seen, in order.
pub open spec fn unseen(deps: Seq<PairText>, seen: Seq<PairText>, n: int) -> Seq<PairText>
    decreases n,
{
    if n <= 0 || n > deps.len() {
        Seq::empty()
    } else if seen.contains(deps[n - 1]) {
        unseen(deps, seen, n - 1)
    } else {
        unseen(deps, seen, n - 1).push(deps[n - 1])
    }
}

/// Every dependency that is not seen is among the unseen ones.
proof fn lemma_unseen_contains(deps: Seq<PairText>, seen: Seq<PairText>, n: int, j: int)
    requires
        0 <= j < n <= deps.len(),
        !seen.contains(deps[j]),
    ensures
        unseen(deps, seen, n).contains(deps[j]),
    decreases n,
{
    let all = unseen(deps, seen, n);
    if j == n - 1 {
        assert(all[all.len() - 1] == deps[j]);
    } else {
        lemma_unseen_contains(deps, seen, n - 1, j);
        let before = unseen(deps, seen, n - 1);
        let k = choose|k: int| 0 <= k < before.len() && before[k] == deps[j];
        assert(all[k] == deps[j]);
    }
}

/// What is unseen is a dependency.
proof fn lemma_unseen_is_dep(deps: Seq<PairText>, seen: Seq<PairText>, n: int, k: int)
    requires
        n <= deps.len(),
        0 <= k < unseen(deps, seen, n).len(),
    ensures
        deps.contains(unseen(deps, seen, n)[k]),
    decreases n,
{
    if n > 0 {
        let before = unseen(deps, seen, n - 1);
        if k < before.len() {
            lemma_unseen_is_dep(deps, seen, n - 1, k);
        } else {
            assert(unseen(deps, seen, n)[k] == deps[n - 1]);
        }
    }
}

/// Taking pending nodes from the end, and counting the first unseen one as
/// seen, loses no dependency.
proof fn lemma_walk_moves(before: ClosureWalk, after: ClosureWalk, n: int)
    requires
        deps_accounted_for(before),
        0 <= n <= before.pending@.len(),
        after.nodes == before.nodes,
        after.pending@ == before.pending@.take(n),
        after.seen == before.seen || pair_texts(after.seen@) == pair_texts(before.seen@).push(
            keys_of(before.pending@)[n],
        ),
        after.seen != before.seen ==> n < before.pending@.len(),
        forall|k: int|
            n <= k < before.pending@.len() && !(k == n && after.seen != before.seen)
                ==> pair_texts(before.seen@).contains(#[trigger] keys_of(before.pending@)[k]),
    ensures
        deps_accounted_for(after),
{
    assert forall|i: int, j: int|
        0 <= i < after.nodes@.len() && 0 <= j < after.nodes@[i].manifest.nodes@.len() implies accounted_for(
        after,
        #[trigger] pair_texts(after.nodes@[i].manifest.nodes@)[j],
    ) by {
        let key = pair_texts(after.nodes@[i].manifest.nodes@)[j];
        assert(accounted_for(before, pair_texts(before.nodes@[i].manifest.nodes@)[j]));
        let known = pair_texts(before.seen@);
        let now = pair_texts(after.seen@);
        assert forall|x: PairText| known.contains(x) implies now.contains(x) by {
            let k = choose|k: int| 0 <= k < known.len() && known[k] == x;
            assert(now[k] == x);
        }
        if !known.contains(key) {
            let waiting = keys_of(before.pending@);
            let k = choose|k: int| 0 <= k < waiting.len() && waiting[k] == key;
            if k < n {
                assert(keys_of(after.pending@)[k] == key);
            } else if k == n && after.seen != before.seen {
                assert(now[known.len() as int] == key);
            }
        }
    }
}

/// The members of a list with one more at its end.
proof fn lemma_push_set<A>(list: Seq<A>, x: A)
    ensures
        list.push(x).to_set() == list.to_set().insert(x),
        list.no_duplicates() && !list.contains(x) ==> list.push(x).no_duplicates(),
{
    let after = list.push(x);
    assert forall|y: A| #[trigger] after.to_set().contains(y) == list.to_set().insert(
        x,
    ).contains(y) by {
        if list.contains(y) {
            let k = choose|k: int| 0 <= k < list.len() && list[k] == y;
            assert(after[k] == y);
        }
        if y == x {
            assert(after[list.len() as int] == y);
        }
        if after.contains(y) {
            let k = choose|k: int| 0 <= k < after.len() && after[k] == y;
            if k < list.len() {
                assert(list[k] == y);
            }
        }
    }
    assert(after.to_set() =~= list.to_set().insert(x));
}

/// The members of a list without repetitions, one of them taken out.
proof fn lemma_remove_set<A>(list: Seq<A>, at: int)
    requires
        list.no_duplicates(),
        0 <= at < list.len(),
    ensures
        list.remove(at).to_set() == list.to_set().remove(list[at]),
        list.remove(at).no_duplicates(),
{
    let after = list.remove(at);
    assert forall|y: A| #[trigger] after.to_set().contains(y) == list.to_set().remove(
        list[at],
    ).contains(y) by {
        if list.contains(y) && y != list[at] {
            let k = choose|k: int| 0 <= k < list.len() && list[k] == y;
            assert(after[if k < at {
                k
            } else {
                k - 1
            }] == y);
        }
        if after.contains(y) {
            let k = choose|k: int| 0 <= k < after.len() && after[k] == y;
            assert(list[if k < at {
                k
            } else {
                k + 1
            }] == y);
        }
    }
    assert(after.to_set() =~= list.to_set().remove(list[at]));
}

/// More nodes reach more.
proof fn lemma_reached_by_more(
    nodes: Seq<MaterializedPin>,
    more: Seq<MaterializedPin>,
    root: PairText,
    key: PairText,
)
    requires
        forall|node: MaterializedPin| #[trigger] nodes.contains(node) ==> more.contains(node),
        reached(nodes, root, key),
    ensures
        reached(more, root, key),
{
    let path = choose|path: Seq<PairText>|
        path.len() > 0 && path[0] == root && path.last() == key && #[trigger] leads(nodes, path);
    assert forall|k: int| 0 <= k < path.len() - 1 implies #[trigger] depends(
        more,
        path[k],
        path[k + 1],
    ) by {
        assert(depends(nodes, path[k], path[k + 1]));
        let (i, j) = choose|i: int, j: int|
            0 <= i < nodes.len() && 0 <= j < nodes[i].manifest.nodes@.len() && identity_of(nodes[i])
                == path[k] && #[trigger] pair_texts(nodes[i].manifest.nodes@)[j] == path[k + 1];
        assert(nodes.contains(nodes[i]));
        let m = choose|m: int| 0 <= m < more.len() && more[m] == nodes[i];
        assert(pair_texts(more[m].manifest.nodes@)[j] == path[k + 1]);
    }
    assert(leads(more, path));
}

/// A root is reached.
proof fn lemma_root_reached(nodes: Seq<MaterializedPin>, root: PairText)
    ensures
        reached(nodes, root, root),
{
    let path = seq![root];
    assert(leads(nodes, path));
}

/// What something that is reached depends on is reached.
proof fn lemma_reached_on(
    nodes: Seq<MaterializedPin>,
    root: PairText,
    from: PairText,
    to: PairText,
)
    requires
        reached(nodes, root, from),
        depends(nodes, from, to),
    ensures
        reached(nodes, root, to),
{
    let path = choose|path: Seq<PairText>|
        path.len() > 0 && path[0] == root && path.last() == from && #[trigger] leads(nodes, path);
    let longer = path.push(to);
    assert forall|k: int| 0 <= k < longer.len() - 1 implies #[trigger] depends(
        nodes,
        longer[k],
        longer[k + 1],
    ) by {
        if k < path.len() - 1 {
            assert(depends(nodes, path[k], path[k + 1]));
        }
    }
    assert(leads(nodes, longer));
}

/// Where nothing waits, a path from the root stays among what was handed out.
proof fn lemma_path_is_seen(walk: ClosureWalk, path: Seq<PairText>, k: int)
    requires
        deps_accounted_for(walk),
        walk.pending@.len() == 0,
        pair_texts(walk.seen@).contains(root_of(walk)),
        path.len() > 0,
        path[0] == root_of(walk),
        leads(walk.nodes@, path),
        0 <= k < path.len(),
    ensures
        pair_texts(walk.seen@).contains(path[k]),
    decreases k,
{
    if k > 0 {
        let nodes = walk.nodes@;
        assert(depends(nodes, path[k - 1], path[k - 1 + 1]));
        let (i, j) = choose|i: int, j: int|
            0 <= i < nodes.len() && 0 <= j < nodes[i].manifest.nodes@.len() && identity_of(nodes[i])
                == path[k - 1] && #[trigger] pair_texts(nodes[i].manifest.nodes@)[j] == path[k];
        assert(accounted_for(walk, pair_texts(nodes[i].manifest.nodes@)[j]));
        assert(keys_of(walk.pending@).len() == 0);
    }
}

/// What holds of dependencies and paths depends on what is pending, what is seen
/// and the nodes alone.
proof fn lemma_same_ways(before: ClosureWalk, after: ClosureWalk)
    requires
        deps_accounted_for(before),
        only_reached(before),
        after.root == before.root,
        after.pending == before.pending,
        after.seen == before.seen,
        after.nodes == before.nodes,
    ensures
        deps_accounted_for(after),
        only_reached(after),
{
    assert forall|key: PairText| #[trigger] accounted_for(after, key) == accounted_for(
        before,
        key,
    ) by {}
}

/// An identity that is handed out is open.
proof fn lemma_hand_out(before: ClosureWalk, after: ClosureWalk, n: int)
    requires
        before.valid(),
        0 <= n < before.pending@.len(),
        after.root == before.root,
        after.missing == before.missing,
        after.claimed == before.claimed,
        after.ambiguous == before.ambiguous,
        after.nodes == before.nodes,
        after.pending@ == before.pending@.take(n),
        !pair_texts(before.seen@).contains(key_of(before.pending@[n])),
        pair_texts(after.seen@) == pair_texts(before.seen@).push(key_of(before.pending@[n])),
        keys_of(after.open@) == keys_of(before.open@).push(key_of(before.pending@[n])),
        after.open@.len() == before.open@.len() + 1,
        after.open@.take(before.open@.len() as int) == before.open@,
        after.open@[before.open@.len() as int].is_root == before.pending@[n].is_root,
    ensures
        only_reached(after),
        knows_root(after),
        sorted_out(after),
        pair_texts(after.seen@).no_duplicates(),
        before.pending@[n].is_root == (key_of(before.pending@[n]) == root_of(before)),
{
    let key = key_of(before.pending@[n]);
    let known = pair_texts(before.seen@);
    let now = pair_texts(after.seen@);
    lemma_push_set(known, key);
    lemma_push_set(keys_of(before.open@), key);
    assert(known.contains(key) == known.to_set().contains(key));
    assert(keys_of(before.open@).contains(key) ==> keys_of(before.open@).to_set().contains(key));
    assert(now.to_set() =~= keys_of(after.open@).to_set() + identities(after.nodes@).to_set()
        + pair_texts(after.missing@).to_set() + pair_texts(after.claimed@).to_set());
    assert forall|x: PairText| #[trigger] accounted_for(after, x) implies reached(
        after.nodes@,
        root_of(after),
        x,
    ) by {
        assert(accounted_for(before, x)) by {
            if now.contains(x) && !known.contains(x) {
                assert(now.to_set().contains(x));
                assert(x == key);
                assert(keys_of(before.pending@)[n] == x);
            }
            if keys_of(after.pending@).contains(x) {
                let k = choose|k: int|
                    0 <= k < keys_of(after.pending@).len() && keys_of(after.pending@)[k] == x;
                assert(keys_of(before.pending@)[k] == x);
            }
        }
    }
    assert(now.contains(root_of(after))) by {
        if before.seen@.len() == 0 {
            assert(now[known.len() as int] == key);
        } else {
            let k = choose|k: int| 0 <= k < known.len() && known[k] == root_of(before);
            assert(now[k] == root_of(before));
        }
    }
    assert forall|k: int| 0 <= k < after.pending@.len() implies !(
    #[trigger] after.pending@[k]).is_root by {
        assert(after.pending@[k] == before.pending@[k]);
    }
    assert forall|k: int| 0 <= k < after.open@.len() implies (#[trigger] after.open@[k]).is_root
        == (key_of(after.open@[k]) == root_of(after)) by {
        assert(keys_of(after.open@)[k] == key_of(after.open@[k]));
        if k < before.open@.len() {
            assert(after.open@.take(before.open@.len() as int)[k] == before.open@[k]);
        }
    }
}

/// An identity that was open and is answered for stands in one place again.
proof fn lemma_answered(before: ClosureWalk, after: ClosureWalk, key: PairText)
    requires
        before.valid(),
        after.root == before.root,
        after.seen == before.seen,
        keys_of(before.open@).contains(key),
        keys_of(after.open@).no_duplicates(),
        keys_of(after.open@).to_set() == keys_of(before.open@).to_set().remove(key),
        forall|k: int|
            0 <= k < after.open@.len() ==> before.open@.contains(#[trigger] after.open@[k]),
        ({
            let nodes = identities(before.nodes@);
            let missing = pair_texts(before.missing@);
            let claimed = pair_texts(before.claimed@);
            ||| after.nodes == before.nodes && after.claimed == before.claimed && after.ambiguous
                == before.ambiguous && pair_texts(after.missing@).to_set()
                == missing.to_set().insert(key)
            ||| after.nodes == before.nodes && after.missing == before.missing && pair_texts(
                after.claimed@,
            ) == claimed.push(key) && after.ambiguous@.len() == before.ambiguous@.len() + 1
            ||| after.missing == before.missing && after.claimed == before.claimed
                && after.ambiguous == before.ambiguous && identities(after.nodes@) == nodes.push(
                key,
            )
        }),
        after.nodes == before.nodes || (after.nodes@ == before.nodes@.push(after.nodes@.last())
            && after.nodes@.last().is_root == (key == root_of(before))),
        after.pending == before.pending || forall|k: int|
            0 <= k < after.pending@.len() ==> !(#[trigger] after.pending@[k]).is_root,
    ensures
        sorted_out(after),
        knows_root(after),
{
    let nodes = identities(before.nodes@);
    let claimed = pair_texts(before.claimed@);
    let open = keys_of(before.open@);
    lemma_push_set(nodes, key);
    lemma_push_set(claimed, key);
    assert(open.to_set().contains(key));
    assert(nodes.contains(key) == nodes.to_set().contains(key));
    assert(claimed.contains(key) == claimed.to_set().contains(key));
    assert(pair_texts(after.seen@).to_set() =~= keys_of(after.open@).to_set() + identities(
        after.nodes@,
    ).to_set() + pair_texts(after.missing@).to_set() + pair_texts(after.claimed@).to_set());
    assert(claimed.len() == before.claimed@.len());
    assert(pair_texts(after.claimed@).len() == after.claimed@.len());
    assert(before.seen@.len() > 0) by {
        assert(pair_texts(before.seen@).to_set().contains(key));
    }
    assert forall|k: int| 0 <= k < after.open@.len() implies (#[trigger] after.open@[k]).is_root
        == (key_of(after.open@[k]) == root_of(after)) by {
        let j = choose|j: int| 0 <= j < before.open@.len() && before.open@[j] == after.open@[k];
        assert(before.open@[j].is_root == (key_of(before.open@[j]) == root_of(before)));
    }
    assert forall|k: int| 0 <= k < after.nodes@.len() implies (#[trigger] after.nodes@[k]).is_root
        == (identity_of(after.nodes@[k]) == root_of(after)) by {
        if k < before.nodes@.len() {
            assert(after.nodes@[k] == before.nodes@[k]);
        } else {
            assert(identities(after.nodes@)[k] == key);
        }
    }
}

/// A node that is taken in brings what it depends on, and nothing else.
proof fn lemma_taken_in(before: ClosureWalk, after: ClosureWalk, node: MaterializedPin)
    requires
        before.valid(),
        after.root == before.root,
        after.seen == before.seen,
        pair_texts(before.seen@).contains(identity_of(node)),
        after.nodes@ == before.nodes@.push(node),
        keys_of(after.pending@) == keys_of(before.pending@) + unseen(
            pair_texts(node.manifest.nodes@),
            pair_texts(before.seen@),
            node.manifest.nodes@.len() as int,
        ),
    ensures
        deps_accounted_for(after),
        only_reached(after),
{
    let deps = pair_texts(node.manifest.nodes@);
    let known = pair_texts(before.seen@);
    let n = deps.len() as int;
    let id = identity_of(node);
    let root = root_of(before);
    let waiting = keys_of(before.pending@);
    let now = keys_of(after.pending@);
    assert forall|i: int, j: int|
        0 <= i < after.nodes@.len() && 0 <= j < after.nodes@[i].manifest.nodes@.len() implies accounted_for(
        after,
        #[trigger] pair_texts(after.nodes@[i].manifest.nodes@)[j],
    ) by {
        let key = pair_texts(after.nodes@[i].manifest.nodes@)[j];
        if i < before.nodes@.len() {
            assert(accounted_for(before, pair_texts(before.nodes@[i].manifest.nodes@)[j]));
            if waiting.contains(key) {
                let k = choose|k: int| 0 <= k < waiting.len() && waiting[k] == key;
                assert(now[k] == key);
            }
        } else if !known.contains(key) {
            lemma_unseen_contains(deps, known, n, j);
            let k = choose|k: int|
                0 <= k < unseen(deps, known, n).len() && unseen(deps, known, n)[k] == key;
            assert(now[waiting.len() + k] == key);
        }
    }
    assert forall|x: MaterializedPin| #[trigger] before.nodes@.contains(x) implies after.nodes@.contains(
        x,
    ) by {
        let k = choose|k: int| 0 <= k < before.nodes@.len() && before.nodes@[k] == x;
        assert(after.nodes@[k] == x);
    }
    assert forall|key: PairText| #[trigger] accounted_for(after, key) implies reached(
        after.nodes@,
        root,
        key,
    ) by {
        if accounted_for(before, key) {
            lemma_reached_by_more(before.nodes@, after.nodes@, root, key);
        } else {
            let k = choose|k: int| 0 <= k < now.len() && now[k] == key;
            if k < waiting.len() {
                assert(waiting[k] == key);
            }
            assert(unseen(deps, known, n)[k - waiting.len()] == key);
            lemma_unseen_is_dep(deps, known, n, k - waiting.len());
            let j = choose|j: int| 0 <= j < deps.len() && deps[j] == key;
            assert(accounted_for(before, id));
            lemma_reached_by_more(before.nodes@, after.nodes@, root, id);
            let last = before.nodes@.len() as int;
            assert(after.nodes@[last] == node);
            assert(pair_texts(after.nodes@[last].manifest.nodes@)[j] == key);
            assert(depends(after.nodes@, id, key));
            lemma_reached_on(after.nodes@, root, id, key);
        }
    }
}

/// The roots of a list, or the others, are some of its nodes, and each stands
/// there once where it does in the list.
proof fn lemma_rooted_identities(nodes: Seq<MaterializedPin>, is_root: bool)
    ensures
        forall|x: MaterializedPin| #[trigger]
            rooted(nodes, is_root).contains(x) <==> nodes.contains(x) && x.is_root == is_root,
        identities(nodes).no_duplicates() ==> identities(
            rooted(nodes, is_root),
        ).no_duplicates(),
    decreases nodes.len(),
{
    if nodes.len() > 0 {
        let rest = nodes.drop_last();
        let last = nodes.last();
        let before = rooted(rest, is_root);
        let all = rooted(nodes, is_root);
        lemma_rooted_identities(rest, is_root);
        assert(nodes =~= rest.push(last));
        lemma_push_set(rest, last);
        lemma_push_set(before, last);
        assert forall|x: MaterializedPin| #[trigger] all.contains(x) <==> nodes.contains(x)
            && x.is_root == is_root by {
            assert(nodes.contains(x) == nodes.to_set().contains(x));
            assert(rest.contains(x) == rest.to_set().contains(x));
            assert(all.contains(x) == all.to_set().contains(x));
            assert(before.contains(x) == before.to_set().contains(x));
        }
        if identities(nodes).no_duplicates() {
            assert(identities(nodes) =~= identities(rest).push(identity_of(last)));
            assert forall|i: int, j: int|
                0 <= i < identities(rest).len() && 0 <= j < identities(rest).len() && i
                    != j implies identities(rest)[i] != identities(rest)[j] by {
                assert(identities(nodes)[i] == identities(rest)[i]);
                assert(identities(nodes)[j] == identities(rest)[j]);
            }
            if last.is_root == is_root {
                let id = identity_of(last);
                assert(identities(all) =~= identities(before).push(id));
                if identities(before).contains(id) {
                    let k = choose|k: int|
                        0 <= k < identities(before).len() && identities(before)[k] == id;
                    assert(before.contains(before[k]));
                    assert(rest.contains(before[k]));
                    let m = choose|m: int| 0 <= m < rest.len() && rest[m] == before[k];
                    assert(identities(nodes)[m] == id);
                    assert(identities(nodes)[nodes.len() - 1] == id);
                }
                lemma_push_set(identities(before), id);
            }
        }
    }
}

/// Every identity of a list is that of one of its nodes.
proof fn lemma_identity_at(nodes: Seq<MaterializedPin>, key: PairText) -> (k: int)
    requires
        identities(nodes).contains(key),
    ensures
        0 <= k < nodes.len(),
        identity_of(nodes[k]) == key,
{
    let k = choose|k: int| 0 <= k < identities(nodes).len() && identities(nodes)[k] == key;
    k
}

/// What a walk with nothing left to do, and without a problem, has is the root's
/// closure.
proof fn lemma_closure(walk: ClosureWalk)
    requires
        walk.valid(),
        walk.pending@.len() == 0,
        walk.open@.len() == 0,
        walk.missing@.len() == 0,
        walk.ambiguous@.len() == 0,
    ensures
        is_closure(root_of(walk), rooted(walk.nodes@, true) + rooted(walk.nodes@, false)),
{
    let nodes = walk.nodes@;
    let root = root_of(walk);
    let roots = rooted(nodes, true);
    let others = rooted(nodes, false);
    let all = roots + others;
    lemma_rooted_identities(nodes, true);
    lemma_rooted_identities(nodes, false);
    assert forall|key: PairText| #[trigger] identities(nodes).contains(key) <==> reached(
        nodes,
        root,
        key,
    ) by {
        a_finished_walk_covers_its_closure(walk, key);
        assert(!pair_texts(walk.missing@).contains(key));
        assert(!pair_texts(walk.claimed@).contains(key));
    }
    lemma_root_reached(nodes, root);
    let at = lemma_identity_at(nodes, root);
    assert(nodes[at].is_root);
    assert(nodes.contains(nodes[at]));
    assert(roots.contains(nodes[at]));
    if roots.len() > 1 {
        assert(roots.contains(roots[1]) && roots.contains(roots[0]));
        let m = choose|m: int| 0 <= m < nodes.len() && nodes[m] == roots[1];
        let z = choose|z: int| 0 <= z < nodes.len() && nodes[z] == roots[0];
        assert(identity_of(nodes[m]) == root && identity_of(nodes[z]) == root);
        assert(identities(roots)[1] == root && identities(roots)[0] == root);
    }
    assert(all[0] == roots[0]);
    assert(roots.contains(roots[0]));
    assert(identity_of(all[0]) == root) by {
        let z = choose|z: int| 0 <= z < nodes.len() && nodes[z] == roots[0];
        assert(nodes[z].is_root == (identity_of(nodes[z]) == root));
    }
    assert forall|k: int| 0 <= k < all.len() implies (#[trigger] all[k]).is_root == (k == 0) by {
        if k < roots.len() {
            assert(roots.contains(roots[k]));
        } else {
            assert(all[k] == others[k - roots.len()]);
            assert(others.contains(others[k - roots.len()]));
        }
    }
    assert(identities(all) =~= identities(roots) + identities(others));
    assert forall|i: int, j: int|
        0 <= i < identities(all).len() && 0 <= j < identities(all).len() && i
            != j implies identities(all)[i] != identities(all)[j] by {
        let n = roots.len();
        if i < n && j < n {
        } else if i >= n && j >= n {
            assert(identities(others)[i - n] != identities(others)[j - n]);
        } else {
            let o = if i < n {
                j
            } else {
                i
            };
            assert(others.contains(others[o - n]));
            let m = choose|m: int| 0 <= m < nodes.len() && nodes[m] == others[o - n];
            assert(nodes[m].is_root == (identity_of(nodes[m]) == root));
            assert(identities(all)[o] != root);
            assert(identities(all)[0] == root);
        }
    }
    assert forall|x: MaterializedPin| #[trigger] nodes.contains(x) <==> all.contains(x) by {
        if nodes.contains(x) {
            if x.is_root {
                assert(roots.contains(x));
                let k = choose|k: int| 0 <= k < roots.len() && roots[k] == x;
                assert(all[k] == x);
            } else {
                assert(others.contains(x));
                let k = choose|k: int| 0 <= k < others.len() && others[k] == x;
                assert(all[roots.len() + k] == x);
            }
        }
        if all.contains(x) {
            let k = choose|k: int| 0 <= k < all.len() && all[k] == x;
            if k < roots.len() {
                assert(roots.contains(roots[k]));
            } else {
                assert(others.contains(others[k - roots.len()]));
            }
        }
    }
    assert forall|key: PairText| #[trigger] identities(all).contains(key) <==> reached(
        all,
        root,
        key,
    ) by {
        if identities(all).contains(key) {
            let k = lemma_identity_at(all, key);
            assert(all.contains(all[k]));
            assert(nodes.contains(all[k]));
            let m = choose|m: int| 0 <= m < nodes.len() && nodes[m] == all[k];
            assert(identities(nodes)[m] == key);
            assert(identities(nodes).contains(key));
            lemma_reached_by_more(nodes, all, root, key);
        }
        if reached(all, root, key) {
            lemma_reached_by_more(all, nodes, root, key);
            let m = lemma_identity_at(nodes, key);
            assert(nodes.contains(nodes[m]));
            let k = choose|k: int| 0 <= k < all.len() && all[k] == nodes[m];
            assert(identities(all)[k] == key);
        }
    }
}

/// Once everything that was handed out is answered for and nothing waits any more,
/// exactly the identities that are reached from the root were handed out. Each of
/// them is a node, missing or claimed by several repositories, and only one of
/// these; each node is there once, and the root is the only one that is marked as
/// the root.
pub proof fn a_finished_walk_covers_its_closure(walk: ClosureWalk, key: PairText)
    requires
        walk.valid(),
        walk.pending@.len() == 0,
        walk.open@.len() == 0,
    ensures
        pair_texts(walk.seen@).contains(key) <==> reached(walk.nodes@, root_of(walk), key),
        pair_texts(walk.seen@).contains(key) <==> identities(walk.nodes@).contains(key)
            || pair_texts(walk.missing@).contains(key) || pair_texts(walk.claimed@).contains(key),
        !(identities(walk.nodes@).contains(key) && pair_texts(walk.missing@).contains(key)),
        !(identities(walk.nodes@).contains(key) && pair_texts(walk.claimed@).contains(key)),
        !(pair_texts(walk.missing@).contains(key) && pair_texts(walk.claimed@).contains(key)),
        identities(walk.nodes@).no_duplicates(),
        forall|k: int|
            0 <= k < walk.nodes@.len() ==> (#[trigger] walk.nodes@[k]).is_root == (identity_of(
                walk.nodes@[k],
            ) == root_of(walk)),
{
    let seen = pair_texts(walk.seen@);
    let nodes = identities(walk.nodes@);
    let missing = pair_texts(walk.missing@);
    let claimed = pair_texts(walk.claimed@);
    let open = keys_of(walk.open@);
    assert(seen.contains(key) == seen.to_set().contains(key));
    assert(nodes.contains(key) == nodes.to_set().contains(key));
    assert(missing.contains(key) == missing.to_set().contains(key));
    assert(claimed.contains(key) == claimed.to_set().contains(key));
    assert(open.len() == 0);
    assert(!open.to_set().contains(key));
    if seen.contains(key) {
        assert(accounted_for(walk, key));
    }
    if reached(walk.nodes@, root_of(walk), key) {
        let path = choose|path: Seq<PairText>|
            path.len() > 0 && path[0] == root_of(walk) && path.last() == key && #[trigger] leads(
                walk.nodes@,
                path,
            );
        lemma_path_is_seen(walk, path, path.len() - 1);
    }
}

/// A walk comes to a closure only where no identity was missing and none was claimed by
/// several repositories. Else every missing identity is named in the problems, and every
/// report of a claimed one is among them.
pub proof fn a_walk_reports_everything_that_is_wrong(
    walk: ClosureWalk,
    cache_path: &str,
    hint: &str,
    r: Result<PinnedClosure, Vec<String>>,
    k: int,
)
    requires
        walk.valid(),
        walk.pending@.len() == 0,
        walk.open@.len() == 0,
        call_ensures(ClosureWalk::finish, (walk, cache_path, hint), r),
    ensures
        r is Ok <==> walk.missing@.len() == 0 && walk.ambiguous@.len() == 0,
        r matches Err(problems) ==> (0 <= k < walk.ambiguous@.len() ==> texts(problems@).contains(
            walk.ambiguous@[k]@,
        )),
        r matches Err(problems) ==> (0 <= k < walk.missing@.len() ==> mentions(
            problems@[problems@.len() - 1]@,
            walk.missing@[k].0@ + ":"@ + walk.missing@[k].1@,
        )),
{
    if let Err(problems) = r {
        let all = texts(problems@);
        let ambiguous = choose|ambiguous: Seq<Seq<char>>|
            #[trigger] in_order(ambiguous) && ambiguous.to_multiset() == texts(
                walk.ambiguous@,
            ).to_multiset() && all == if walk.missing@.len() > 0 {
                ambiguous.push(missing_text(pair_texts(walk.missing@), cache_path@, hint@))
            } else {
                ambiguous
            };
        assert(all.len() == problems@.len());
        if 0 <= k < walk.ambiguous@.len() {
            let told = walk.ambiguous@[k]@;
            let list = texts(walk.ambiguous@);
            assert(list[k] == told);
            list.to_multiset_ensures();
            ambiguous.to_multiset_ensures();
            assert(list.contains(told));
            assert(list.to_multiset().count(told) > 0);
            assert(ambiguous.contains(told));
            let i = choose|i: int| 0 <= i < ambiguous.len() && ambiguous[i] == told;
            assert(all[i] == told);
        }
        if 0 <= k < walk.missing@.len() {
            let missing = pair_texts(walk.missing@);
            let names = missing.map_values(|key: PairText| key.0 + ":"@ + key.1);
            let name = walk.missing@[k].0@ + ":"@ + walk.missing@[k].1@;
            assert(names[k] == name);
            a_join_mentions_every_text(names, ", "@, k);
            let list = joined(names, ", "@);
            let head = "Dependencies missing from nodes cache ("@ + cache_path@ + "): "@;
            let a = ". Run `peppy repo refresh` or add the missing nodes to a configured repository"@;
            what_is_written_is_mentioned(head, list, a);
            mentions_carry_over(head + list + a, list, name);
            a_longer_text_mentions_as_much(head + list + a, name, hint@);
            a_longer_text_mentions_as_much(head + list + a + hint@, name, "."@);
            assert(all.last() == missing_text(missing, cache_path@, hint@));
            assert(all[problems@.len() - 1] == problems@[problems@.len() - 1]@);
        }
    }
}

} // verus!
