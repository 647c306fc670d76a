//! The order of texts, and ordered lists of them: what a sorted set or a
//! sorted list of names holds.
use crate::text::texts;
use vstd::prelude::*;
use vstd::string::*;

verus! {

/// How one text stands to another.
#[derive(Clone, Copy, PartialEq, Eq, Structural)]
pub enum Side {
    Before,
    Same,
    After,
}

/// Whether `a` comes before `b`: character by character, a text before every
/// longer one that it begins.
pub open spec fn text_lt(a: Seq<char>, b: Seq<char>) -> bool
    decreases a.len(),
{
    if b.len() == 0 {
        false
    } else if a.len() == 0 {
        true
    } else if a[0] != b[0] {
        a[0] < b[0]
    } else {
        text_lt(a.drop_first(), b.drop_first())
    }
}

/// No text comes before itself.
pub proof fn lemma_lt_irreflexive(a: Seq<char>)
    ensures
        !text_lt(a, a),
    decreases a.len(),
{
    if a.len() > 0 {
        lemma_lt_irreflexive(a.drop_first());
    }
}

/// What comes before an earlier text comes before the later one too.
pub proof fn lemma_lt_transitive(a: Seq<char>, b: Seq<char>, c: Seq<char>)
    requires
        text_lt(a, b),
        text_lt(b, c),
    ensures
        text_lt(a, c),
    decreases a.len(),
{
    if a.len() > 0 && b.len() > 0 && c.len() > 0 && a[0] == b[0] && b[0] == c[0] {
        lemma_lt_transitive(a.drop_first(), b.drop_first(), c.drop_first());
    }
}

/// Of two different texts exactly one comes first.
pub proof fn lemma_lt_total(a: Seq<char>, b: Seq<char>)
    ensures
        a == b || text_lt(a, b) || text_lt(b, a),
        !(text_lt(a, b) && text_lt(b, a)),
    decreases a.len(),
{
    if a.len() > 0 && b.len() > 0 && a[0] == b[0] {
        lemma_lt_total(a.drop_first(), b.drop_first());
        if a.drop_first() == b.drop_first() {
            assert(a =~= seq![a[0]] + a.drop_first());
            assert(b =~= seq![b[0]] + b.drop_first());
        }
    } else if a.len() == 0 && b.len() == 0 {
        assert(a =~= b);
    }
}

/// How `a` stands to `b` in the order of texts.
pub fn side_of(a: &str, b: &str) -> (r: Side)
    ensures
        r == Side::Before <==> text_lt(a@, b@),
        r == Side::Same <==> a@ == b@,
        r == Side::After <==> text_lt(b@, a@),
{
    let x = crate::text::to_chars(a);
    let y = crate::text::to_chars(b);
    let mut i: usize = 0;
    proof {
        assert(x@.skip(0) =~= x@);
        assert(y@.skip(0) =~= y@);
        lemma_lt_irreflexive(x@);
        lemma_lt_total(x@, y@);
    }
    while i < x.len() && i < y.len()
        invariant
            i <= x@.len(),
            i <= y@.len(),
            a@ == x@,
            b@ == y@,
            !text_lt(x@, x@),
            !(text_lt(x@, y@) && text_lt(y@, x@)),
            x@.take(i as int) == y@.take(i as int),
            text_lt(x@, y@) == text_lt(x@.skip(i as int), y@.skip(i as int)),
            text_lt(y@, x@) == text_lt(y@.skip(i as int), x@.skip(i as int)),
        decreases x.len() - i,
    {
        if x[i] != y[i] {
            if x[i] < y[i] {
                return Side::Before;
            }
            return Side::After;
        }
        proof {
            assert(x@.skip(i as int).drop_first() =~= x@.skip(i + 1));
            assert(y@.skip(i as int).drop_first() =~= y@.skip(i + 1));
            assert(x@.take(i + 1) =~= x@.take(i as int).push(x@[i as int]));
            assert(y@.take(i + 1) =~= y@.take(i as int).push(y@[i as int]));
        }
        i += 1;
    }
    if i < y.len() {
        Side::Before
    } else if i < x.len() {
        Side::After
    } else {
        proof {
            assert(x@.take(i as int) =~= x@);
            assert(y@.take(i as int) =~= y@);
        }
        Side::Same
    }
}

/// Whether a list of texts holds each once, in order.
pub open spec fn ascending(list: Seq<Seq<char>>) -> bool {
    forall|i: int, j: int| 0 <= i < j < list.len() ==> text_lt(#[trigger] list[i], #[trigger] list[j])
}

/// Whether a list of texts is in order, equal ones side by side.
pub open spec fn in_order(list: Seq<Seq<char>>) -> bool {
    forall|i: int, j: int|
        0 <= i < j < list.len() ==> !text_lt(#[trigger] list[j], #[trigger] list[i])
}

/// Whether `x` is among the strings of `list`.
pub fn has_text(list: &Vec<String>, x: &str) -> (r: bool)
    ensures
        r == texts(list@).contains(x@),
{
    let mut i: usize = 0;
    while i < list.len()
        invariant
            i <= list@.len(),
            forall|k: int| 0 <= k < i ==> texts(list@)[k] != x@,
        decreases list.len() - i,
    {
        if crate::text::str_eq(list[i].as_str(), x) {
            proof {
                assert(texts(list@)[i as int] == x@);
            }
            return true;
        }
        i += 1;
    }
    false
}

/// Two ascending lists of the same texts are the same list: a set of names
/// has one rendering.
pub proof fn ascending_lists_are_fixed_by_their_texts(a: Seq<Seq<char>>, b: Seq<Seq<char>>)
    requires
        ascending(a),
        ascending(b),
        a.to_set() == b.to_set(),
    ensures
        a == b,
    decreases a.len(),
{
    assert(forall|x: Seq<char>| a.contains(x) == a.to_set().contains(x));
    assert(forall|x: Seq<char>| b.contains(x) == b.to_set().contains(x));
    if a.len() == 0 {
        if b.len() > 0 {
            assert(b.contains(b[0]));
        }
        assert(a =~= b);
    } else if b.len() == 0 {
        assert(a.contains(a[0]));
    } else {
        let x = a.last();
        let y = b.last();
        assert(a.contains(x));
        assert(b.contains(y));
        let i = choose|i: int| 0 <= i < b.len() && b[i] == x;
        let j = choose|j: int| 0 <= j < a.len() && a[j] == y;
        if x != y {
            assert(i < b.len() - 1);
            assert(j < a.len() - 1);
            assert(text_lt(b[i], b[b.len() - 1]));
            assert(text_lt(a[j], a[a.len() - 1]));
            lemma_lt_total(x, y);
        }
        let p = a.drop_last();
        let q = b.drop_last();
        assert forall|z: Seq<char>| p.to_set().contains(z) == q.to_set().contains(z) by {
            lemma_lt_irreflexive(x);
            if p.contains(z) {
                let k = choose|k: int| 0 <= k < p.len() && p[k] == z;
                assert(a[k] == z);
                assert(text_lt(a[k], a[a.len() - 1]));
                assert(b.contains(z));
                let m = choose|m: int| 0 <= m < b.len() && b[m] == z;
                assert(q[m] == z);
            }
            if q.contains(z) {
                let k = choose|k: int| 0 <= k < q.len() && q[k] == z;
                assert(b[k] == z);
                assert(text_lt(b[k], b[b.len() - 1]));
                assert(a.contains(z));
                let m = choose|m: int| 0 <= m < a.len() && a[m] == z;
                assert(p[m] == z);
            }
        }
        assert(p.to_set() =~= q.to_set());
        ascending_lists_are_fixed_by_their_texts(p, q);
        assert(a =~= p.push(x));
        assert(b =~= q.push(y));
    }
}

/// Where `x` belongs in an ascending list: every text before that place comes
/// before `x`, and none from there on does.
pub fn place_of(list: &Vec<String>, x: &str) -> (at: usize)
    requires
        ascending(texts(list@)),
    ensures
        at <= list@.len(),
        forall|k: int| 0 <= k < at ==> text_lt(#[trigger] texts(list@)[k], x@),
        forall|k: int| at <= k < list@.len() ==> !text_lt(#[trigger] texts(list@)[k], x@),
        texts(list@).contains(x@) <==> (at < list@.len() && texts(list@)[at as int] == x@),
{
    let mut at: usize = 0;
    while at < list.len()
        invariant
            at <= list@.len(),
            ascending(texts(list@)),
            forall|k: int| 0 <= k < at ==> text_lt(#[trigger] texts(list@)[k], x@),
        decreases list.len() - at,
    {
        let side = side_of(list[at].as_str(), x);
        if side != Side::Before {
            proof {
                let all = texts(list@);
                assert(all[at as int] == list@[at as int]@);
                assert forall|k: int| at <= k < all.len() implies !text_lt(#[trigger] all[k], x@) by {
                    if text_lt(all[k], x@) && k > at {
                        assert(text_lt(all[at as int], all[k]));
                        lemma_lt_transitive(all[at as int], all[k], x@);
                    }
                }
                if all.contains(x@) {
                    let k = choose|k: int| 0 <= k < all.len() && all[k] == x@;
                    lemma_lt_irreflexive(x@);
                    if k > at {
                        assert(text_lt(all[at as int], all[k]));
                    }
                    assert(k == at);
                }
            }
            return at;
        }
        at += 1;
    }
    proof {
        let all = texts(list@);
        if all.contains(x@) {
            let k = choose|k: int| 0 <= k < all.len() && all[k] == x@;
            lemma_lt_irreflexive(x@);
        }
    }
    at
}

/// Adds `x` to a set of texts kept as an ascending list; whether it was new.
pub fn insert_text(list: &mut Vec<String>, x: String) -> (fresh: bool)
    requires
        ascending(texts(old(list)@)),
    ensures
        ascending(texts(final(list)@)),
        texts(final(list)@).to_set() == texts(old(list)@).to_set().insert(x@),
        fresh == !texts(old(list)@).contains(x@),
        !fresh ==> *final(list) == *old(list),
{
    let at = place_of(list, x.as_str());
    let ghost all = texts(list@);
    if at < list.len() && crate::text::str_eq(list[at].as_str(), x.as_str()) {
        proof {
            assert(all[at as int] == x@);
            assert(all.contains(x@));
            assert(all.to_set() =~= all.to_set().insert(x@));
        }
        return false;
    }
    let ghost added = x@;
    list.insert(at, x);
    proof {
        let now = texts(list@);
        assert(now =~= all.insert(at as int, added));
        assert forall|i: int, j: int| 0 <= i < j < now.len() implies text_lt(
            #[trigger] now[i],
            #[trigger] now[j],
        ) by {
            if j == at {
                assert(now[i] == all[i]);
            } else if i == at {
                assert(now[j] == all[j - 1]);
                lemma_lt_total(all[j - 1], added);
                assert(!all.contains(added));
                assert(all[j - 1] != added);
            } else {
                let p = if i < at { i } else { i - 1 };
                let q = if j < at { j } else { j - 1 };
                assert(now[i] == all[p]);
                assert(now[j] == all[q]);
            }
        }
        assert forall|z: Seq<char>| now.to_set().contains(z) == all.to_set().insert(added).contains(z) by {
            if now.contains(z) {
                let k = choose|k: int| 0 <= k < now.len() && now[k] == z;
                if k != at {
                    let p = if k < at { k } else { k - 1 };
                    assert(all[p] == z);
                }
            }
            if all.contains(z) {
                let p = choose|p: int| 0 <= p < all.len() && all[p] == z;
                let k = if p < at { p } else { p + 1 };
                assert(now[k] == z);
            }
            assert(now[at as int] == added);
        }
        assert(now.to_set() =~= all.to_set().insert(added));
    }
    true
}

/// Takes `x` out of a set of texts kept as an ascending list.
pub fn remove_text(list: &mut Vec<String>, x: &str)
    requires
        ascending(texts(old(list)@)),
    ensures
        ascending(texts(final(list)@)),
        texts(final(list)@).to_set() == texts(old(list)@).to_set().remove(x@),
{
    let at = place_of(list, x);
    let ghost all = texts(list@);
    if at < list.len() && crate::text::str_eq(list[at].as_str(), x) {
        let _gone = list.remove(at);
        proof {
            let now = texts(list@);
            assert(now =~= all.remove(at as int));
            assert forall|i: int, j: int| 0 <= i < j < now.len() implies text_lt(
                #[trigger] now[i],
                #[trigger] now[j],
            ) by {
                let p = if i < at { i } else { i + 1 };
                let q = if j < at { j } else { j + 1 };
                assert(now[i] == all[p]);
                assert(now[j] == all[q]);
            }
            assert forall|z: Seq<char>| now.to_set().contains(z) == all.to_set().remove(x@).contains(z) by {
                if now.contains(z) {
                    let k = choose|k: int| 0 <= k < now.len() && now[k] == z;
                    let p = if k < at { k } else { k + 1 };
                    assert(all[p] == z);
                    assert(all[at as int] == x@);
                    lemma_lt_irreflexive(x@);
                    if p < at {
                        assert(text_lt(all[p], all[at as int]));
                    } else {
                        assert(text_lt(all[at as int], all[p]));
                    }
                }
                if all.contains(z) && z != x@ {
                    let p = choose|p: int| 0 <= p < all.len() && all[p] == z;
                    let k = if p < at { p } else { p - 1 };
                    assert(now[k] == z);
                }
            }
            assert(now.to_set() =~= all.to_set().remove(x@));
        }
    } else {
        proof {
            assert(!all.contains(x@)) by {
                if at < list@.len() {
                    assert(all[at as int] == list@[at as int]@);
                }
            }
            assert(all.to_set() =~= all.to_set().remove(x@));
        }
    }
}

/// The texts of `list`, each once, in order.
pub fn sorted_set(list: &Vec<String>) -> (r: Vec<String>)
    ensures
        ascending(texts(r@)),
        texts(r@).to_set() == texts(list@).to_set(),
{
    let mut out: Vec<String> = Vec::new();
    let mut i: usize = 0;
    proof {
        assert(texts(out@).to_set() =~= texts(list@).take(0).to_set());
    }
    while i < list.len()
        invariant
            i <= list@.len(),
            ascending(texts(out@)),
            texts(out@).to_set() == texts(list@).take(i as int).to_set(),
        decreases list.len() - i,
    {
        let _fresh = insert_text(&mut out, list[i].clone());
        proof {
            let now = texts(list@).take(i + 1);
            let before = texts(list@).take(i as int);
            assert(now =~= before.push(list@[i as int]@));
            assert forall|z: Seq<char>| now.to_set().contains(z) == before.to_set().insert(list@[i as int]@).contains(z) by {
                if before.contains(z) {
                    let k = choose|k: int| 0 <= k < before.len() && before[k] == z;
                    assert(now[k] == z);
                }
                assert(now[i as int] == list@[i as int]@);
                if now.contains(z) && z != list@[i as int]@ {
                    let k = choose|k: int| 0 <= k < now.len() && now[k] == z;
                    assert(before[k] == z);
                }
            }
            assert(now.to_set() =~= before.to_set().insert(list@[i as int]@));
        }
        i += 1;
    }
    proof {
        assert(texts(list@).take(list@.len() as int) =~= texts(list@));
    }
    out
}

/// Putting a text into a list adds it to the list's texts, wherever it goes.
proof fn lemma_insert_to_multiset(list: Seq<Seq<char>>, at: int, x: Seq<char>)
    requires
        0 <= at <= list.len(),
    ensures
        list.insert(at, x).to_multiset() == list.to_multiset().insert(x),
{
    let grown = list.insert(at, x);
    assert(grown.remove(at) =~= list);
    grown.to_multiset_ensures();
    assert(grown[at] == x);
    assert(grown.contains(x));
    assert(grown.to_multiset() =~= grown.to_multiset().remove(x).insert(x));
}

/// Puts `x` into an ordered list, behind its equals.
fn insert_in_order(list: &mut Vec<String>, x: String)
    requires
        in_order(texts(old(list)@)),
    ensures
        in_order(texts(final(list)@)),
        texts(final(list)@).to_multiset() == texts(old(list)@).to_multiset().insert(x@),
{
    let ghost all = texts(list@);
    let ghost added = x@;
    let mut at: usize = list.len();
    while at > 0 && side_of(list[at - 1].as_str(), x.as_str()) == Side::After
        invariant
            at <= list@.len(),
            all == texts(list@),
            added == x@,
            in_order(all),
            forall|k: int| at <= k < list@.len() ==> text_lt(added, #[trigger] all[k]),
        decreases at,
    {
        at -= 1;
        proof {
            assert(all[at as int] == list@[at as int]@);
        }
    }
    proof {
        if at > 0 {
            assert(all[at - 1] == list@[at - 1]@);
            assert(!text_lt(added, all[at - 1]));
        }
    }
    list.insert(at, x);
    proof {
        let now = texts(list@);
        assert(now =~= all.insert(at as int, added));
        lemma_insert_to_multiset(all, at as int, added);
        assert forall|i: int, j: int| 0 <= i < j < now.len() implies !text_lt(
            #[trigger] now[j],
            #[trigger] now[i],
        ) by {
            if j == at {
                assert(now[i] == all[i]);
                if text_lt(added, all[i]) {
                    if i < at - 1 {
                        lemma_lt_total(all[i], all[at - 1]);
                        if all[i] != all[at - 1] {
                            lemma_lt_transitive(added, all[i], all[at - 1]);
                        }
                    }
                }
            } else if i == at {
                assert(now[j] == all[j - 1]);
                lemma_lt_total(all[j - 1], added);
            } else {
                let p = if i < at { i } else { i - 1 };
                let q = if j < at { j } else { j - 1 };
                assert(now[i] == all[p]);
                assert(now[j] == all[q]);
            }
        }
    }
}

/// The texts of `list` in order, equal ones side by side.
pub fn sort_texts(list: &Vec<String>) -> (r: Vec<String>)
    ensures
        in_order(texts(r@)),
        texts(r@).to_multiset() == texts(list@).to_multiset(),
{
    let mut out: Vec<String> = Vec::new();
    let mut i: usize = 0;
    proof {
        assert(texts(out@) =~= texts(list@).take(0));
    }
    while i < list.len()
        invariant
            i <= list@.len(),
            in_order(texts(out@)),
            texts(out@).to_multiset() == texts(list@).take(i as int).to_multiset(),
        decreases list.len() - i,
    {
        insert_in_order(&mut out, list[i].clone());
        proof {
            let before = texts(list@).take(i as int);
            assert(texts(list@).take(i + 1) =~= before.push(list@[i as int]@));
            before.to_multiset_ensures();
        }
        i += 1;
    }
    proof {
        assert(texts(list@).take(list@.len() as int) =~= texts(list@));
    }
    out
}

/// Two names, as texts.
pub type PairText = (Seq<char>, Seq<char>);

/// The names of a list of pairs.
pub open spec fn pair_texts(list: Seq<(String, String)>) -> Seq<PairText> {
    list.map_values(|pair: (String, String)| (pair.0@, pair.1@))
}

/// Whether one pair comes before another: by its first name, then by its
/// second.
pub open spec fn pair_lt(a: PairText, b: PairText) -> bool {
    text_lt(a.0, b.0) || (a.0 == b.0 && text_lt(a.1, b.1))
}

/// Whether a list of pairs holds each once, in order.
pub open spec fn ascending_pairs(list: Seq<PairText>) -> bool {
    forall|i: int, j: int| 0 <= i < j < list.len() ==> pair_lt(#[trigger] list[i], #[trigger] list[j])
}

/// The order of pairs is one.
pub proof fn lemma_pair_order(a: PairText, b: PairText, c: PairText)
    ensures
        !pair_lt(a, a),
        a == b || pair_lt(a, b) || pair_lt(b, a),
        !(pair_lt(a, b) && pair_lt(b, a)),
        pair_lt(a, b) && pair_lt(b, c) ==> pair_lt(a, c),
{
    lemma_lt_irreflexive(a.0);
    lemma_lt_irreflexive(a.1);
    lemma_lt_total(a.0, b.0);
    lemma_lt_total(a.1, b.1);
    if pair_lt(a, b) && pair_lt(b, c) {
        if text_lt(a.0, b.0) && text_lt(b.0, c.0) {
            lemma_lt_transitive(a.0, b.0, c.0);
        } else if a.0 == b.0 && b.0 == c.0 {
            lemma_lt_transitive(a.1, b.1, c.1);
        }
    }
}

/// How one pair stands to another.
pub fn pair_side_of(a: (&str, &str), b: (&str, &str)) -> (r: Side)
    ensures
        r == Side::Before <==> pair_lt((a.0@, a.1@), (b.0@, b.1@)),
        r == Side::Same <==> (a.0@, a.1@) == (b.0@, b.1@),
        r == Side::After <==> pair_lt((b.0@, b.1@), (a.0@, a.1@)),
{
    proof {
        lemma_lt_irreflexive(a.0@);
        lemma_lt_irreflexive(a.1@);
        lemma_lt_total(a.0@, b.0@);
        lemma_lt_total(a.1@, b.1@);
    }
    match side_of(a.0, b.0) {
        Side::Before => Side::Before,
        Side::After => Side::After,
        Side::Same => side_of(a.1, b.1),
    }
}

/// Where a pair belongs in an ascending list of pairs, and whether it is there
/// already.
fn pair_place(list: &Vec<(String, String)>, x: (&str, &str)) -> (r: (usize, bool))
    requires
        ascending_pairs(pair_texts(list@)),
    ensures
        r.0 <= list@.len(),
        forall|k: int| 0 <= k < r.0 ==> pair_lt(#[trigger] pair_texts(list@)[k], (x.0@, x.1@)),
        r.1 ==> pair_texts(list@).contains((x.0@, x.1@)),
        !r.1 ==> forall|k: int|
            r.0 <= k < list@.len() ==> pair_lt((x.0@, x.1@), #[trigger] pair_texts(list@)[k]),
{
    let ghost all = pair_texts(list@);
    let ghost wanted: PairText = (x.0@, x.1@);
    let mut at: usize = 0;
    while at < list.len()
        invariant
            at <= list@.len(),
            all == pair_texts(list@),
            wanted == (x.0@, x.1@),
            ascending_pairs(all),
            forall|k: int| 0 <= k < at ==> pair_lt(#[trigger] all[k], wanted),
        decreases list.len() - at,
    {
        let side = pair_side_of((list[at].0.as_str(), list[at].1.as_str()), x);
        proof {
            assert(all[at as int] == (list@[at as int].0@, list@[at as int].1@));
        }
        if side == Side::Same {
            return (at, true);
        }
        if side == Side::After {
            proof {
                assert forall|k: int| at <= k < all.len() implies pair_lt(
                    wanted,
                    #[trigger] all[k],
                ) by {
                    lemma_pair_order(wanted, all[at as int], all[k]);
                }
            }
            return (at, false);
        }
        at += 1;
    }
    (at, false)
}

/// Adds a pair to a set of pairs kept as an ascending list.
pub fn insert_pair(list: &mut Vec<(String, String)>, x: (String, String))
    requires
        ascending_pairs(pair_texts(old(list)@)),
    ensures
        ascending_pairs(pair_texts(final(list)@)),
        pair_texts(final(list)@).to_set() == pair_texts(old(list)@).to_set().insert((x.0@, x.1@)),
{
    let ghost all = pair_texts(list@);
    let ghost added: PairText = (x.0@, x.1@);
    let place = pair_place(list, (x.0.as_str(), x.1.as_str()));
    let at: usize = place.0;
    if place.1 {
        proof {
            assert(all.to_set() =~= all.to_set().insert(added));
        }
        return;
    }
    list.insert(at, x);
    proof {
        let now = pair_texts(list@);
        assert(now =~= all.insert(at as int, added));
        assert forall|i: int, j: int| 0 <= i < j < now.len() implies pair_lt(
            #[trigger] now[i],
            #[trigger] now[j],
        ) by {
            if j == at {
                assert(now[i] == all[i]);
            } else if i == at {
                assert(now[j] == all[j - 1]);
            } else {
                let p = if i < at { i } else { i - 1 };
                let q = if j < at { j } else { j - 1 };
                assert(now[i] == all[p]);
                assert(now[j] == all[q]);
            }
        }
        assert forall|z: PairText| now.to_set().contains(z) == all.to_set().insert(added).contains(z) by {
            if now.contains(z) {
                let k = choose|k: int| 0 <= k < now.len() && now[k] == z;
                if k != at {
                    let p = if k < at { k } else { k - 1 };
                    assert(all[p] == z);
                }
            }
            if all.contains(z) {
                let p = choose|p: int| 0 <= p < all.len() && all[p] == z;
                let k = if p < at { p } else { p + 1 };
                assert(now[k] == z);
            }
            assert(now[at as int] == added);
        }
        assert(now.to_set() =~= all.to_set().insert(added));
    }
}

/// Whether a pair is in a list of pairs.
pub fn has_pair(list: &Vec<(String, String)>, name: &str, tag: &str) -> (r: bool)
    ensures
        r == pair_texts(list@).contains((name@, tag@)),
{
    let mut i: usize = 0;
    while i < list.len()
        invariant
            i <= list@.len(),
            forall|k: int| 0 <= k < i ==> #[trigger] pair_texts(list@)[k] != (name@, tag@),
        decreases list.len() - i,
    {
        proof {
            assert(pair_texts(list@)[i as int] == (list@[i as int].0@, list@[i as int].1@));
        }
        if crate::text::str_eq(list[i].0.as_str(), name) && crate::text::str_eq(list[i].1.as_str(), tag) {
            return true;
        }
        i += 1;
    }
    false
}

/// Whether a list holds what `told` says of the places from 0 up to `n` that are
/// `wanted`, in their order, each once: `at` are those places.
pub open spec fn picked_at<B>(
    n: int,
    wanted: spec_fn(int) -> bool,
    told: spec_fn(int) -> B,
    list: Seq<B>,
    at: Seq<int>,
) -> bool {
    &&& at.len() == list.len()
    &&& forall|i: int, j: int| 0 <= i < j < at.len() ==> #[trigger] at[i] < #[trigger] at[j]
    &&& forall|k: int|
        0 <= k < at.len() ==> 0 <= #[trigger] at[k] < n && wanted(at[k]) && list[k] == told(at[k])
    &&& forall|j: int| 0 <= j < n && #[trigger] wanted(j) ==> at.contains(j)
}

/// Whether a list holds what `told` says of the places from 0 up to `n` that are
/// `wanted`, in their order, each once, and nothing else.
pub open spec fn picked<B>(
    n: int,
    wanted: spec_fn(int) -> bool,
    told: spec_fn(int) -> B,
    list: Seq<B>,
) -> bool {
    exists|at: Seq<int>| #[trigger] picked_at(n, wanted, told, list, at)
}

/// Nothing is picked from nowhere.
pub proof fn lemma_picked_none<B>(wanted: spec_fn(int) -> bool, told: spec_fn(int) -> B)
    ensures
        picked(0, wanted, told, Seq::<B>::empty()),
{
    assert(picked_at(0, wanted, told, Seq::<B>::empty(), Seq::<int>::empty()));
}

/// One place more is picked where it is wanted.
pub proof fn lemma_picked_next<B>(
    n: int,
    wanted: spec_fn(int) -> bool,
    told: spec_fn(int) -> B,
    list: Seq<B>,
)
    requires
        0 <= n,
        picked(n, wanted, told, list),
    ensures
        wanted(n) ==> picked(n + 1, wanted, told, list.push(told(n))),
        !wanted(n) ==> picked(n + 1, wanted, told, list),
{
    let at = choose|at: Seq<int>| #[trigger] picked_at(n, wanted, told, list, at);
    if wanted(n) {
        let more = at.push(n);
        assert forall|j: int| 0 <= j < n + 1 && #[trigger] wanted(j) implies more.contains(j) by {
            if j == n {
                assert(more[at.len() as int] == j);
            } else {
                let k = choose|k: int| 0 <= k < at.len() && at[k] == j;
                assert(more[k] == j);
            }
        }
        assert(picked_at(n + 1, wanted, told, list.push(told(n)), more));
    } else {
        assert(picked_at(n + 1, wanted, told, list, at));
    }
}

/// A list that is picked has what is told of every wanted place, and of no other.
pub proof fn picked_lists_hold_what_is_wanted<B>(
    n: int,
    wanted: spec_fn(int) -> bool,
    told: spec_fn(int) -> B,
    list: Seq<B>,
    x: B,
)
    requires
        picked(n, wanted, told, list),
    ensures
        list.contains(x) <==> exists|j: int| 0 <= j < n && #[trigger] wanted(j) && told(j) == x,
        list.len() <= n || n < 0,
{
    let at = choose|at: Seq<int>| #[trigger] picked_at(n, wanted, told, list, at);
    if list.contains(x) {
        let k = choose|k: int| 0 <= k < list.len() && list[k] == x;
        assert(wanted(at[k]) && told(at[k]) == x);
    }
    if exists|j: int| 0 <= j < n && #[trigger] wanted(j) && told(j) == x {
        let j = choose|j: int| 0 <= j < n && #[trigger] wanted(j) && told(j) == x;
        let k = choose|k: int| 0 <= k < at.len() && at[k] == j;
        assert(list[k] == x);
    }
    lemma_spread(at, at.len() as int);
}

/// Places that grow are at least as far apart as they are many.
proof fn lemma_spread(at: Seq<int>, n: int)
    requires
        0 <= n <= at.len(),
        forall|i: int, j: int| 0 <= i < j < at.len() ==> #[trigger] at[i] < #[trigger] at[j],
        forall|k: int| 0 <= k < at.len() ==> 0 <= #[trigger] at[k],
    ensures
        n > 0 ==> at[n - 1] >= n - 1,
    decreases n,
{
    if n > 1 {
        lemma_spread(at, n - 1);
        assert(at[n - 2] < at[n - 1]);
    }
}

/// Of two texts that agree up to a place, the one with the smaller character there comes
/// first; a text that another begins with comes before it, and neither order holds both
/// ways.
pub proof fn the_first_difference_decides(a: Seq<char>, b: Seq<char>, at: int)
    requires
        0 <= at <= a.len(),
        at <= b.len(),
        forall|k: int| 0 <= k < at ==> a[k] == b[k],
    ensures
        at < a.len() && at < b.len() && a[at] < b[at] ==> text_lt(a, b) && !text_lt(b, a),
        at == a.len() && at < b.len() ==> text_lt(a, b) && !text_lt(b, a),
        at == a.len() && at == b.len() ==> !text_lt(a, b),
    decreases at,
{
    if at > 0 {
        let c = a.drop_first();
        let d = b.drop_first();
        assert(a[0] == b[0]);
        assert forall|k: int| 0 <= k < at - 1 implies c[k] == d[k] by {
            assert(c[k] == a[k + 1] && d[k] == b[k + 1]);
        }
        the_first_difference_decides(c, d, at - 1);
        if at < a.len() && at < b.len() {
            assert(c[at - 1] == a[at] && d[at - 1] == b[at]);
        }
    }
}

/// Comparing two texts tells which one comes first by their first difference.
pub proof fn texts_are_compared_by_their_first_difference(a: &str, b: &str, r: Side, at: int)
    requires
        call_ensures(side_of, (a, b), r),
        0 <= at < a@.len() && at < b@.len(),
        forall|k: int| 0 <= k < at ==> a@[k] == b@[k],
    ensures
        a@[at] < b@[at] ==> r == Side::Before,
        b@[at] < a@[at] ==> r == Side::After,
        a@ == b@ ==> r == Side::Same,
{
    the_first_difference_decides(a@, b@, at);
    the_first_difference_decides(b@, a@, at);
}

} // verus!
