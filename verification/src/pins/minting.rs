//! Minting the pins of documents, and turning pins into nodes.
use super::{
    check_declared, doc_refs, item_label, item_text, one_each, pin_for, pin_views, ref_views,
    references, root_first, rooted, two_contents_text, DocPinMinter, DocRef, EntryOrigin,
    KindedRef, Manifest, MaterializedPin, PinKind, PinView, PinnedItem,
};
use crate::paths::{parent, parent_path};
use crate::text::{mentions, what_is_written_is_mentioned};
use vstd::prelude::*;
use vstd::string::*;

verus! {

/// A document that a reference resolved to.
pub struct ResolvedDoc {
    pub sha256: String,
    pub origin: EntryOrigin,
    /// Why the reference's name is none.
    pub name_problem: Option<String>,
    /// Why the reference's tag is none.
    pub tag_problem: Option<String>,
}

/// What minting has come to: the pins, and the failure that ended it.
pub struct Minted {
    pub pins: Seq<PinView>,
    pub error: Option<Seq<char>>,
}

/// The pins after one more reference.
pub open spec fn mint_one(
    pins: Seq<PinView>,
    reference: (PinKind, DocRef),
    answer: Result<ResolvedDoc, String>,
) -> Minted {
    let kind = reference.0;
    let name = reference.1.name@;
    let tag = reference.1.tag@;
    match answer {
        Err(why) => Minted { pins, error: Some(why@) },
        Ok(doc) => match (doc.name_problem, doc.tag_problem) {
            (Some(why), _) => Minted {
                pins,
                error: Some(item_text(kind, name, tag) + ": "@ + why@),
            },
            (None, Some(why)) => Minted {
                pins,
                error: Some(item_text(kind, name, tag) + ": "@ + why@),
            },
            (None, None) => {
                let pin = PinView { kind, name, tag, sha256: doc.sha256@, origin: doc.origin@ };
                match pin_for(pins, kind, name, tag, pins.len() as int) {
                    None => Minted { pins: pins.push(pin), error: None },
                    Some(existing) => if existing.sha256 == doc.sha256@ {
                        Minted { pins, error: None }
                    } else {
                        Minted { pins, error: Some(two_contents_text(pin, existing.sha256)) }
                    },
                }
            },
        },
    }
}

/// The pins after the first `n` references, up to the first failure.
pub open spec fn minted(
    pins: Seq<PinView>,
    refs: Seq<(PinKind, DocRef)>,
    answers: Seq<Result<ResolvedDoc, String>>,
    n: int,
) -> Minted
    decreases n,
{
    if n <= 0 {
        Minted { pins, error: None }
    } else {
        let before = minted(pins, refs, answers, n - 1);
        if before.error is Some {
            before
        } else {
            mint_one(before.pins, refs[n - 1], answers[n - 1])
        }
    }
}

/// Whether these answers are what `resolve` said to the first of these
/// references, in order, and minting stopped at the first failure.
pub open spec fn mints<F: Fn(PinKind, &DocRef) -> Result<ResolvedDoc, String>>(
    resolve: F,
    before: Seq<PinView>,
    refs: Seq<(PinKind, DocRef)>,
    answers: Seq<Result<ResolvedDoc, String>>,
    after: Seq<PinView>,
    error: Option<Seq<char>>,
) -> bool {
    let end = minted(before, refs, answers, answers.len() as int);
    &&& answers.len() <= refs.len()
    &&& forall|k: int|
        0 <= k < answers.len() ==> resolve.ensures(
            (refs[k].0, &refs[k].1),
            #[trigger] answers[k],
        )
    &&& end.pins == after
    &&& end.error == error
    &&& error is None ==> answers.len() == refs.len()
    &&& error is Some ==> minted(before, refs, answers, answers.len() - 1).error is None
}

/// Whether a text is given: the failure of a result, where it is one.
pub open spec fn failure_of<T>(r: Result<T, String>) -> Option<Seq<char>> {
    match r {
        Ok(_) => None,
        Err(text) => Some(text@),
    }
}

/// A reference that is no item.
fn reference_failure(kind: PinKind, reference: &DocRef, why: &str) -> (r: String)
    ensures
        r@ == item_text(kind, reference.name@, reference.tag@) + ": "@ + why@,
{
    let mut text: String = item_label(kind, reference.name.as_str(), reference.tag.as_str());
    text.append(": ");
    text.append(why);
    text
}

impl DocPinMinter {
    /// Takes what one reference resolved to.
    pub fn mint_reference(
        &mut self,
        kind: PinKind,
        reference: &DocRef,
        answer: Result<ResolvedDoc, String>,
    ) -> (r: Result<(), String>)
        requires
            one_each(pin_views(old(self).pins@)),
        ensures
            one_each(pin_views(final(self).pins@)),
            mint_one(pin_views(old(self).pins@), (kind, *reference), answer) == (Minted {
                pins: pin_views(final(self).pins@),
                error: failure_of(r),
            }),
    {
        let doc = match answer {
            Err(why) => {
                return Err(why);
            },
            Ok(doc) => doc,
        };
        if let Some(why) = doc.name_problem {
            return Err(reference_failure(kind, reference, why.as_str()));
        }
        if let Some(why) = doc.tag_problem {
            return Err(reference_failure(kind, reference, why.as_str()));
        }
        self.mint(
            PinnedItem {
                kind,
                name: reference.name.clone(),
                tag: reference.tag.clone(),
                sha256: doc.sha256,
                origin: doc.origin,
            },
        )
    }

    /// Resolves and takes these references, in order, up to the first failure.
    pub fn mint_all<F: Fn(PinKind, &DocRef) -> Result<ResolvedDoc, String>>(
        &mut self,
        refs: &Vec<KindedRef>,
        resolve: &F,
    ) -> (r: Result<(), String>)
        requires
            one_each(pin_views(old(self).pins@)),
            forall|kind: PinKind, doc: &DocRef| #[trigger] resolve.requires((kind, doc)),
        ensures
            one_each(pin_views(final(self).pins@)),
            exists|answers: Seq<Result<ResolvedDoc, String>>| #[trigger]
                mints(
                    *resolve,
                    pin_views(old(self).pins@),
                    ref_views(refs@),
                    answers,
                    pin_views(final(self).pins@),
                    failure_of(r),
                ),
    {
        let ghost start = pin_views(self.pins@);
        let ghost all = ref_views(refs@);
        let ghost mut answers: Seq<Result<ResolvedDoc, String>> = Seq::empty();
        let mut i: usize = 0;
        while i < refs.len()
            invariant
                i <= refs@.len(),
                all == ref_views(refs@),
                one_each(pin_views(self.pins@)),
                forall|kind: PinKind, doc: &DocRef| #[trigger] resolve.requires((kind, doc)),
                answers.len() == i,
                forall|k: int|
                    0 <= k < answers.len() ==> resolve.ensures(
                        (all[k].0, &all[k].1),
                        #[trigger] answers[k],
                    ),
                minted(start, all, answers, i as int) == (Minted {
                    pins: pin_views(self.pins@),
                    error: None,
                }),
                start == pin_views(old(self).pins@),
            decreases refs.len() - i,
        {
            let entry = &refs[i];
            let answer = resolve(entry.kind, entry.reference);
            let ghost before = answers;
            proof {
                answers = before.push(answer);
                assert(all[i as int] == (entry.kind, *entry.reference));
                lemma_minted_prefix(start, all, before, answers, i as int);
            }
            match self.mint_reference(entry.kind, entry.reference, answer) {
                Ok(_) => {},
                Err(text) => {
                    proof {
                        assert(mints(
                            *resolve,
                            start,
                            all,
                            answers,
                            pin_views(self.pins@),
                            Some(text@),
                        ));
                    }
                    return Err(text);
                },
            }
            i += 1;
        }
        proof {
            assert(mints(*resolve, start, all, answers, pin_views(self.pins@), None));
        }
        Ok(())
    }

    /// Pins every document that a manifest refers to, up to the first failure.
    pub fn mint_for_manifest<F: Fn(PinKind, &DocRef) -> Result<ResolvedDoc, String>>(
        &mut self,
        manifest: &Manifest,
        resolve: &F,
    ) -> (r: Result<(), String>)
        requires
            one_each(pin_views(old(self).pins@)),
            forall|kind: PinKind, doc: &DocRef| #[trigger] resolve.requires((kind, doc)),
        ensures
            one_each(pin_views(final(self).pins@)),
            exists|answers: Seq<Result<ResolvedDoc, String>>| #[trigger]
                mints(
                    *resolve,
                    pin_views(old(self).pins@),
                    references(*manifest),
                    answers,
                    pin_views(final(self).pins@),
                    failure_of(r),
                ),
    {
        let refs = doc_refs(manifest);
        self.mint_all(&refs, resolve)
    }
}

/// Minting looks only at the answers it has had.
proof fn lemma_minted_prefix(
    pins: Seq<PinView>,
    refs: Seq<(PinKind, DocRef)>,
    answers: Seq<Result<ResolvedDoc, String>>,
    more: Seq<Result<ResolvedDoc, String>>,
    n: int,
)
    requires
        0 <= n <= answers.len() <= more.len(),
        forall|k: int| 0 <= k < answers.len() ==> answers[k] == more[k],
    ensures
        minted(pins, refs, answers, n) == minted(pins, refs, more, n),
    decreases n,
{
    if n > 0 {
        lemma_minted_prefix(pins, refs, answers, more, n - 1);
    }
}

/// Every document that a set of manifests refers to, in order.
pub open spec fn set_references(manifests: Seq<Manifest>) -> Seq<(PinKind, DocRef)>
    decreases manifests.len(),
{
    if manifests.len() == 0 {
        Seq::empty()
    } else {
        set_references(manifests.drop_last()) + references(manifests.last())
    }
}

/// Every document that a set of manifests refers to, in order.
fn set_refs<'a>(manifests: &'a Vec<Manifest>) -> (r: Vec<KindedRef<'a>>)
    ensures
        ref_views(r@) == set_references(manifests@),
{
    let mut out: Vec<KindedRef<'a>> = Vec::new();
    let mut i: usize = 0;
    proof {
        assert(ref_views(out@) =~= set_references(manifests@.take(0)));
    }
    while i < manifests.len()
        invariant
            i <= manifests@.len(),
            ref_views(out@) == set_references(manifests@.take(i as int)),
        decreases manifests.len() - i,
    {
        let mut more = doc_refs(&manifests[i]);
        let ghost before = out@;
        let ghost added = more@;
        out.append(&mut more);
        proof {
            assert(manifests@.take(i + 1).drop_last() =~= manifests@.take(i as int));
            assert(out@ =~= before + added);
            assert(ref_views(out@) =~= ref_views(before) + ref_views(added));
        }
        i += 1;
    }
    proof {
        assert(manifests@.take(manifests@.len() as int) =~= manifests@);
    }
    out
}

/// Whether a result is what minting the pins of one set came to.
pub open spec fn mints_set<F: Fn(PinKind, &DocRef) -> Result<ResolvedDoc, String>>(
    resolve: F,
    manifests: Seq<Manifest>,
    r: Result<Vec<PinnedItem>, String>,
) -> bool {
    exists|answers: Seq<Result<ResolvedDoc, String>>, pins: Seq<PinView>| #[trigger]
        mints(resolve, Seq::empty(), set_references(manifests), answers, pins, failure_of(r)) && (
        r matches Ok(list) ==> pin_views(list@) == pins)
}

/// Mints the pins of several sets of manifests against one load of the caches of
/// contracts and pairings. Each set has its own result: one whose documents are
/// missing leaves the others alone.
pub fn doc_pins_for_manifest_sets<F: Fn(PinKind, &DocRef) -> Result<ResolvedDoc, String>>(
    sets: &Vec<Vec<Manifest>>,
    contracts: Result<(), String>,
    pairings: Result<(), String>,
    resolve: &F,
) -> (r: Result<Vec<Result<Vec<PinnedItem>, String>>, String>)
    requires
        forall|kind: PinKind, doc: &DocRef| #[trigger] resolve.requires((kind, doc)),
    ensures
        match (contracts, pairings) {
            (Err(why), _) => r matches Err(text) && text@ == "failed to load contract cache: "@
                + why@,
            (Ok(_), Err(why)) => r matches Err(text) && text@ == "failed to load pairing cache: "@
                + why@,
            (Ok(_), Ok(_)) => r matches Ok(results) && results@.len() == sets@.len() && forall|
                k: int,
            |
                0 <= k < sets@.len() ==> mints_set(*resolve, sets@[k]@, #[trigger] results@[k]),
        },
{
    if let Err(why) = contracts {
        let mut text: String = "failed to load contract cache: ".to_owned();
        text.append(why.as_str());
        return Err(text);
    }
    if let Err(why) = pairings {
        let mut text: String = "failed to load pairing cache: ".to_owned();
        text.append(why.as_str());
        return Err(text);
    }
    let mut results: Vec<Result<Vec<PinnedItem>, String>> = Vec::new();
    let mut i: usize = 0;
    while i < sets.len()
        invariant
            i <= sets@.len(),
            results@.len() == i,
            forall|kind: PinKind, doc: &DocRef| #[trigger] resolve.requires((kind, doc)),
            forall|k: int|
                0 <= k < i ==> mints_set(*resolve, sets@[k]@, #[trigger] results@[k]),
        decreases sets.len() - i,
    {
        let refs = set_refs(&sets[i]);
        let mut minter = DocPinMinter::new();
        proof {
            assert(pin_views(minter.pins@) =~= Seq::<PinView>::empty());
        }
        let result = match minter.mint_all(&refs, resolve) {
            Ok(_) => Ok(minter.pins),
            Err(text) => Err(text),
        };
        proof {
            assert(mints_set(*resolve, sets@[i as int]@, result));
        }
        results.push(result);
        i += 1;
    }
    Ok(results)
}

/// Why the minting came to nothing whose task ended early.
pub fn minting_task_failure(why: &str) -> (r: String)
    ensures
        r@ == "doc pin minting task failed: "@ + why@,
{
    let mut text: String = "doc pin minting task failed: ".to_owned();
    text.append(why);
    text
}

/// What came of resolving a pin to the bytes of its node's declaration.
pub enum PinOutcome {
    /// The task that resolved it ended early.
    TaskFailed(String),
    Unresolved(String),
    NotUtf8(String),
    Unparsable(String),
    /// The declaration, and the file that holds it.
    Parsed { manifest_path: String, manifest: Manifest },
}

/// The failure of a pin.
pub open spec fn pin_failure(pin: PinView, outcome: PinOutcome) -> Option<Seq<char>> {
    let label = item_text(pin.kind, pin.name, pin.tag);
    match outcome {
        PinOutcome::TaskFailed(why) => Some(
            "materialization task for "@ + label + " failed: "@ + why@,
        ),
        PinOutcome::Unresolved(why) => Some(why@),
        PinOutcome::NotUtf8(why) => Some(
            "pinned "@ + label + " content is not UTF-8: "@ + why@,
        ),
        PinOutcome::Unparsable(why) => Some("failed to parse pinned "@ + label + ": "@ + why@),
        PinOutcome::Parsed { manifest_path, manifest } => if !(manifest.name@ == pin.name
            && manifest.tag@ == pin.tag) {
            Some(
                "pinned "@ + label + " resolved to bytes declaring `"@ + manifest.name@ + ":"@
                    + manifest.tag@ + "`; the cache or the pin is wrong"@,
            )
        } else if parent_path(manifest_path@) is None {
            Some(
                "pinned "@ + label + " resolved to "@ + manifest_path@
                    + ", which has no parent directory"@,
            )
        } else {
            None
        },
    }
}

/// The directory that a pinned node is built from, with what it declares: the
/// pin names the file, and the directory is the one that holds it.
pub fn materialize_pinned_node(pin: &PinnedItem, outcome: PinOutcome) -> (r: Result<
    (String, Manifest),
    String,
>)
    ensures
        match r {
            Ok(found) => pin_failure(pin@, outcome) is None && (outcome matches PinOutcome::Parsed {
                manifest_path,
                manifest,
            } && parent_path(manifest_path@) == Some(found.0@) && found.1 == manifest),
            Err(text) => pin_failure(pin@, outcome) == Some(text@),
        },
{
    match outcome {
        PinOutcome::TaskFailed(why) => {
            let mut text: String = "materialization task for ".to_owned();
            text.append(pin.label().as_str());
            text.append(" failed: ");
            text.append(why.as_str());
            Err(text)
        },
        PinOutcome::Unresolved(why) => Err(why),
        PinOutcome::NotUtf8(why) => {
            let mut text: String = "pinned ".to_owned();
            text.append(pin.label().as_str());
            text.append(" content is not UTF-8: ");
            text.append(why.as_str());
            Err(text)
        },
        PinOutcome::Unparsable(why) => {
            let mut text: String = "failed to parse pinned ".to_owned();
            text.append(pin.label().as_str());
            text.append(": ");
            text.append(why.as_str());
            Err(text)
        },
        PinOutcome::Parsed { manifest_path, manifest } => {
            if let Err(text) = check_declared(pin, &manifest) {
                return Err(text);
            }
            match parent(manifest_path.as_str()) {
                Some(dir) => Ok((dir, manifest)),
                None => {
                    let mut text: String = "pinned ".to_owned();
                    text.append(pin.label().as_str());
                    text.append(" resolved to ");
                    text.append(manifest_path.as_str());
                    text.append(", which has no parent directory");
                    Err(text)
                },
            }
        },
    }
}

/// One pin of a set that is done with, and what came of it.
pub struct PinResult {
    pub pin: PinnedItem,
    pub is_root: bool,
    pub result: Result<(String, Manifest), String>,
}

/// What a set of pins is materialized from: the root's pin, then those of its
/// dependencies.
pub fn pin_tasks(root: PinnedItem, dep_pins: Vec<PinnedItem>) -> (r: Vec<(PinnedItem, bool)>)
    ensures
        r@.len() == dep_pins@.len() + 1,
        r@[0] == (root, true),
        forall|k: int| 1 <= k < r@.len() ==> #[trigger] r@[k] == (dep_pins@[k - 1], false),
{
    let mut out: Vec<(PinnedItem, bool)> = Vec::new();
    out.push((root, true));
    let ghost all = dep_pins@;
    for pin in it: dep_pins
        invariant
            it.seq() == all,
            out@.len() == it.index() + 1,
            out@[0] == (root, true),
            forall|k: int| 1 <= k < out@.len() ==> #[trigger] out@[k] == (all[k - 1], false),
    {
        out.push((pin, false));
    }
    out
}

/// The nodes of the results that were good.
pub open spec fn good_nodes(done: Seq<PinResult>) -> Seq<MaterializedPin> {
    done.map_values(
        |entry: PinResult|
            MaterializedPin {
                pin: entry.pin,
                root_dir: entry.result->Ok_0.0,
                manifest: entry.result->Ok_0.1,
                is_root: entry.is_root,
            },
    )
}

/// What materializing a set comes to, its results in the order in which they
/// came in: all the nodes, the root first, or the first failure that came in.
pub fn materialize_pin_set(done: Vec<PinResult>) -> (r: Result<Vec<MaterializedPin>, String>)
    ensures
        match r {
            Ok(nodes) => (forall|k: int|
                0 <= k < done@.len() ==> (#[trigger] done@[k]).result is Ok) && nodes@ == rooted(
                good_nodes(done@),
                true,
            ) + rooted(good_nodes(done@), false),
            Err(text) => exists|i: int|
                0 <= i < done@.len() && (#[trigger] done@[i]).result == Err::<
                    (String, Manifest),
                    String,
                >(text) && forall|k: int| 0 <= k < i ==> (#[trigger] done@[k]).result is Ok,
        },
{
    let mut nodes: Vec<MaterializedPin> = Vec::new();
    let ghost all = done@;
    for entry in it: done
        invariant
            it.seq() == all,
            nodes@.len() == it.index(),
            forall|k: int| 0 <= k < it.index() ==> (#[trigger] all[k]).result is Ok,
            forall|k: int| 0 <= k < it.index() ==> #[trigger] nodes@[k] == good_nodes(all)[k],
    {
        proof {
            assert(all[it.index() as int] == entry);
        }
        match entry.result {
            Ok(found) => {
                nodes.push(
                    MaterializedPin {
                        pin: entry.pin,
                        root_dir: found.0,
                        manifest: found.1,
                        is_root: entry.is_root,
                    },
                );
            },
            Err(text) => {
                return Err(text);
            },
        }
    }
    proof {
        assert(nodes@ =~= good_nodes(all));
    }
    Ok(root_first(nodes))
}

/// No two pins of a set are of one document, whatever the manifests refer to and
/// whatever the references resolve to.
pub proof fn minting_keeps_one_pin_each(
    pins: Seq<PinView>,
    reference: (PinKind, DocRef),
    answer: Result<ResolvedDoc, String>,
)
    requires
        one_each(pins),
    ensures
        one_each(mint_one(pins, reference, answer).pins),
{
    let kind = reference.0;
    let name = reference.1.name@;
    let tag = reference.1.tag@;
    lemma_absent(pins, kind, name, tag, pins.len() as int);
}

/// What a search does not find is not there.
proof fn lemma_absent(pins: Seq<PinView>, kind: PinKind, name: Seq<char>, tag: Seq<char>, n: int)
    requires
        0 <= n <= pins.len(),
    ensures
        pin_for(pins, kind, name, tag, n) is None ==> forall|k: int|
            0 <= k < n ==> !((#[trigger] pins[k]).kind == kind && pins[k].name == name
                && pins[k].tag == tag),
    decreases n,
{
    if n > 0 {
        lemma_absent(pins, kind, name, tag, n - 1);
    }
}

/// A search finds the first pin of a document.
proof fn lemma_found(pins: Seq<PinView>, kind: PinKind, name: Seq<char>, tag: Seq<char>, n: int)
    requires
        0 <= n <= pins.len(),
    ensures
        pin_for(pins, kind, name, tag, n) matches Some(found) ==> found.kind == kind && found.name
            == name && found.tag == tag && exists|k: int| 0 <= k < n && #[trigger] pins[k] == found,
    decreases n,
{
    if n > 0 {
        lemma_found(pins, kind, name, tag, n - 1);
    }
}

/// A reference that does not resolve, or whose name or tag is none, adds no pin and is a
/// failure that says why. One that resolves has its pin afterwards, with the content that
/// it resolved to: a new one, or the one that was there with that content; another
/// content for a document that has a pin is a failure.
pub proof fn a_reference_has_its_pin_or_fails(
    pins: Seq<PinView>,
    reference: (PinKind, DocRef),
    answer: Result<ResolvedDoc, String>,
)
    ensures
        ({
            let r = mint_one(pins, reference, answer);
            let kind = reference.0;
            let name = reference.1.name@;
            let tag = reference.1.tag@;
            &&& r.error is Some ==> r.pins == pins
            &&& answer matches Err(why) ==> (r.error matches Some(text) && mentions(text, why@))
            &&& answer matches Ok(doc) ==> (doc.name_problem matches Some(why) ==> (
            r.error matches Some(text) && mentions(text, why@)))
            &&& answer matches Ok(doc) ==> (doc.name_problem is None ==> (
            doc.tag_problem matches Some(why) ==> (r.error matches Some(text) && mentions(
                text,
                why@,
            ))))
            &&& r.error is None ==> (answer matches Ok(doc) && doc.name_problem is None
                && doc.tag_problem is None && has_pin(r.pins, kind, name, tag, doc.sha256@))
            &&& r.error is None ==> r.pins == pins || (answer matches Ok(doc) && r.pins
                == pins.push(
                PinView { kind, name, tag, sha256: doc.sha256@, origin: doc.origin@ },
            ))
            &&& answer matches Ok(doc) ==> (doc.name_problem is None && doc.tag_problem is None ==> (
            r.error is Some ==> exists|k: int|
                0 <= k < pins.len() && (#[trigger] pins[k]).kind == kind && pins[k].name == name
                    && pins[k].tag == tag && pins[k].sha256 != doc.sha256@))
        }),
{
    let kind = reference.0;
    let name = reference.1.name@;
    let tag = reference.1.tag@;
    let r = mint_one(pins, reference, answer);
    lemma_found(pins, kind, name, tag, pins.len() as int);
    match answer {
        Err(why) => {
            what_is_written_is_mentioned(""@, why@, ""@);
        },
        Ok(doc) => {
            let head = item_text(kind, name, tag) + ": "@;
            if let Some(why) = doc.name_problem {
                what_is_written_is_mentioned(head, why@, ""@);
            } else if let Some(why) = doc.tag_problem {
                what_is_written_is_mentioned(head, why@, ""@);
            } else if r.error is None {
                match pin_for(pins, kind, name, tag, pins.len() as int) {
                    None => {
                        assert(r.pins[pins.len() as int].sha256 == doc.sha256@);
                    },
                    Some(found) => {
                        let k = choose|k: int| 0 <= k < pins.len() && #[trigger] pins[k] == found;
                        assert(r.pins[k].sha256 == doc.sha256@);
                    },
                }
            }
        },
    }
}

/// Whether a document has a pin with this content.
pub open spec fn has_pin(
    pins: Seq<PinView>,
    kind: PinKind,
    name: Seq<char>,
    tag: Seq<char>,
    sha256: Seq<char>,
) -> bool {
    exists|k: int|
        0 <= k < pins.len() && (#[trigger] pins[k]).kind == kind && pins[k].name == name
            && pins[k].tag == tag && pins[k].sha256 == sha256
}

/// Where minting did not fail, every reference has its pin, with the content that it
/// resolved to, and every pin from before is there still.
pub proof fn every_reference_has_its_pin(
    pins: Seq<PinView>,
    refs: Seq<(PinKind, DocRef)>,
    answers: Seq<Result<ResolvedDoc, String>>,
    n: int,
    k: int,
)
    requires
        0 <= k < n <= refs.len(),
        minted(pins, refs, answers, n).error is None,
    ensures
        answers[k] matches Ok(doc) && has_pin(
            minted(pins, refs, answers, n).pins,
            refs[k].0,
            refs[k].1.name@,
            refs[k].1.tag@,
            doc.sha256@,
        ),
    decreases n,
{
    let before = minted(pins, refs, answers, n - 1);
    let after = minted(pins, refs, answers, n);
    a_reference_has_its_pin_or_fails(before.pins, refs[n - 1], answers[n - 1]);
    if k < n - 1 {
        every_reference_has_its_pin(pins, refs, answers, n - 1, k);
        let doc = answers[k]->Ok_0;
        let i = choose|i: int|
            0 <= i < before.pins.len() && (#[trigger] before.pins[i]).kind == refs[k].0
                && before.pins[i].name == refs[k].1.name@ && before.pins[i].tag == refs[k].1.tag@
                && before.pins[i].sha256 == doc.sha256@;
        assert(after.pins[i] == before.pins[i]);
    }
}

/// A pinned node is materialized only from bytes that parse and declare the node that the
/// pin names, in a file that has a directory, and that directory is what it is built
/// from; anything else is a failure that says why.
pub proof fn only_the_declared_node_is_materialized(
    pin: PinnedItem,
    outcome: PinOutcome,
    r: Result<(String, Manifest), String>,
)
    requires
        call_ensures(materialize_pinned_node, (&pin, outcome), r),
    ensures
        r is Ok <==> (outcome matches PinOutcome::Parsed { manifest_path, manifest }
            && manifest.name@ == pin.name@ && manifest.tag@ == pin.tag@ && parent_path(
            manifest_path@,
        ) is Some),
        r matches Ok(found) ==> (outcome matches PinOutcome::Parsed { manifest_path, manifest }
            && parent_path(manifest_path@) == Some(found.0@) && found.1 == manifest),
        r matches Err(text) ==> match outcome {
            PinOutcome::TaskFailed(why) => mentions(text@, why@),
            PinOutcome::Unresolved(why) => mentions(text@, why@),
            PinOutcome::NotUtf8(why) => mentions(text@, why@),
            PinOutcome::Unparsable(why) => mentions(text@, why@),
            PinOutcome::Parsed { .. } => true,
        },
{
    let label = item_text(pin.kind, pin.name@, pin.tag@);
    match outcome {
        PinOutcome::TaskFailed(why) => {
            what_is_written_is_mentioned(
                "materialization task for "@ + label + " failed: "@,
                why@,
                ""@,
            );
        },
        PinOutcome::Unresolved(why) => {
            what_is_written_is_mentioned(""@, why@, ""@);
        },
        PinOutcome::NotUtf8(why) => {
            what_is_written_is_mentioned(
                "pinned "@ + label + " content is not UTF-8: "@,
                why@,
                ""@,
            );
        },
        PinOutcome::Unparsable(why) => {
            what_is_written_is_mentioned("failed to parse pinned "@ + label + ": "@, why@, ""@);
        },
        _ => {},
    }
}

/// A set of pins is materialized only where every one of them is, and any failure is the
/// set's.
pub proof fn a_set_is_materialized_as_a_whole(
    done: Vec<PinResult>,
    r: Result<Vec<MaterializedPin>, String>,
)
    requires
        call_ensures(materialize_pin_set, (done,), r),
    ensures
        r is Ok <==> forall|k: int| 0 <= k < done@.len() ==> (#[trigger] done@[k]).result is Ok,
{
}

} // verus!
