//! Pins: what names one item of a launch down to its bytes, and the walk that
//! turns a node's name into the pins of its whole closure.
//!
//! A name is resolved in one place only, the walk; everything downstream
//! consumes the pins that it mints and never looks a name up.
use crate::order::{PairText, lemma_picked_next, lemma_picked_none, picked};
use crate::text::{a_longer_text_mentions_as_much, decimal, mentions, str_eq, texts, to_decimal, what_is_written_is_mentioned};
use vstd::prelude::*;
use vstd::string::*;

pub mod minting;
pub mod walk;

verus! {

/// What a pin names.
#[derive(Clone, Copy, Debug, PartialEq, Eq, Structural)]
pub enum PinKind {
    Node,
    Contract,
    Pairing,
}

/// The word for a kind of pin.
pub open spec fn kind_text(kind: PinKind) -> Seq<char> {
    match kind {
        PinKind::Node => "node"@,
        PinKind::Contract => "contract"@,
        PinKind::Pairing => "pairing"@,
    }
}

impl PinKind {
    /// The word for the kind.
    pub fn word(self) -> (r: String)
        ensures
            r@ == kind_text(self),
    {
        match self {
            PinKind::Node => "node".to_owned(),
            PinKind::Contract => "contract".to_owned(),
            PinKind::Pairing => "pairing".to_owned(),
        }
    }
}

/// Where a pinned item's bytes are.
#[derive(Debug, PartialEq, Eq)]
pub enum EntryOrigin {
    /// A file of one commit of a repository.
    Git { repo_url: String, repo_ref: Option<String>, commit: String, path: String },
    /// A file on this machine.
    Fs { path: String },
}

/// An origin's contents.
pub enum OriginView {
    Git {
        repo_url: Seq<char>,
        repo_ref: Option<Seq<char>>,
        commit: Seq<char>,
        path: Seq<char>,
    },
    Fs { path: Seq<char> },
}

impl View for EntryOrigin {
    type V = OriginView;

    open spec fn view(&self) -> OriginView {
        match self {
            EntryOrigin::Git { repo_url, repo_ref, commit, path } => OriginView::Git {
                repo_url: repo_url@,
                repo_ref: match repo_ref {
                    Some(name) => Some(name@),
                    None => None,
                },
                commit: commit@,
                path: path@,
            },
            EntryOrigin::Fs { path } => OriginView::Fs { path: path@ },
        }
    }
}

impl Clone for EntryOrigin {
    fn clone(&self) -> (r: Self)
        ensures
            r@ == self@,
    {
        match self {
            EntryOrigin::Git { repo_url, repo_ref, commit, path } => EntryOrigin::Git {
                repo_url: repo_url.clone(),
                repo_ref: match repo_ref {
                    Some(name) => Some(name.clone()),
                    None => None,
                },
                commit: commit.clone(),
                path: path.clone(),
            },
            EntryOrigin::Fs { path } => EntryOrigin::Fs { path: path.clone() },
        }
    }
}

impl EntryOrigin {
    /// Whether finding the bytes may reach the network.
    pub fn resolution_may_block(&self) -> (r: bool)
        ensures
            r == self is Git,
    {
        match self {
            EntryOrigin::Git { .. } => true,
            EntryOrigin::Fs { .. } => false,
        }
    }
}

/// One pinned item: its identity, the fingerprint of its bytes, and where they
/// are.
#[derive(Debug, PartialEq, Eq)]
pub struct PinnedItem {
    pub kind: PinKind,
    pub name: String,
    pub tag: String,
    pub sha256: String,
    pub origin: EntryOrigin,
}

/// A pin's contents.
pub struct PinView {
    pub kind: PinKind,
    pub name: Seq<char>,
    pub tag: Seq<char>,
    pub sha256: Seq<char>,
    pub origin: OriginView,
}

impl View for PinnedItem {
    type V = PinView;

    open spec fn view(&self) -> PinView {
        PinView {
            kind: self.kind,
            name: self.name@,
            tag: self.tag@,
            sha256: self.sha256@,
            origin: self.origin@,
        }
    }
}

impl Clone for PinnedItem {
    fn clone(&self) -> (r: Self)
        ensures
            r@ == self@,
    {
        PinnedItem {
            kind: self.kind,
            name: self.name.clone(),
            tag: self.tag.clone(),
            sha256: self.sha256.clone(),
            origin: self.origin.clone(),
        }
    }
}

/// An item as messages name it: its kind, and its name and tag between
/// backquotes.
pub open spec fn item_text(kind: PinKind, name: Seq<char>, tag: Seq<char>) -> Seq<char> {
    kind_text(kind) + " `"@ + name + ":"@ + tag + "`"@
}

/// An item's label names it with its tag.
pub proof fn lemma_item_text(kind: PinKind, name: Seq<char>, tag: Seq<char>)
    ensures
        mentions(item_text(kind, name, tag), name + ":"@ + tag),
{
    what_is_written_is_mentioned(kind_text(kind) + " `"@, name + ":"@ + tag, "`"@);
    assert(item_text(kind, name, tag) =~= kind_text(kind) + " `"@ + (name + ":"@ + tag) + "`"@);
}

/// An item as messages name it.
pub fn item_label(kind: PinKind, name: &str, tag: &str) -> (r: String)
    ensures
        r@ == item_text(kind, name@, tag@),
{
    let mut text: String = kind.word();
    text.append(" `");
    text.append(name);
    text.append(":");
    text.append(tag);
    text.append("`");
    text
}

impl PinnedItem {
    /// The pin as messages name it.
    pub fn label(&self) -> (r: String)
        ensures
            r@ == item_text(self.kind, self.name@, self.tag@),
    {
        item_label(self.kind, self.name.as_str(), self.tag.as_str())
    }

    /// Whether the pin is of this identity.
    pub fn is_item(&self, kind: PinKind, name: &str, tag: &str) -> (r: bool)
        ensures
            r == (self.kind == kind && self.name@ == name@ && self.tag@ == tag@),
    {
        self.kind == kind && str_eq(self.name.as_str(), name) && str_eq(self.tag.as_str(), tag)
    }
}

/// The pins of a list.
pub open spec fn pin_views(list: Seq<PinnedItem>) -> Seq<PinView> {
    list.map_values(|pin: PinnedItem| pin@)
}

/// Why a pin cannot back a deployment on another machine, where it cannot: its
/// bytes are a file on this one.
pub fn portable_pin_refusal(pin: &PinnedItem) -> (r: Option<String>)
    ensures
        match pin.origin {
            EntryOrigin::Git { .. } => r is None,
            EntryOrigin::Fs { path } => r matches Some(text) && text@ == item_text(
                pin.kind,
                pin.name@,
                pin.tag@,
            ) + " resolves to a filesystem repository entry at "@ + path@
                + ", which cannot be placed on another core node: the path names a tree on the coordinator's filesystem. Keep the deployment's instances on one core node, or serve the node from a git repository."@,
        },
{
    match &pin.origin {
        EntryOrigin::Git { .. } => None,
        EntryOrigin::Fs { path } => {
            let mut text: String = pin.label();
            text.append(" resolves to a filesystem repository entry at ");
            text.append(path.as_str());
            text.append(
                ", which cannot be placed on another core node: the path names a tree on the coordinator's filesystem. Keep the deployment's instances on one core node, or serve the node from a git repository.",
            );
            Some(text)
        },
    }
}

/// A reference to a document in a manifest, with the fingerprint that the
/// author asks for.
#[derive(Debug)]
pub struct DocRef {
    pub name: String,
    pub tag: String,
    pub sha256: Option<String>,
}

/// What a manifest says of its node and what that refers to.
#[derive(Debug)]
pub struct Manifest {
    pub name: String,
    pub tag: String,
    /// The nodes it depends on, by name and tag.
    pub nodes: Vec<(String, String)>,
    pub implements: Vec<DocRef>,
    pub contracts: Vec<DocRef>,
    pub pairings: Vec<DocRef>,
    pub pairing_observers: Vec<DocRef>,
}

/// One pinned node whose bytes are at hand.
#[derive(Debug)]
pub struct MaterializedPin {
    pub pin: PinnedItem,
    pub root_dir: String,
    pub manifest: Manifest,
    /// Whether it is the root of its closure.
    pub is_root: bool,
}

/// A root's closure: every node to add, the root first.
pub struct PinnedClosure {
    pub nodes: Vec<MaterializedPin>,
}

/// The pins of the first `n` nodes without the root's.
pub open spec fn deps_of(nodes: Seq<MaterializedPin>, n: int) -> Seq<PinView>
    decreases n,
{
    if n <= 0 || n > nodes.len() {
        Seq::empty()
    } else if nodes[n - 1].is_root {
        deps_of(nodes, n - 1)
    } else {
        deps_of(nodes, n - 1).push(nodes[n - 1].pin@)
    }
}

impl PinnedClosure {
    /// The pins of everything but the root, in order.
    pub fn dep_pins(&self) -> (r: Vec<PinnedItem>)
        ensures
            pin_views(r@) == deps_of(self.nodes@, self.nodes@.len() as int),
    {
        let mut out: Vec<PinnedItem> = Vec::new();
        let mut i: usize = 0;
        proof {
            assert(pin_views(out@) =~= Seq::<PinView>::empty());
        }
        while i < self.nodes.len()
            invariant
                i <= self.nodes@.len(),
                pin_views(out@) == deps_of(self.nodes@, i as int),
            decreases self.nodes.len() - i,
        {
            if !self.nodes[i].is_root {
                let ghost before = pin_views(out@);
                out.push(self.nodes[i].pin.clone());
                proof {
                    assert(pin_views(out@) =~= before.push(self.nodes@[i as int].pin@));
                }
            }
            i += 1;
        }
        out
    }

    /// Every manifest of the closure, in order.
    pub fn manifests(&self) -> (r: Vec<&Manifest>)
        ensures
            r@.len() == self.nodes@.len(),
            forall|k: int| 0 <= k < r@.len() ==> *(#[trigger] r@[k]) == self.nodes@[k].manifest,
    {
        let mut out: Vec<&Manifest> = Vec::new();
        let mut i: usize = 0;
        while i < self.nodes.len()
            invariant
                i <= self.nodes@.len(),
                out@.len() == i,
                forall|k: int| 0 <= k < i ==> *(#[trigger] out@[k]) == self.nodes@[k].manifest,
            decreases self.nodes.len() - i,
        {
            out.push(&self.nodes[i].manifest);
            i += 1;
        }
        out
    }
}

/// Whether materializing a pin may reach the network: its own origin may, or
/// the local entry that holds the same bytes may, or there is none.
pub fn may_block(pin: &PinnedItem, local: Option<&EntryOrigin>) -> (r: bool)
    ensures
        r == (pin.origin is Git || match local {
            Some(origin) => origin is Git,
            None => true,
        }),
{
    if pin.origin.resolution_may_block() {
        return true;
    }
    match local {
        Some(origin) => origin.resolution_may_block(),
        None => true,
    }
}

/// Refuses bytes that declare another node than their pin names.
pub fn check_declared(pin: &PinnedItem, manifest: &Manifest) -> (r: Result<(), String>)
    ensures
        match r {
            Ok(_) => manifest.name@ == pin.name@ && manifest.tag@ == pin.tag@,
            Err(text) => !(manifest.name@ == pin.name@ && manifest.tag@ == pin.tag@) && text@
                == "pinned "@ + item_text(pin.kind, pin.name@, pin.tag@)
                + " resolved to bytes declaring `"@ + manifest.name@ + ":"@ + manifest.tag@
                + "`; the cache or the pin is wrong"@,
        },
{
    if str_eq(manifest.name.as_str(), pin.name.as_str()) && str_eq(
        manifest.tag.as_str(),
        pin.tag.as_str(),
    ) {
        return Ok(());
    }
    let mut text: String = "pinned ".to_owned();
    text.append(pin.label().as_str());
    text.append(" resolved to bytes declaring `");
    text.append(manifest.name.as_str());
    text.append(":");
    text.append(manifest.tag.as_str());
    text.append("`; the cache or the pin is wrong");
    Err(text)
}

/// The nodes of a list that are roots, or are none, in order.
pub open spec fn rooted(nodes: Seq<MaterializedPin>, is_root: bool) -> Seq<MaterializedPin>
    decreases nodes.len(),
{
    if nodes.len() == 0 {
        Seq::empty()
    } else if nodes.last().is_root == is_root {
        rooted(nodes.drop_last(), is_root).push(nodes.last())
    } else {
        rooted(nodes.drop_last(), is_root)
    }
}

/// Puts the root first and keeps the order otherwise: it does not depend on
/// which materialization was done first.
pub fn root_first(nodes: Vec<MaterializedPin>) -> (r: Vec<MaterializedPin>)
    ensures
        r@ == rooted(nodes@, true) + rooted(nodes@, false),
{
    let mut roots: Vec<MaterializedPin> = Vec::new();
    let mut others: Vec<MaterializedPin> = Vec::new();
    let ghost all = nodes@;
    for node in it: nodes
        invariant
            it.seq() == all,
            roots@ == rooted(all.take(it.index() as int), true),
            others@ == rooted(all.take(it.index() as int), false),
    {
        proof {
            let i = it.index() as int;
            assert(all.take(i + 1).drop_last() =~= all.take(i));
            assert(all.take(i + 1).last() == node);
        }
        if node.is_root {
            roots.push(node);
        } else {
            others.push(node);
        }
    }
    proof {
        assert(all.take(all.len() as int) =~= all);
    }
    roots.append(&mut others);
    roots
}

/// The pins of documents, by identity.
pub struct DocPins {
    pub pins: Vec<PinnedItem>,
}

/// The pins of the first `n` that name documents, in order.
pub open spec fn documents(pins: Seq<PinView>, n: int) -> Seq<PinView>
    decreases n,
{
    if n <= 0 || n > pins.len() {
        Seq::empty()
    } else if pins[n - 1].kind == PinKind::Node {
        documents(pins, n - 1)
    } else {
        documents(pins, n - 1).push(pins[n - 1])
    }
}

/// The last of the first `n` pins that is of an identity: a later pin of one
/// identity replaces an earlier one.
pub open spec fn pin_for(
    pins: Seq<PinView>,
    kind: PinKind,
    name: Seq<char>,
    tag: Seq<char>,
    n: int,
) -> Option<PinView>
    decreases n,
{
    if n <= 0 || n > pins.len() {
        None
    } else if pins[n - 1].kind == kind && pins[n - 1].name == name && pins[n - 1].tag == tag {
        Some(pins[n - 1])
    } else {
        pin_for(pins, kind, name, tag, n - 1)
    }
}

/// The refusal of a reference that no pin covers.
pub open spec fn gap_text(kind: PinKind, name: Seq<char>, tag: Seq<char>) -> Seq<char> {
    item_text(kind, name, tag)
        + " is not in this launch's pins; the coordinator shipped an incomplete closure"@
}

/// The refusal of a reference whose author asks for other bytes than are
/// pinned.
pub open spec fn conflict_text(
    kind: PinKind,
    name: Seq<char>,
    tag: Seq<char>,
    author: Seq<char>,
    pinned: Seq<char>,
) -> Seq<char> {
    item_text(kind, name, tag) + " is pinned to `"@ + author
        + "` by the manifest but the launch pinned `"@ + pinned
        + "`; the closure was minted from different bytes than this manifest"@
}

impl DocPins {
    /// The documents among a list of pins.
    pub fn from_pins(pins: &Vec<PinnedItem>) -> (r: Self)
        ensures
            pin_views(r.pins@) == documents(pin_views(pins@), pins@.len() as int),
    {
        let mut out: Vec<PinnedItem> = Vec::new();
        let mut i: usize = 0;
        proof {
            assert(pin_views(out@) =~= Seq::<PinView>::empty());
        }
        while i < pins.len()
            invariant
                i <= pins@.len(),
                pin_views(out@) == documents(pin_views(pins@), i as int),
            decreases pins.len() - i,
        {
            proof {
                assert(pin_views(pins@)[i as int] == pins@[i as int]@);
            }
            if pins[i].kind != PinKind::Node {
                let ghost before = pin_views(out@);
                out.push(pins[i].clone());
                proof {
                    assert(pin_views(out@) =~= before.push(pins@[i as int]@));
                }
            }
            i += 1;
        }
        DocPins { pins: out }
    }

    /// The pin of one reference. A reference that no pin covers is refused,
    /// and so is one whose author asks for other bytes; a name is never looked
    /// up instead.
    pub fn require(
        &self,
        kind: PinKind,
        name: &str,
        tag: &str,
        author_sha256: Option<&str>,
    ) -> (r: Result<&PinnedItem, String>)
        ensures
            match pin_for(
                pin_views(self.pins@),
                kind,
                name@,
                tag@,
                self.pins@.len() as int,
            ) {
                None => r matches Err(text) && text@ == gap_text(kind, name@, tag@),
                Some(pin) => match author_sha256 {
                    Some(author) if author@ != pin.sha256 => r matches Err(text) && text@
                        == conflict_text(kind, name@, tag@, author@, pin.sha256),
                    _ => r matches Ok(found) && found@ == pin,
                },
            },
    {
        let mut i: usize = self.pins.len();
        while i > 0
            invariant
                i <= self.pins@.len(),
                pin_for(pin_views(self.pins@), kind, name@, tag@, self.pins@.len() as int)
                    == pin_for(pin_views(self.pins@), kind, name@, tag@, i as int),
            decreases i,
        {
            let pin = &self.pins[i - 1];
            proof {
                assert(pin_views(self.pins@)[i - 1] == self.pins@[i - 1]@);
            }
            if pin.is_item(kind, name, tag) {
                if let Some(author) = author_sha256 {
                    if !str_eq(author, pin.sha256.as_str()) {
                        let mut text: String = item_label(kind, name, tag);
                        text.append(" is pinned to `");
                        text.append(author);
                        text.append("` by the manifest but the launch pinned `");
                        text.append(pin.sha256.as_str());
                        text.append(
                            "`; the closure was minted from different bytes than this manifest",
                        );
                        return Err(text);
                    }
                }
                return Ok(pin);
            }
            i -= 1;
        }
        let mut text: String = item_label(kind, name, tag);
        text.append(
            " is not in this launch's pins; the coordinator shipped an incomplete closure",
        );
        Err(text)
    }
}

/// A node's pin never serves a reference to a document: no pin that a lookup
/// holds is of the kind of a node.
pub proof fn nodes_stay_out_of_the_document_lookup(
    pins: Seq<PinView>,
    n: int,
    name: Seq<char>,
    tag: Seq<char>,
    m: int,
)
    requires
        0 <= n <= pins.len(),
        m <= documents(pins, n).len(),
    ensures
        forall|k: int|
            0 <= k < documents(pins, n).len() ==> (#[trigger] documents(pins, n)[k]).kind
                != PinKind::Node,
        pin_for(documents(pins, n), PinKind::Node, name, tag, m) is None,
    decreases n, m,
{
    if n > 0 {
        let init = documents(pins, n - 1);
        nodes_stay_out_of_the_document_lookup(pins, n - 1, name, tag, 0);
    }
    if m > 0 {
        nodes_stay_out_of_the_document_lookup(pins, n, name, tag, m - 1);
        assert(documents(pins, n)[m - 1].kind != PinKind::Node);
    }
}

/// Mints the pins of a closure's documents, one for each identity.
pub struct DocPinMinter {
    pub pins: Vec<PinnedItem>,
}

/// Whether no two pins of a list are of one identity.
pub open spec fn one_each(pins: Seq<PinView>) -> bool {
    forall|i: int, j: int|
        0 <= i < j < pins.len() ==> !((#[trigger] pins[i]).kind == (#[trigger] pins[j]).kind
            && pins[i].name == pins[j].name && pins[i].tag == pins[j].tag)
}

/// The refusal of one document at two contents.
pub open spec fn two_contents_text(pin: PinView, existing: Seq<char>) -> Seq<char> {
    item_text(pin.kind, pin.name, pin.tag)
        + " is needed at two different contents in one closure (`"@ + existing + "` and `"@
        + pin.sha256
        + "`); align the manifests' sha256 pins so one set of bytes serves every reference"@
}

impl DocPinMinter {
    pub fn new() -> (r: Self)
        ensures
            r.pins@.len() == 0,
            one_each(pin_views(r.pins@)),
    {
        DocPinMinter { pins: Vec::new() }
    }

    /// Takes one resolved reference: a document that is new is pinned, one
    /// that is pinned with the same bytes is left alone, and one that is
    /// pinned with other bytes is refused.
    pub fn mint(&mut self, pin: PinnedItem) -> (r: Result<(), String>)
        requires
            one_each(pin_views(old(self).pins@)),
        ensures
            one_each(pin_views(final(self).pins@)),
            match pin_for(
                pin_views(old(self).pins@),
                pin.kind,
                pin.name@,
                pin.tag@,
                old(self).pins@.len() as int,
            ) {
                None => r is Ok && pin_views(final(self).pins@) == pin_views(old(self).pins@).push(
                    pin@,
                ),
                Some(existing) => final(self).pins@ == old(self).pins@ && if existing.sha256
                    == pin.sha256@ {
                    r is Ok
                } else {
                    r matches Err(text) && text@ == two_contents_text(pin@, existing.sha256)
                },
            },
    {
        let mut i: usize = self.pins.len();
        while i > 0
            invariant
                i <= self.pins@.len(),
                *self == *old(self),
                one_each(pin_views(self.pins@)),
                pin_for(
                    pin_views(self.pins@),
                    pin.kind,
                    pin.name@,
                    pin.tag@,
                    self.pins@.len() as int,
                ) == pin_for(pin_views(self.pins@), pin.kind, pin.name@, pin.tag@, i as int),
                forall|k: int|
                    i <= k < self.pins@.len() ==> !((#[trigger] pin_views(self.pins@)[k]).kind
                        == pin.kind && pin_views(self.pins@)[k].name == pin.name@ && pin_views(
                        self.pins@,
                    )[k].tag == pin.tag@),
            decreases i,
        {
            let held = &self.pins[i - 1];
            proof {
                assert(pin_views(self.pins@)[i - 1] == self.pins@[i - 1]@);
            }
            if held.is_item(pin.kind, pin.name.as_str(), pin.tag.as_str()) {
                if str_eq(held.sha256.as_str(), pin.sha256.as_str()) {
                    return Ok(());
                }
                let mut text: String = pin.label();
                text.append(" is needed at two different contents in one closure (`");
                text.append(held.sha256.as_str());
                text.append("` and `");
                text.append(pin.sha256.as_str());
                text.append(
                    "`); align the manifests' sha256 pins so one set of bytes serves every reference",
                );
                return Err(text);
            }
            i -= 1;
        }
        let ghost before = pin_views(self.pins@);
        let ghost added = pin@;
        self.pins.push(pin);
        proof {
            assert(pin_views(self.pins@) =~= before.push(added));
        }
        Ok(())
    }
}

/// One reference to a document, with its kind.
pub struct KindedRef<'a> {
    pub kind: PinKind,
    pub reference: &'a DocRef,
}

/// Every document that a manifest refers to: the contracts it implements and
/// depends on, then the pairings it takes part in and observes.
pub open spec fn references(manifest: Manifest) -> Seq<(PinKind, DocRef)> {
    manifest.implements@.map_values(|d: DocRef| (PinKind::Contract, d))
        + manifest.contracts@.map_values(|d: DocRef| (PinKind::Contract, d))
        + manifest.pairings@.map_values(|d: DocRef| (PinKind::Pairing, d))
        + manifest.pairing_observers@.map_values(|d: DocRef| (PinKind::Pairing, d))
}

/// What a list of references holds.
pub open spec fn ref_views(list: Seq<KindedRef>) -> Seq<(PinKind, DocRef)> {
    list.map_values(|entry: KindedRef| (entry.kind, *entry.reference))
}

/// Adds a list of references of one kind.
fn push_refs<'a>(out: &mut Vec<KindedRef<'a>>, list: &'a Vec<DocRef>, kind: PinKind)
    ensures
        ref_views(final(out)@) == ref_views(old(out)@) + list@.map_values(|d: DocRef| (kind, d)),
{
    let ghost before = ref_views(out@);
    let ghost all = list@.map_values(|d: DocRef| (kind, d));
    let mut i: usize = 0;
    proof {
        assert(before + all.take(0) =~= before);
    }
    while i < list.len()
        invariant
            i <= list@.len(),
            all == list@.map_values(|d: DocRef| (kind, d)),
            ref_views(out@) == before + all.take(i as int),
        decreases list.len() - i,
    {
        let ghost inner = ref_views(out@);
        out.push(KindedRef { kind, reference: &list[i] });
        proof {
            assert(ref_views(out@) =~= inner.push((kind, list@[i as int])));
            assert(inner.push((kind, list@[i as int])) =~= before + all.take(i + 1));
        }
        i += 1;
    }
    proof {
        assert(all.take(list@.len() as int) =~= all);
    }
}

/// Every document that a manifest refers to, in the order of minting.
pub fn doc_refs<'a>(manifest: &'a Manifest) -> (r: Vec<KindedRef<'a>>)
    ensures
        ref_views(r@) == references(*manifest),
{
    let mut out: Vec<KindedRef<'a>> = Vec::new();
    proof {
        assert(ref_views(out@) =~= Seq::<(PinKind, DocRef)>::empty());
    }
    push_refs(&mut out, &manifest.implements, PinKind::Contract);
    push_refs(&mut out, &manifest.contracts, PinKind::Contract);
    push_refs(&mut out, &manifest.pairings, PinKind::Pairing);
    push_refs(&mut out, &manifest.pairing_observers, PinKind::Pairing);
    proof {
        assert(ref_views(out@) =~= references(*manifest));
    }
    out
}

/// The identity of a node.
pub open spec fn identity_of(node: MaterializedPin) -> PairText {
    (node.pin.name@, node.pin.tag@)
}

/// The identities of a list of nodes.
pub open spec fn identities(nodes: Seq<MaterializedPin>) -> Seq<PairText> {
    nodes.map_values(|node: MaterializedPin| identity_of(node))
}

/// The root comes first in a closure, wherever it was found.
pub proof fn the_root_comes_first(nodes: Seq<MaterializedPin>, k: int)
    requires
        0 <= k < nodes.len(),
        nodes[k].is_root,
    ensures
        (rooted(nodes, true) + rooted(nodes, false)).len() == nodes.len(),
        (rooted(nodes, true) + rooted(nodes, false))[0].is_root,
    decreases nodes.len(),
{
    lemma_rooted(nodes);
    let roots = rooted(nodes, true);
    if k < nodes.len() - 1 {
        the_root_comes_first(nodes.drop_last(), k);
        lemma_rooted(nodes.drop_last());
        lemma_has_root(nodes.drop_last(), k);
    }
    lemma_has_root(nodes, k);
    assert(roots[0].is_root);
}

/// A list with a root in it has roots.
proof fn lemma_has_root(nodes: Seq<MaterializedPin>, k: int)
    requires
        0 <= k < nodes.len(),
        nodes[k].is_root,
    ensures
        rooted(nodes, true).len() > 0,
    decreases nodes.len(),
{
    if k < nodes.len() - 1 {
        lemma_has_root(nodes.drop_last(), k);
    }
}

/// Every node is a root or is none, and the roots are roots.
proof fn lemma_rooted(nodes: Seq<MaterializedPin>)
    ensures
        rooted(nodes, true).len() + rooted(nodes, false).len() == nodes.len(),
        forall|k: int| 0 <= k < rooted(nodes, true).len() ==> (#[trigger] rooted(nodes, true)[k]).is_root,
    decreases nodes.len(),
{
    if nodes.len() > 0 {
        lemma_rooted(nodes.drop_last());
    }
}

/// Whether a refusal is that of pins of which one does not decode.
pub open spec fn refuses_pin(pins: Seq<Result<PinnedItem, String>>, text: Seq<char>) -> bool {
    exists|k: int|
        0 <= k < pins.len() && (forall|j: int| 0 <= j < k ==> (#[trigger] pins[j]) is Ok) && ((
        #[trigger] pins[k]) matches Err(why) && text == "pin #"@ + decimal(k as nat)
            + " is not decodable: "@ + why@)
}

/// What decoding a goal's pins gives: all of them, or the first refusal, which
/// names the pin by its place.
pub fn decode_pins(decoded: Vec<Result<PinnedItem, String>>) -> (r: Result<
    Vec<PinnedItem>,
    String,
>)
    ensures
        match r {
            Ok(pins) => pins@.len() == decoded@.len() && forall|k: int|
                0 <= k < pins@.len() ==> decoded@[k] == Ok::<PinnedItem, String>(
                    #[trigger] pins@[k],
                ),
            Err(text) => refuses_pin(decoded@, text@),
        },
{
    let mut pins: Vec<PinnedItem> = Vec::new();
    for item in it: decoded
        invariant
            it.seq() == decoded@,
            pins@.len() == it.index(),
            forall|k: int|
                0 <= k < it.index() ==> decoded@[k] == Ok::<PinnedItem, String>(
                    #[trigger] pins@[k],
                ),
    {
        match item {
            Ok(pin) => pins.push(pin),
            Err(why) => {
                let mut text: String = "pin #".to_owned();
                text.append(to_decimal(pins.len() as u64).as_str());
                text.append(" is not decodable: ");
                text.append(why.as_str());
                proof {
                    let k = it.index() as int;
                    assert(decoded@[k] == Err::<PinnedItem, String>(why));
                    assert forall|j: int| 0 <= j < k implies (#[trigger] decoded@[j]) is Ok by {
                        assert(decoded@[j] == Ok::<PinnedItem, String>(pins@[j]));
                    }
                }
                return Err(text);
            },
        }
    }
    Ok(pins)
}

/// What encoding pins gives: all of them, or the first refusal, which names the
/// pin. `encoded` holds what came of each.
pub fn encode_pins(pins: &Vec<PinnedItem>, encoded: Vec<Result<String, String>>) -> (r: Result<
    Vec<String>,
    String,
>)
    requires
        pins@.len() == encoded@.len(),
    ensures
        match r {
            Ok(list) => list@.len() == encoded@.len() && forall|k: int|
                0 <= k < list@.len() ==> encoded@[k] == Ok::<String, String>(#[trigger] list@[k]),
            Err(text) => exists|k: int|
                0 <= k < encoded@.len() && (forall|j: int|
                    0 <= j < k ==> (#[trigger] encoded@[j]) is Ok) && ((
                #[trigger] encoded@[k]) matches Err(why) && text@
                    == "could not encode the pin for "@ + item_text(
                    pins@[k].kind,
                    pins@[k].name@,
                    pins@[k].tag@,
                ) + ": "@ + why@),
        },
{
    let mut list: Vec<String> = Vec::new();
    for item in it: encoded
        invariant
            it.seq() == encoded@,
            pins@.len() == encoded@.len(),
            list@.len() == it.index(),
            forall|k: int|
                0 <= k < it.index() ==> encoded@[k] == Ok::<String, String>(#[trigger] list@[k]),
    {
        match item {
            Ok(text) => list.push(text),
            Err(why) => {
                let mut text: String = "could not encode the pin for ".to_owned();
                text.append(pins[list.len()].label().as_str());
                text.append(": ");
                text.append(why.as_str());
                proof {
                    let k = it.index() as int;
                    assert(encoded@[k] == Err::<String, String>(why));
                    assert forall|j: int| 0 <= j < k implies (#[trigger] encoded@[j]) is Ok by {
                        assert(encoded@[j] == Ok::<String, String>(list@[j]));
                    }
                }
                return Err(text);
            },
        }
    }
    Ok(list)
}

/// The node pins of a list, or its document pins, in their order.
pub open spec fn pins_of(pins: Seq<PinnedItem>, nodes: bool) -> Seq<PinnedItem>
    decreases pins.len(),
{
    if pins.len() == 0 {
        Seq::empty()
    } else {
        let before = pins_of(pins.drop_last(), nodes);
        if (pins.last().kind == PinKind::Node) == nodes {
            before.push(pins.last())
        } else {
            before
        }
    }
}

/// Parts pins into those of nodes and those of documents.
pub fn split_pins(pins: Vec<PinnedItem>) -> (r: (Vec<PinnedItem>, Vec<PinnedItem>))
    ensures
        r.0@ == pins_of(pins@, true),
        r.1@ == pins_of(pins@, false),
{
    let mut nodes: Vec<PinnedItem> = Vec::new();
    let mut docs: Vec<PinnedItem> = Vec::new();
    for pin in it: pins
        invariant
            it.seq() == pins@,
            nodes@ == pins_of(pins@.take(it.index() as int), true),
            docs@ == pins_of(pins@.take(it.index() as int), false),
    {
        proof {
            let n = it.index() as int;
            assert(pins@.take(n + 1).drop_last() =~= pins@.take(n));
            assert(pins@.take(n + 1).last() == pin);
        }
        if pin.kind == PinKind::Node {
            nodes.push(pin);
        } else {
            docs.push(pin);
        }
    }
    proof {
        assert(pins@.take(pins@.len() as int) =~= pins@);
    }
    (nodes, docs)
}

/// The pins of a sort are all the pins of that sort, and no others.
pub proof fn lemma_pins_of(pins: Seq<PinnedItem>, nodes: bool)
    ensures
        forall|item: PinnedItem|
            #![trigger pins_of(pins, nodes).contains(item)]
            #![trigger pins.contains(item)]
            pins_of(pins, nodes).contains(item) <==> pins.contains(item) && ((item.kind
                == PinKind::Node) == nodes),
        forall|k: int|
            0 <= k < pins_of(pins, nodes).len() ==> ((#[trigger] pins_of(pins, nodes)[k]).kind
                == PinKind::Node) == nodes,
        pins_of(pins, true).len() + pins_of(pins, false).len() == pins.len(),
    decreases pins.len(),
{
    if pins.len() > 0 {
        let less = pins.drop_last();
        lemma_pins_of(less, nodes);
        lemma_pins_of(less, !nodes);
        let all = pins_of(pins, nodes);
        let before = pins_of(less, nodes);
        assert forall|item: PinnedItem|
            #![trigger all.contains(item)]
            #![trigger pins.contains(item)]
            all.contains(item) <==> pins.contains(item) && ((item.kind == PinKind::Node)
                == nodes) by {
            if all.contains(item) {
                let k = choose|k: int| 0 <= k < all.len() && all[k] == item;
                if k < before.len() {
                    assert(before[k] == item);
                    assert(before.contains(item));
                    let j = choose|j: int| 0 <= j < less.len() && less[j] == item;
                    assert(pins[j] == item);
                } else {
                    assert(pins[pins.len() - 1] == item);
                }
            }
            if pins.contains(item) && ((item.kind == PinKind::Node) == nodes) {
                let j = choose|j: int| 0 <= j < pins.len() && pins[j] == item;
                if j < less.len() {
                    assert(less[j] == item);
                    assert(less.contains(item));
                    assert(before.contains(item));
                    let k = choose|k: int| 0 <= k < before.len() && before[k] == item;
                    assert(all[k] == item);
                } else {
                    assert(all[all.len() - 1] == item);
                }
            }
        }
    }
}

/// Parting pins loses none: every pin is on the side of its sort, and the two sides
/// are as many as all.
pub proof fn every_pin_is_on_one_side(
    pins: Vec<PinnedItem>,
    r: (Vec<PinnedItem>, Vec<PinnedItem>),
    item: PinnedItem,
)
    requires
        call_ensures(split_pins, (pins,), r),
    ensures
        r.0@.contains(item) <==> pins@.contains(item) && item.kind == PinKind::Node,
        r.1@.contains(item) <==> pins@.contains(item) && item.kind != PinKind::Node,
        r.0@.len() + r.1@.len() == pins@.len(),
{
    lemma_pins_of(pins@, true);
    lemma_pins_of(pins@, false);
}

/// The pin that is found is the last one of its identity.
proof fn lemma_pin_for(
    pins: Seq<PinView>,
    kind: PinKind,
    name: Seq<char>,
    tag: Seq<char>,
    n: int,
)
    requires
        0 <= n <= pins.len(),
    ensures
        pin_for(pins, kind, name, tag, n) is None ==> forall|k: int|
            0 <= k < n ==> !is_of(#[trigger] pins[k], kind, name, tag),
        pin_for(pins, kind, name, tag, n) matches Some(found) ==> exists|k: int|
            0 <= k < n && #[trigger] pins[k] == found && is_of(pins[k], kind, name, tag) && forall|
                j: int,
            |
                k < j < n ==> !is_of(#[trigger] pins[j], kind, name, tag),
    decreases n,
{
    if n > 0 {
        lemma_pin_for(pins, kind, name, tag, n - 1);
        if is_of(pins[n - 1], kind, name, tag) {
            assert(pins[n - 1] == pin_for(pins, kind, name, tag, n)->0);
        } else if let Some(found) = pin_for(pins, kind, name, tag, n - 1) {
            let k = choose|k: int|
                0 <= k < n - 1 && #[trigger] pins[k] == found && is_of(pins[k], kind, name, tag)
                    && forall|j: int|
                    k < j < n - 1 ==> !is_of(#[trigger] pins[j], kind, name, tag);
            assert(pins[k] == found);
        }
    }
}

/// Whether a pin is of an identity.
pub open spec fn is_of(pin: PinView, kind: PinKind, name: Seq<char>, tag: Seq<char>) -> bool {
    pin.kind == kind && pin.name == name && pin.tag == tag
}

/// A reference is served only by a pin of its own kind, name and tag, the last one there
/// is, and only with the bytes that its author asks for. It is refused where no pin is of
/// its identity, or its author asks for other bytes than the last one has; the refusal
/// names it.
pub proof fn a_reference_is_served_by_its_own_pin(
    lookup: DocPins,
    kind: PinKind,
    name: &str,
    tag: &str,
    author_sha256: Option<&str>,
    r: Result<&PinnedItem, String>,
)
    requires
        call_ensures(DocPins::require, (&lookup, kind, name, tag, author_sha256), r),
    ensures
        r matches Ok(found) ==> found.kind == kind && found.name@ == name@ && found.tag@ == tag@ && (
        author_sha256 matches Some(author) ==> found.sha256@ == author@) && pin_views(
            lookup.pins@,
        ).contains(found@),
        r is Err ==> forall|k: int|
            0 <= k < lookup.pins@.len() && is_of((#[trigger] lookup.pins@[k])@, kind, name@, tag@)
                ==> author_sha256 is Some && exists|j: int|
                k <= j < lookup.pins@.len() && is_of(
                    (#[trigger] lookup.pins@[j])@,
                    kind,
                    name@,
                    tag@,
                ) && lookup.pins@[j].sha256@ != author_sha256->0@,
        r matches Err(text) ==> mentions(text@, name@ + ":"@ + tag@),
{
    let pins = pin_views(lookup.pins@);
    let n = lookup.pins@.len() as int;
    assert(pins.len() == n);
    lemma_pin_for(pins, kind, name@, tag@, n);
    let answer = pin_for(pins, kind, name@, tag@, n);
    let label = item_text(kind, name@, tag@);
    let who = name@ + ":"@ + tag@;
    lemma_item_text(kind, name@, tag@);
    match answer {
        None => {
            a_longer_text_mentions_as_much(
                label,
                who,
                " is not in this launch's pins; the coordinator shipped an incomplete closure"@,
            );
            assert forall|k: int| 0 <= k < n implies !is_of(
                (#[trigger] lookup.pins@[k])@,
                kind,
                name@,
                tag@,
            ) by {
                assert(pins[k] == lookup.pins@[k]@);
            }
        },
        Some(pin) => {
            let last = choose|k: int|
                0 <= k < n && #[trigger] pins[k] == pin && is_of(pins[k], kind, name@, tag@)
                    && forall|j: int|
                    k < j < n ==> !is_of(#[trigger] pins[j], kind, name@, tag@);
            assert(pins[last] == lookup.pins@[last]@);
            assert(pins.contains(pin));
            if let Err(text) = r {
                let author = author_sha256->0@;
                let a = " is pinned to `"@;
                let b = "` by the manifest but the launch pinned `"@;
                let c = "`; the closure was minted from different bytes than this manifest"@;
                a_longer_text_mentions_as_much(label, who, a);
                a_longer_text_mentions_as_much(label + a, who, author);
                a_longer_text_mentions_as_much(label + a + author, who, b);
                a_longer_text_mentions_as_much(label + a + author + b, who, pin.sha256);
                a_longer_text_mentions_as_much(label + a + author + b + pin.sha256, who, c);
                assert forall|k: int|
                    0 <= k < n && is_of((#[trigger] lookup.pins@[k])@, kind, name@, tag@) implies author_sha256 is Some
                    && exists|j: int|
                    k <= j < n && is_of((#[trigger] lookup.pins@[j])@, kind, name@, tag@)
                        && lookup.pins@[j].sha256@ != author_sha256->0@ by {
                    assert(pins[k] == lookup.pins@[k]@);
                    assert(k <= last);
                    assert(lookup.pins@[last].sha256@ != author);
                }
            }
        },
    }
}

/// Only what lies in a file system here cannot be placed elsewhere, and the refusal says
/// where it lies.
pub proof fn only_local_files_stay_here(pin: PinnedItem, r: Option<String>)
    requires
        call_ensures(portable_pin_refusal, (&pin,), r),
    ensures
        r is Some <==> pin.origin is Fs,
        r matches Some(text) ==> (pin.origin matches EntryOrigin::Fs { path } && mentions(
            text@,
            path@,
        )),
{
    if let EntryOrigin::Fs { path } = pin.origin {
        what_is_written_is_mentioned(
            item_text(pin.kind, pin.name@, pin.tag@)
                + " resolves to a filesystem repository entry at "@,
            path@,
            ", which cannot be placed on another core node: the path names a tree on the coordinator's filesystem. Keep the deployment's instances on one core node, or serve the node from a git repository."@,
        );
    }
}

/// Bytes stand for a pin only where they declare the pin's name and tag.
pub proof fn only_the_named_node_is_taken(pin: PinnedItem, manifest: Manifest, r: Result<(), String>)
    requires
        call_ensures(check_declared, (&pin, &manifest), r),
    ensures
        r is Ok <==> manifest.name@ == pin.name@ && manifest.tag@ == pin.tag@,
{
}

/// The pins of a goal are taken only where all of them decode, in their order.
pub proof fn all_pins_decode_or_none(
    decoded: Vec<Result<PinnedItem, String>>,
    r: Result<Vec<PinnedItem>, String>,
)
    requires
        call_ensures(decode_pins, (decoded,), r),
    ensures
        r is Ok <==> forall|k: int| 0 <= k < decoded@.len() ==> (#[trigger] decoded@[k]) is Ok,
        r matches Ok(pins) ==> pins@.len() == decoded@.len() && forall|k: int|
            0 <= k < pins@.len() ==> decoded@[k] == Ok::<PinnedItem, String>(#[trigger] pins@[k]),
{
    if let Ok(pins) = r {
        assert forall|k: int| 0 <= k < decoded@.len() implies (#[trigger] decoded@[k]) is Ok by {
            assert(decoded@[k] == Ok::<PinnedItem, String>(pins@[k]));
        }
    }
}

/// Putting the root first loses no node and adds none, and no other node comes before a
/// root.
pub proof fn the_root_is_put_first(
    nodes: Vec<MaterializedPin>,
    r: Vec<MaterializedPin>,
    node: MaterializedPin,
    i: int,
    j: int,
)
    requires
        call_ensures(root_first, (nodes,), r),
    ensures
        r@.len() == nodes@.len(),
        r@.contains(node) <==> nodes@.contains(node),
        0 <= i < j < r@.len() && r@[j].is_root ==> r@[i].is_root,
{
    lemma_rooted_sides(nodes@);
    let roots = rooted(nodes@, true);
    let others = rooted(nodes@, false);
    assert(r@ == roots + others);
    if r@.contains(node) {
        let k = choose|k: int| 0 <= k < r@.len() && r@[k] == node;
        if k < roots.len() {
            assert(roots[k] == node);
            assert(roots.contains(node));
        } else {
            assert(others[k - roots.len()] == node);
            assert(others.contains(node));
        }
    }
    if nodes@.contains(node) {
        if node.is_root {
            assert(roots.contains(node));
            let k = choose|k: int| 0 <= k < roots.len() && roots[k] == node;
            assert(r@[k] == node);
        } else {
            assert(others.contains(node));
            let k = choose|k: int| 0 <= k < others.len() && others[k] == node;
            assert(r@[roots.len() + k] == node);
        }
    }
    if 0 <= i < j < r@.len() {
        if j >= roots.len() {
            assert(others.contains(others[j - roots.len()]));
        } else {
            assert(roots.contains(roots[i]));
        }
    }
}

/// The two sides of a list of nodes hold all of it.
proof fn lemma_rooted_sides(nodes: Seq<MaterializedPin>)
    ensures
        rooted(nodes, true).len() + rooted(nodes, false).len() == nodes.len(),
        forall|node: MaterializedPin, side: bool|
            #![trigger rooted(nodes, side).contains(node)]
            rooted(nodes, side).contains(node) <==> nodes.contains(node) && node.is_root == side,
    decreases nodes.len(),
{
    if nodes.len() > 0 {
        let less = nodes.drop_last();
        lemma_rooted_sides(less);
        assert forall|node: MaterializedPin, side: bool|
            #![trigger rooted(nodes, side).contains(node)]
            rooted(nodes, side).contains(node) <==> nodes.contains(node) && node.is_root
                == side by {
            let all = rooted(nodes, side);
            let before = rooted(less, side);
            if all.contains(node) {
                let k = choose|k: int| 0 <= k < all.len() && all[k] == node;
                if k < before.len() {
                    assert(before[k] == node);
                    assert(before.contains(node));
                    let j = choose|j: int| 0 <= j < less.len() && less[j] == node;
                    assert(nodes[j] == node);
                } else {
                    assert(nodes[nodes.len() - 1] == node);
                }
            }
            if nodes.contains(node) && node.is_root == side {
                let j = choose|j: int| 0 <= j < nodes.len() && nodes[j] == node;
                if j < less.len() {
                    assert(less[j] == node);
                    assert(less.contains(node));
                    assert(before.contains(node));
                    let k = choose|k: int| 0 <= k < before.len() && before[k] == node;
                    assert(all[k] == node);
                } else {
                    assert(all[all.len() - 1] == node);
                }
            }
        }
    }
}

/// Whether the node at a place is not the root.
pub open spec fn is_dep_at(nodes: Seq<MaterializedPin>) -> spec_fn(int) -> bool {
    |k: int| 0 <= k < nodes.len() && !nodes[k].is_root
}

/// The pin of the node at a place.
pub open spec fn pin_at(nodes: Seq<MaterializedPin>) -> spec_fn(int) -> PinView {
    |k: int| nodes[k].pin@
}

/// The dependencies are picked in order.
proof fn lemma_deps_of(nodes: Seq<MaterializedPin>, n: int)
    requires
        0 <= n <= nodes.len(),
    ensures
        picked(n, is_dep_at(nodes), pin_at(nodes), deps_of(nodes, n)),
    decreases n,
{
    if n == 0 {
        lemma_picked_none(is_dep_at(nodes), pin_at(nodes));
    } else {
        lemma_deps_of(nodes, n - 1);
        lemma_picked_next(n - 1, is_dep_at(nodes), pin_at(nodes), deps_of(nodes, n - 1));
    }
}

/// The pins of a closure's dependencies are those of all its nodes but the root, in
/// order.
pub proof fn every_node_but_the_root_is_a_dependency(closure: PinnedClosure, r: Vec<PinnedItem>)
    requires
        call_ensures(PinnedClosure::dep_pins, (&closure,), r),
    ensures
        picked(
            closure.nodes@.len() as int,
            is_dep_at(closure.nodes@),
            pin_at(closure.nodes@),
            pin_views(r@),
        ),
{
    lemma_deps_of(closure.nodes@, closure.nodes@.len() as int);
}

/// A pin may reach the network unless its own origin and the local entry with its bytes
/// are both files here.
pub proof fn only_files_never_block(pin: PinnedItem, local: Option<&EntryOrigin>, r: bool)
    requires
        call_ensures(may_block, (&pin, local), r),
    ensures
        !r <==> pin.origin is Fs && (local matches Some(origin) && *origin is Fs),
{
}

/// Every document that a manifest names is referred to, under the kind of its list: what
/// it implements or depends on as a contract, what it pairs by or observes as a pairing.
pub proof fn every_document_of_a_manifest_is_referred_to<'a>(
    manifest: &'a Manifest,
    r: Vec<KindedRef<'a>>,
    k: int,
)
    requires
        call_ensures(doc_refs, (manifest,), r),
    ensures
        0 <= k < manifest.implements@.len() ==> ref_views(r@).contains(
            (PinKind::Contract, manifest.implements@[k]),
        ),
        0 <= k < manifest.contracts@.len() ==> ref_views(r@).contains(
            (PinKind::Contract, manifest.contracts@[k]),
        ),
        0 <= k < manifest.pairings@.len() ==> ref_views(r@).contains(
            (PinKind::Pairing, manifest.pairings@[k]),
        ),
        0 <= k < manifest.pairing_observers@.len() ==> ref_views(r@).contains(
            (PinKind::Pairing, manifest.pairing_observers@[k]),
        ),
        r@.len() == manifest.implements@.len() + manifest.contracts@.len()
            + manifest.pairings@.len() + manifest.pairing_observers@.len(),
{
    let all = ref_views(r@);
    let a = manifest.implements@.len();
    let b = manifest.contracts@.len();
    let c = manifest.pairings@.len();
    assert(all.len() == r@.len());
    if 0 <= k < a {
        assert(all[k] == (PinKind::Contract, manifest.implements@[k]));
    }
    if 0 <= k < b {
        assert(all[a + k] == (PinKind::Contract, manifest.contracts@[k]));
    }
    if 0 <= k < c {
        assert(all[a + b + k] == (PinKind::Pairing, manifest.pairings@[k]));
    }
    if 0 <= k < manifest.pairing_observers@.len() {
        assert(all[a + b + c + k] == (PinKind::Pairing, manifest.pairing_observers@[k]));
    }
}

/// A document is pinned once: a new one is added, one with the same bytes is left alone,
/// and one with other bytes is refused, and nothing changes.
pub proof fn a_document_has_one_content(
    minter: &mut DocPinMinter,
    pin: PinnedItem,
    r: Result<(), String>,
)
    requires
        one_each(pin_views(old(minter).pins@)),
        call_ensures(DocPinMinter::mint, (minter, pin), r),
    ensures
        r is Err ==> final(minter).pins@ == old(minter).pins@ && exists|k: int|
            0 <= k < old(minter).pins@.len() && is_of(
                (#[trigger] pin_views(old(minter).pins@)[k]),
                pin.kind,
                pin.name@,
                pin.tag@,
            ) && pin_views(old(minter).pins@)[k].sha256 != pin.sha256@,
        r is Ok ==> exists|k: int|
            0 <= k < final(minter).pins@.len() && is_of(
                (#[trigger] pin_views(final(minter).pins@)[k]),
                pin.kind,
                pin.name@,
                pin.tag@,
            ) && pin_views(final(minter).pins@)[k].sha256 == pin.sha256@,
        final(minter).pins@ == old(minter).pins@ || pin_views(final(minter).pins@) == pin_views(
            old(minter).pins@,
        ).push(pin@),
{
    let before = pin_views(old(minter).pins@);
    let after = pin_views(final(minter).pins@);
    let n = old(minter).pins@.len() as int;
    assert(before.len() == n);
    assert(after.len() == final(minter).pins@.len());
    lemma_pin_for(before, pin.kind, pin.name@, pin.tag@, n);
    match pin_for(before, pin.kind, pin.name@, pin.tag@, n) {
        None => {
            assert(after[n] == pin@);
        },
        Some(found) => {
            let k = choose|k: int|
                0 <= k < n && #[trigger] before[k] == found && is_of(
                    before[k],
                    pin.kind,
                    pin.name@,
                    pin.tag@,
                );
            assert(after[k] == found);
        },
    }
}

/// Pins are encoded only where all of them are, in their order.
pub proof fn all_pins_encode_or_none(
    pins: Vec<PinnedItem>,
    encoded: Vec<Result<String, String>>,
    r: Result<Vec<String>, String>,
)
    requires
        pins@.len() == encoded@.len(),
        call_ensures(encode_pins, (&pins, encoded), r),
    ensures
        r is Ok <==> forall|k: int| 0 <= k < encoded@.len() ==> (#[trigger] encoded@[k]) is Ok,
        r matches Ok(list) ==> list@.len() == encoded@.len(),
{
    if let Ok(list) = r {
        assert forall|k: int| 0 <= k < encoded@.len() implies (#[trigger] encoded@[k]) is Ok by {
            assert(encoded@[k] == Ok::<String, String>(list@[k]));
        }
    }
}

} // verus!
