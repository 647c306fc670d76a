//! What a goal for a pinned closure asks for.
use crate::pins::{decode_pins, item_text, lemma_pins_of, pins_of, refuses_pin, split_pins, PinKind, PinnedItem};
use crate::sync::{label, label_text};
use crate::text::{decimal, to_decimal};
use vstd::prelude::*;
use vstd::string::*;

verus! {

/// Where a goal's closure comes from.
pub enum ClosureSource {
    /// A root pin, and the pins of the closure, each as its decoding came out.
    Pinned { root: Result<PinnedItem, String>, pins: Vec<Result<PinnedItem, String>> },
    /// An identity that this machine resolves against its own caches.
    ResolveRef { name: String, tag: String },
    /// Anything else.
    Other,
}

/// What a goal asks for.
pub enum ClosureWork {
    /// Encode the document pins, then materialize the root and the node pins.
    Materialize { root: PinnedItem, node_pins: Vec<PinnedItem>, doc_pins: Vec<PinnedItem> },
    /// Resolve the closure of this identity.
    Resolve { name: String, tag: String },
}

/// What a goal asks for, or why it is refused, and the lines for the feedback
/// stream before that.
pub struct ClosureStep {
    pub lines: Vec<String>,
    pub work: Result<ClosureWork, String>,
}

/// The line that announces a resolution.
pub open spec fn resolving_text(name: Seq<char>, tag: Seq<char>) -> Seq<char> {
    "Resolving "@ + label_text(name, tag) + " from repo cache"@
}

/// The refusal of a goal that needs a cache on a machine without one.
pub open spec fn empty_cache_text(cache_path: Seq<char>) -> Seq<char> {
    "nodes.json5 not found or empty at "@ + cache_path
        + "; run `peppy repo refresh` to populate it"@
}

/// What a goal asks for. `cache_is_empty` tells whether the node cache holds
/// nothing, or why it could not be read: a cache that is absent is empty, and
/// only a resolution needs one.
pub fn plan_closure(
    source: ClosureSource,
    cache_is_empty: Result<bool, String>,
    cache_path: &str,
) -> (r: ClosureStep)
    ensures
        match cache_is_empty {
            Err(why) => r.lines@.len() == 0 && (r.work matches Err(text) && text@
                == "Failed to read nodes cache: "@ + why@),
            Ok(empty) => match source {
                ClosureSource::Pinned { root: Err(why), .. } => r.lines@.len() == 0 && (
                r.work matches Err(text) && text@ == "the goal's root pin is not decodable: "@
                    + why@),
                ClosureSource::Pinned { root: Ok(root), pins } => r.lines@.len() == 0 && (
                if root.kind != PinKind::Node {
                    r.work matches Err(text) && text@ == "the goal's root pin is "@ + item_text(
                        root.kind,
                        root.name@,
                        root.tag@,
                    ) + ", not a node"@
                } else {
                    match r.work {
                        Err(text) => refuses_pin(pins@, text@),
                        Ok(ClosureWork::Materialize { root: kept, node_pins, doc_pins }) => kept
                            == root && exists|all: Seq<PinnedItem>|
                            all.len() == pins@.len() && (forall|k: int|
                                0 <= k < all.len() ==> pins@[k] == Ok::<PinnedItem, String>(
                                    #[trigger] all[k],
                                )) && node_pins@ == #[trigger] pins_of(all, true) && doc_pins@
                                == pins_of(all, false),
                        Ok(_) => false,
                    }
                }),
                ClosureSource::ResolveRef { name, tag } => r.lines@.len() == 1 && r.lines@[0]@
                    == resolving_text(name@, tag@) && (if empty {
                    r.work matches Err(text) && text@ == empty_cache_text(cache_path@)
                } else {
                    r.work == Ok::<ClosureWork, String>(ClosureWork::Resolve { name, tag })
                }),
                ClosureSource::Other => r.lines@.len() == 0 && (r.work matches Err(text) && text@
                    == "internal error: run_pinned_add called with a non-pinned source"@),
            },
        },
{
    let mut lines: Vec<String> = Vec::new();
    let empty: bool = match cache_is_empty {
        Ok(empty) => empty,
        Err(why) => {
            let mut text: String = "Failed to read nodes cache: ".to_owned();
            text.append(why.as_str());
            return ClosureStep { lines, work: Err(text) };
        },
    };
    match source {
        ClosureSource::Pinned { root, pins } => {
            let root = match root {
                Ok(root) => root,
                Err(why) => {
                    let mut text: String = "the goal's root pin is not decodable: ".to_owned();
                    text.append(why.as_str());
                    return ClosureStep { lines, work: Err(text) };
                },
            };
            if root.kind != PinKind::Node {
                let mut text: String = "the goal's root pin is ".to_owned();
                text.append(root.label().as_str());
                text.append(", not a node");
                return ClosureStep { lines, work: Err(text) };
            }
            match decode_pins(pins) {
                Err(text) => ClosureStep { lines, work: Err(text) },
                Ok(all) => {
                    let ghost whole = all@;
                    let (node_pins, doc_pins) = split_pins(all);
                    proof {
                        assert(node_pins@ == pins_of(whole, true));
                    }
                    ClosureStep {
                        lines,
                        work: Ok(ClosureWork::Materialize { root, node_pins, doc_pins }),
                    }
                },
            }
        },
        ClosureSource::ResolveRef { name, tag } => {
            let mut line: String = "Resolving ".to_owned();
            line.append(label(name.as_str(), tag.as_str()).as_str());
            line.append(" from repo cache");
            lines.push(line);
            if empty {
                let mut text: String = "nodes.json5 not found or empty at ".to_owned();
                text.append(cache_path);
                text.append("; run `peppy repo refresh` to populate it");
                return ClosureStep { lines, work: Err(text) };
            }
            ClosureStep { lines, work: Ok(ClosureWork::Resolve { name, tag }) }
        },
        ClosureSource::Other => ClosureStep {
            lines,
            work: Err(
                "internal error: run_pinned_add called with a non-pinned source".to_owned(),
            ),
        },
    }
}

/// The line that announces the materialization of a root and its node pins.
pub fn materializing_line(root: &PinnedItem, node_pins: &Vec<PinnedItem>) -> (r: String)
    requires
        node_pins.len() < u64::MAX,
    ensures
        r@ == "Materializing "@ + decimal((node_pins@.len() + 1) as nat) + " pinned node(s) for "@
            + item_text(root.kind, root.name@, root.tag@),
{
    let mut line: String = "Materializing ".to_owned();
    line.append(to_decimal(node_pins.len() as u64 + 1).as_str());
    line.append(" pinned node(s) for ");
    line.append(root.label().as_str());
    line
}

/// The name of the log file of one add of a batch.
pub fn sub_add_log_name(name: &str, tag: &str, timestamp: &str) -> (r: String)
    ensures
        r@ == name@ + "_"@ + tag@ + "_"@ + timestamp@ + ".log"@,
{
    let mut text: String = name.to_owned();
    text.append("_");
    text.append(tag);
    text.append("_");
    text.append(timestamp);
    text.append(".log");
    text
}

/// The failure of an add of a batch whose log file could not be made.
pub fn sub_add_log_failure(why: &str) -> (r: String)
    ensures
        r@ == "Failed to create sub-add log: "@ + why@,
{
    let mut text: String = "Failed to create sub-add log: ".to_owned();
    text.append(why);
    text
}

/// A goal is taken up only where the cache could be read, and is either a root pin of
/// a node with pins that all decode, or an identity to resolve against a cache that
/// holds something. Every node pin is then materialized and every other pin encoded.
pub proof fn only_a_sound_goal_is_taken_up(
    source: ClosureSource,
    cache_is_empty: Result<bool, String>,
    cache_path: &str,
    r: ClosureStep,
)
    requires
        call_ensures(plan_closure, (source, cache_is_empty, cache_path), r),
    ensures
        r.work is Ok <==> cache_is_empty is Ok && match source {
            ClosureSource::Pinned { root, pins } => (root matches Ok(item) && item.kind
                == PinKind::Node) && forall|k: int|
                0 <= k < pins@.len() ==> (#[trigger] pins@[k]) is Ok,
            ClosureSource::ResolveRef { .. } => cache_is_empty == Ok::<bool, String>(false),
            ClosureSource::Other => false,
        },
        r.work matches Ok(work) ==> match work {
            ClosureWork::Materialize { root, node_pins, doc_pins } => (
            source matches ClosureSource::Pinned { root: given, pins } && given
                == Ok::<PinnedItem, String>(root) && forall|k: int|
                0 <= k < pins@.len() ==> ((#[trigger] pins@[k]) matches Ok(item) && if item.kind
                    == PinKind::Node {
                    node_pins@.contains(item)
                } else {
                    doc_pins@.contains(item)
                })) && (forall|k: int|
                0 <= k < node_pins@.len() ==> (#[trigger] node_pins@[k]).kind == PinKind::Node) && (
            forall|k: int|
                0 <= k < doc_pins@.len() ==> (#[trigger] doc_pins@[k]).kind != PinKind::Node),
            ClosureWork::Resolve { name, tag } => (source matches ClosureSource::ResolveRef {
                name: asked,
                tag: wanted,
            } && name == asked && tag == wanted),
        },
{
    if cache_is_empty is Ok {
        if let ClosureSource::Pinned { root: Ok(root), pins } = source {
            if root.kind == PinKind::Node {
                match r.work {
                    Ok(ClosureWork::Materialize { root: _, node_pins, doc_pins }) => {
                        let all = choose|all: Seq<PinnedItem>|
                            all.len() == pins@.len() && (forall|k: int|
                                0 <= k < all.len() ==> pins@[k] == Ok::<PinnedItem, String>(
                                    #[trigger] all[k],
                                )) && node_pins@ == #[trigger] pins_of(all, true) && doc_pins@
                                == pins_of(all, false);
                        lemma_pins_of(all, true);
                        lemma_pins_of(all, false);
                        assert forall|k: int| 0 <= k < pins@.len() implies ((
                        #[trigger] pins@[k]) matches Ok(item) && if item.kind == PinKind::Node {
                            node_pins@.contains(item)
                        } else {
                            doc_pins@.contains(item)
                        }) by {
                            let item = all[k];
                            assert(all.contains(item));
                        }
                    },
                    _ => {},
                }
            }
        }
    }
}

} // verus!
