//! From a cache entry to the directory that a node is built from.
use crate::paths::{parent, parent_path};
use crate::sync::{label, label_text};
use crate::text::{mentions, what_is_written_is_mentioned};
use vstd::prelude::*;
use vstd::string::*;

verus! {

/// Where the lines about a materialization go.
pub struct MaterializeFeedback {
    /// Whether lines are kept at all.
    pub audible: bool,
    pub lines: Vec<String>,
}

/// A sink that keeps nothing, for callers without a stream of their own.
pub fn silent_feedback() -> (r: MaterializeFeedback)
    ensures
        !r.audible,
        r.lines@.len() == 0,
{
    MaterializeFeedback { audible: false, lines: Vec::new() }
}

impl MaterializeFeedback {
    /// Takes a line.
    pub fn emit(&mut self, line: String)
        ensures
            final(self).audible == old(self).audible,
            final(self).lines@ == (if old(self).audible {
                old(self).lines@.push(line)
            } else {
                old(self).lines@
            }),
    {
        if self.audible {
            self.lines.push(line);
        }
    }
}

/// How far a materialization got.
pub enum Materialized {
    /// The blocking task did not come back.
    TaskFailed(String),
    /// The entry's file could not be brought here.
    Unresolved(String),
    /// The entry's file is here; what parsing it came to.
    Resolved { manifest_path: String, parsed: Result<(), String> },
}

/// The root directory of a materialized entry, or why there is none.
pub fn root_of_entry(name: &str, tag: &str, outcome: &Materialized) -> (r: Result<String, String>)
    ensures
        match *outcome {
            Materialized::TaskFailed(why) => r matches Err(text) && text@
                == "materialization task for `"@ + label_text(name@, tag@) + "` failed: "@ + why@,
            Materialized::Unresolved(why) => r matches Err(text) && text@ == "node `"@ + label_text(
                name@,
                tag@,
            ) + "`: "@ + why@,
            Materialized::Resolved { manifest_path, parsed } => match parent_path(
                manifest_path@,
            ) {
                None => r matches Err(text) && text@ == "node `"@ + label_text(name@, tag@)
                    + "` resolved to "@ + manifest_path@ + ", which has no parent directory"@,
                Some(dir) => match parsed {
                    Ok(_) => r matches Ok(root) && root@ == dir,
                    Err(why) => r matches Err(text) && text@ == "Failed to parse node config at "@
                        + manifest_path@ + ": "@ + why@,
                },
            },
        },
{
    match outcome {
        Materialized::TaskFailed(why) => {
            let mut text: String = "materialization task for `".to_owned();
            text.append(label(name, tag).as_str());
            text.append("` failed: ");
            text.append(why.as_str());
            Err(text)
        },
        Materialized::Unresolved(why) => {
            let mut text: String = "node `".to_owned();
            text.append(label(name, tag).as_str());
            text.append("`: ");
            text.append(why.as_str());
            Err(text)
        },
        Materialized::Resolved { manifest_path, parsed } => {
            match parent(manifest_path.as_str()) {
                None => {
                    let mut text: String = "node `".to_owned();
                    text.append(label(name, tag).as_str());
                    text.append("` resolved to ");
                    text.append(manifest_path.as_str());
                    text.append(", which has no parent directory");
                    Err(text)
                },
                Some(dir) => match parsed {
                    Ok(_) => Ok(dir),
                    Err(why) => Err(parse_failure(manifest_path.as_str(), why.as_str())),
                },
            }
        },
    }
}

/// The failure of a node's configuration that does not parse.
pub fn parse_failure(config_path: &str, why: &str) -> (r: String)
    ensures
        r@ == "Failed to parse node config at "@ + config_path@ + ": "@ + why@,
{
    let mut text: String = "Failed to parse node config at ".to_owned();
    text.append(config_path);
    text.append(": ");
    text.append(why);
    text
}

/// A root is given only for an entry whose file is here and parses, and it is the
/// directory of that file. Everything else is refused, with the reason.
pub proof fn only_a_parsed_entry_has_a_root(
    name: &str,
    tag: &str,
    outcome: Materialized,
    r: Result<String, String>,
)
    requires
        call_ensures(root_of_entry, (name, tag, &outcome), r),
    ensures
        r is Ok <==> (outcome matches Materialized::Resolved { manifest_path, parsed } && parsed is Ok
            && parent_path(manifest_path@) is Some),
        r matches Ok(root) ==> (outcome matches Materialized::Resolved { manifest_path, .. }
            && parent_path(manifest_path@) == Some(root@)),
        r matches Err(text) ==> match outcome {
            Materialized::TaskFailed(why) => mentions(text@, why@) && mentions(
                text@,
                name@ + ":"@ + tag@,
            ),
            Materialized::Unresolved(why) => mentions(text@, why@) && mentions(
                text@,
                name@ + ":"@ + tag@,
            ),
            Materialized::Resolved { manifest_path, parsed } => mentions(text@, manifest_path@) && (
            parent_path(manifest_path@) is Some ==> (parsed matches Err(why) && mentions(
                text@,
                why@,
            ))),
        },
{
    let label = label_text(name@, tag@);
    match outcome {
        Materialized::TaskFailed(why) => {
            let head = "materialization task for `"@;
            what_is_written_is_mentioned(head + label + "` failed: "@, why@, ""@);
            what_is_written_is_mentioned(head, label, "` failed: "@ + why@);
            assert(head + label + "` failed: "@ + why@ =~= head + label + ("` failed: "@ + why@));
        },
        Materialized::Unresolved(why) => {
            what_is_written_is_mentioned("node `"@ + label + "`: "@, why@, ""@);
            what_is_written_is_mentioned("node `"@, label, "`: "@ + why@);
            assert("node `"@ + label + "`: "@ + why@ =~= "node `"@ + label + ("`: "@ + why@));
        },
        Materialized::Resolved { manifest_path, parsed } => {
            what_is_written_is_mentioned(
                "node `"@ + label + "` resolved to "@,
                manifest_path@,
                ", which has no parent directory"@,
            );
            if let Err(why) = parsed {
                let head = "Failed to parse node config at "@;
                what_is_written_is_mentioned(head + manifest_path@ + ": "@, why@, ""@);
                what_is_written_is_mentioned(head, manifest_path@, ": "@ + why@);
                assert(head + manifest_path@ + ": "@ + why@ =~= head + manifest_path@ + (": "@
                    + why@));
            }
        },
    }
}

} // verus!
