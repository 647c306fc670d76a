//! Building a node from the input that its add left pending.
use crate::sync::{label, label_text};
use crate::text::{mentions, what_is_written_is_mentioned};
use vstd::prelude::*;
use vstd::string::*;

verus! {

/// What the stack says about a node that is to be built from pending input.
pub struct PendingNode {
    pub has_input: bool,
    pub stage: String,
}

/// Why a node cannot be built, where it cannot.
pub open spec fn pending_refusal(
    name: Seq<char>,
    tag: Seq<char>,
    found: Option<PendingNode>,
) -> Option<Seq<char>> {
    match found {
        None => Some(
            "node "@ + label_text(name, tag)
                + " is not in the node stack — run `peppy node add` first"@,
        ),
        Some(node) => if node.has_input {
            None
        } else {
            Some(
                "node "@ + label_text(name, tag)
                    + " has no pending build input — current stage is "@ + node.stage@,
            )
        },
    }
}

/// Refuses a node that is not in the stack or left no input.
pub fn check_pending(name: &str, tag: &str, found: &Option<PendingNode>) -> (r: Result<(), String>)
    ensures
        match r {
            Ok(_) => pending_refusal(name@, tag@, *found) is None,
            Err(text) => pending_refusal(name@, tag@, *found) == Some(text@),
        },
{
    match found {
        None => {
            let mut text: String = "node ".to_owned();
            text.append(label(name, tag).as_str());
            text.append(" is not in the node stack — run `peppy node add` first");
            Err(text)
        },
        Some(node) => {
            if node.has_input {
                return Ok(());
            }
            let mut text: String = "node ".to_owned();
            text.append(label(name, tag).as_str());
            text.append(" has no pending build input — current stage is ");
            text.append(node.stage.as_str());
            Err(text)
        },
    }
}

/// How a build from pending input came out.
pub enum PendingBuild {
    /// The node could not be built at all.
    Refused(String),
    /// The build ran.
    Built(Result<String, String>),
    /// The task panicked while it built.
    Panicked(String),
}

/// What is reported of a build from pending input.
pub enum PendingReport {
    Success(String),
    /// The text goes to the log and the report; the node is taken out of the
    /// stack first where `remove` says so.
    Failure { remove: bool, text: String },
}

/// What is reported of a build. A build that was begun and failed, by its own
/// error or by a panic, takes its node out of the stack, so that the node can be
/// added again. A node that could not be built at all stays as it is.
pub fn report_build(outcome: PendingBuild) -> (r: PendingReport)
    ensures
        match (outcome, r) {
            (PendingBuild::Refused(why), PendingReport::Failure { remove, text }) => !remove && text@
                == why@,
            (PendingBuild::Built(Ok(path)), PendingReport::Success(built)) => built@ == path@,
            (PendingBuild::Built(Err(why)), PendingReport::Failure { remove, text }) => remove
                && text@ == "Failed to build node: "@ + why@,
            (PendingBuild::Panicked(why), PendingReport::Failure { remove, text }) => remove
                && text@ == "node_build task panicked: "@ + why@,
            _ => false,
        },
{
    match outcome {
        PendingBuild::Refused(text) => PendingReport::Failure { remove: false, text },
        PendingBuild::Built(result) => match result {
            Ok(path) => PendingReport::Success(path),
            Err(why) => {
                let mut text: String = "Failed to build node: ".to_owned();
                text.append(why.as_str());
                PendingReport::Failure { remove: true, text }
            },
        },
        PendingBuild::Panicked(why) => {
            let mut text: String = "node_build task panicked: ".to_owned();
            text.append(why.as_str());
            PendingReport::Failure { remove: true, text }
        },
    }
}

/// A node is built from pending input only where the stack holds it with some; the
/// refusal names the node, and the stage of one that has none.
pub proof fn only_pending_input_is_built(
    name: &str,
    tag: &str,
    found: Option<PendingNode>,
    r: Result<(), String>,
)
    requires
        call_ensures(check_pending, (name, tag, &found), r),
    ensures
        r is Ok <==> (found matches Some(node) && node.has_input),
        r matches Err(text) ==> mentions(text@, name@ + ":"@ + tag@),
        r matches Err(text) ==> (found matches Some(node) ==> mentions(text@, node.stage@)),
{
    let label = label_text(name@, tag@);
    match found {
        None => {
            what_is_written_is_mentioned(
                "node "@,
                label,
                " is not in the node stack — run `peppy node add` first"@,
            );
        },
        Some(node) => {
            let told = " has no pending build input — current stage is "@;
            what_is_written_is_mentioned("node "@, label, told + node.stage@);
            assert("node "@ + label + told + node.stage@ =~= "node "@ + label + (told
                + node.stage@));
            what_is_written_is_mentioned("node "@ + label + told, node.stage@, ""@);
        },
    }
}

/// Only a build that came to something is a success, with the path that it came to.
/// Every other outcome is a failure that says why, and takes the node out exactly
/// where its build was begun.
pub proof fn a_begun_build_that_fails_takes_its_node_out(outcome: PendingBuild, r: PendingReport)
    requires
        call_ensures(report_build, (outcome,), r),
    ensures
        r is Success <==> (outcome matches PendingBuild::Built(result) && result is Ok),
        r matches PendingReport::Success(path) ==> (outcome matches PendingBuild::Built(Ok(built))
            && path@ == built@),
        r matches PendingReport::Failure { remove, text } ==> (remove <==> !(outcome is Refused))
            && match outcome {
            PendingBuild::Refused(why) => mentions(text@, why@),
            PendingBuild::Built(result) => result matches Err(why) && mentions(text@, why@),
            PendingBuild::Panicked(why) => mentions(text@, why@),
        },
{
    match outcome {
        PendingBuild::Refused(why) => {
            what_is_written_is_mentioned(Seq::empty(), why@, Seq::empty());
            assert(Seq::<char>::empty() + why@ + Seq::<char>::empty() =~= why@);
        },
        PendingBuild::Built(Err(why)) => {
            what_is_written_is_mentioned("Failed to build node: "@, why@, ""@);
        },
        PendingBuild::Panicked(why) => {
            what_is_written_is_mentioned("node_build task panicked: "@, why@, ""@);
        },
        _ => {},
    }
}

} // verus!
