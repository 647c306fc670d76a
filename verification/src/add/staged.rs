//! Work on the copy of a node's sources, on a thread of its own.
//!
//! The copy belongs to the add and to the work; whoever lets go of it last
//! removes it. Work whose add is gone before it begins is skipped.
use crate::common::{panic_message, panic_text, PanicPayload};
use crate::text::{mentions, what_is_written_is_mentioned};
use vstd::prelude::*;
use vstd::string::*;

verus! {

/// How staged work ended.
pub enum WorkEnd {
    Done(Result<(), String>),
    Panicked(PanicPayload),
}

/// The text about work that panicked.
fn panicked(node_label: &str, payload: &PanicPayload) -> (r: String)
    ensures
        r@ == "staged work for "@ + node_label@ + " panicked: "@ + panic_text(*payload),
{
    let mut text: String = "staged work for ".to_owned();
    text.append(node_label);
    text.append(" panicked: ");
    text.append(panic_message(payload).as_str());
    text
}

/// Whether staged work is begun: not where its add is gone.
pub fn begin_work(node_label: &str, cancelled: bool) -> (r: Result<(), String>)
    ensures
        match r {
            Ok(_) => !cancelled,
            Err(text) => cancelled && text@ == "staged work for "@ + node_label@
                + " skipped: its add was dropped before the work started"@,
        },
{
    if cancelled {
        let mut text: String = "staged work for ".to_owned();
        text.append(node_label);
        text.append(" skipped: its add was dropped before the work started");
        return Err(text);
    }
    Ok(())
}

/// What staged work comes to: its own error as it is, and a panic as an error
/// that names the node and the panic.
pub fn finish_work(node_label: &str, end: WorkEnd) -> (r: Result<(), String>)
    ensures
        match end {
            WorkEnd::Done(Ok(_)) => r is Ok,
            WorkEnd::Done(Err(why)) => r matches Err(text) && text@ == why@,
            WorkEnd::Panicked(payload) => r matches Err(text) && text@ == "staged work for "@
                + node_label@ + " panicked: "@ + panic_text(payload),
        },
{
    match end {
        WorkEnd::Done(result) => result,
        WorkEnd::Panicked(payload) => Err(panicked(node_label, &payload)),
    }
}

/// What is said where the pool did not run the work.
pub fn describe_join_error(node_label: &str, panic: &Option<PanicPayload>) -> (r: String)
    ensures
        r@ == match *panic {
            Some(payload) => "staged work for "@ + node_label@ + " panicked: "@ + panic_text(
                payload,
            ),
            None => "staged work for "@ + node_label@
                + " was cancelled by the runtime before it ran"@,
        },
{
    match panic {
        Some(payload) => panicked(node_label, payload),
        None => {
            let mut text: String = "staged work for ".to_owned();
            text.append(node_label);
            text.append(" was cancelled by the runtime before it ran");
            text
        },
    }
}

/// The owners of a staging directory.
pub struct StagingOwners {
    pub add: bool,
    pub job: bool,
}

impl StagingOwners {
    /// A directory that the add owns alone.
    pub fn new() -> (r: Self)
        ensures
            r.add && !r.job,
    {
        StagingOwners { add: true, job: false }
    }

    /// Whether somebody owns the directory still.
    pub open spec fn is_owned(self) -> bool {
        self.add || self.job
    }

    /// The job takes its share; only while the add has its own to share.
    pub fn share(&mut self)
        requires
            old(self).add,
        ensures
            final(self).add && final(self).job,
    {
        self.job = true;
    }

    /// The add lets go; whether the directory is removed now.
    pub fn add_done(&mut self) -> (removed: bool)
        ensures
            !final(self).add,
            final(self).job == old(self).job,
            removed == (old(self).add && !old(self).job),
    {
        let removed: bool = self.add && !self.job;
        self.add = false;
        removed
    }

    /// The job lets go; whether the directory is removed now.
    pub fn job_done(&mut self) -> (removed: bool)
        ensures
            !final(self).job,
            final(self).add == old(self).add,
            removed == (old(self).job && !old(self).add),
    {
        let removed: bool = self.job && !self.add;
        self.job = false;
        removed
    }
}

/// The directory is removed exactly once, by whoever lets go last, in whichever
/// order add and job do.
pub proof fn the_last_owner_removes_the_directory(
    shared: StagingOwners,
    first: StagingOwners,
    second: StagingOwners,
    removed_first: bool,
    removed_second: bool,
    add_goes_first: bool,
)
    requires
        shared.add && shared.job,
        if add_goes_first {
            &&& !first.add && first.job == shared.job && removed_first == (shared.add
                && !shared.job)
            &&& !second.job && second.add == first.add && removed_second == (first.job
                && !first.add)
        } else {
            &&& !first.job && first.add == shared.add && removed_first == (shared.job
                && !shared.add)
            &&& !second.add && second.job == first.job && removed_second == (first.add
                && !first.job)
        },
    ensures
        !removed_first,
        removed_second,
        first.is_owned(),
        !second.is_owned(),
{
}

/// Work is begun exactly where its add is still there, and the refusal names the node.
pub proof fn only_wanted_work_is_begun(node_label: &str, cancelled: bool, r: Result<(), String>)
    requires
        call_ensures(begin_work, (node_label, cancelled), r),
    ensures
        r is Ok <==> !cancelled,
        r matches Err(text) ==> mentions(text@, node_label@),
{
    what_is_written_is_mentioned(
        "staged work for "@,
        node_label@,
        " skipped: its add was dropped before the work started"@,
    );
}

/// Work comes to a success only where it was done without an error; an error is kept as
/// it is, and a panic is an error that says what the work panicked with.
pub proof fn only_done_work_is_a_success(node_label: &str, end: WorkEnd, r: Result<(), String>)
    requires
        call_ensures(finish_work, (node_label, end), r),
    ensures
        r is Ok <==> (end matches WorkEnd::Done(result) && result is Ok),
        r matches Err(text) ==> match end {
            WorkEnd::Done(result) => result matches Err(why) && text@ == why@,
            WorkEnd::Panicked(payload) => mentions(text@, panic_text(payload)) && mentions(
                text@,
                node_label@,
            ),
        },
{
    if let WorkEnd::Panicked(payload) = end {
        let told = panic_text(payload);
        what_is_written_is_mentioned("staged work for "@ + node_label@ + " panicked: "@, told, ""@);
        what_is_written_is_mentioned("staged work for "@, node_label@, " panicked: "@ + told);
        assert("staged work for "@ + node_label@ + " panicked: "@ + told =~= "staged work for "@
            + node_label@ + (" panicked: "@ + told));
    }
}

} // verus!
