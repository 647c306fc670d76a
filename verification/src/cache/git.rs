//! The cache of git checkouts, one for each commit of each repository.
//!
//! A commit names one tree for as long as the repository exists, so a checkout
//! that is at its commit is used as it is.
use crate::cache::key::{entry_for, entry_name};
use crate::paths::{is_same_path, join_path, joined_path, same_path};
use crate::text::{mentions, opt_text, str_eq, texts, what_is_written_is_mentioned};
use crate::time::Span;
use vstd::prelude::*;
use vstd::string::*;

verus! {

/// How many seconds a checkout that nothing names any more is kept after it was
/// last handed out.
pub const PRUNE_GRACE_SECS: u64 = 3600;

/// Where the checkout of a commit lives.
pub open spec fn checkout_path(
    checkouts_dir: Seq<char>,
    repo_url: Seq<char>,
    commit: Seq<char>,
) -> Seq<char> {
    joined_path(checkouts_dir, entry_name(repo_url, Some(commit), "repo"@))
}

/// Where the checkout of a commit lives, whether or not it is there.
pub fn checkout_dir_for(checkouts_dir: &str, repo_url: &str, commit: &str) -> (r: String)
    ensures
        r@ == checkout_path(checkouts_dir@, repo_url@, commit@),
{
    join_path(checkouts_dir, entry_for(repo_url, Some(commit), "repo").as_str())
}

/// The file whose date tells when a checkout was last handed out. It stands
/// where no copy of the node takes it along.
pub fn last_used_marker(dir: &str) -> (r: String)
    ensures
        r@ == joined_path(joined_path(dir@, ".git"@), "peppy-last-used"@),
{
    join_path(join_path(dir, ".git").as_str(), "peppy-last-used")
}

/// Whether a checkout with this date was handed out so recently that somebody
/// may still read it. A date in the future counts as recent.
pub open spec fn is_recent(used: Option<Span>, now: Span) -> bool {
    match used {
        None => false,
        Some(date) => now.nanos < date.nanos || now.nanos - date.nanos < PRUNE_GRACE_SECS
            * 1_000_000_000,
    }
}

/// Whether a checkout was handed out so recently that somebody may still read
/// it. `used` is the date of its marker, where it has one.
pub fn recently_used(used: Option<Span>, now: Span) -> (r: bool)
    ensures
        r == is_recent(used, now),
{
    match used {
        None => false,
        Some(date) => now.nanos < date.nanos || now.nanos - date.nanos < Span::from_secs(
            PRUNE_GRACE_SECS,
        ).nanos,
    }
}

/// An entry of the directory of checkouts.
pub struct CachedDir {
    pub path: String,
    pub is_dir: bool,
    /// When it was last handed out, where that is known.
    pub used: Option<Span>,
}

/// The checkouts that are still named.
pub open spec fn live_paths(checkouts_dir: Seq<char>, live: Seq<(String, String)>) -> Seq<Seq<char>> {
    live.map_values(
        |pair: (String, String)| checkout_path(checkouts_dir, pair.0@, pair.1@),
    )
}

/// Whether a path is one of these.
pub open spec fn is_named(keep: Seq<Seq<char>>, path: Seq<char>) -> bool {
    exists|k: int| 0 <= k < keep.len() && same_path(#[trigger] keep[k], path)
}

/// Whether an entry may be dropped: a directory that nothing names and nobody
/// reads.
pub open spec fn is_stale(entry: CachedDir, keep: Seq<Seq<char>>, now: Span) -> bool {
    entry.is_dir && !is_named(keep, entry.path@) && !is_recent(entry.used, now)
}

/// The stale ones of the first `n` entries, in order.
pub open spec fn stale_paths(
    entries: Seq<CachedDir>,
    keep: Seq<Seq<char>>,
    now: Span,
    n: int,
) -> Seq<Seq<char>>
    decreases n,
{
    if n <= 0 || n > entries.len() {
        Seq::empty()
    } else {
        let before = stale_paths(entries, keep, now, n - 1);
        if is_stale(entries[n - 1], keep, now) {
            before.push(entries[n - 1].path@)
        } else {
            before
        }
    }
}

/// Whether a path is one of these.
fn names(keep: &Vec<String>, path: &str) -> (r: bool)
    ensures
        r == is_named(texts(keep@), path@),
{
    let mut i: usize = 0;
    while i < keep.len()
        invariant
            i <= keep@.len(),
            forall|k: int| 0 <= k < i ==> !same_path(#[trigger] texts(keep@)[k], path@),
        decreases keep.len() - i,
    {
        proof {
            assert(texts(keep@)[i as int] == keep@[i as int]@);
        }
        if is_same_path(keep[i].as_str(), path) {
            return true;
        }
        i += 1;
    }
    false
}

/// The checkouts to drop: those that no pair of URL and commit in `live` names
/// and that were not handed out recently.
pub fn prune_checkouts(
    checkouts_dir: &str,
    entries: &Vec<CachedDir>,
    live: &Vec<(String, String)>,
    now: Span,
) -> (r: Vec<String>)
    ensures
        texts(r@) == stale_paths(
            entries@,
            live_paths(checkouts_dir@, live@),
            now,
            entries@.len() as int,
        ),
{
    let mut keep: Vec<String> = Vec::new();
    let mut i: usize = 0;
    while i < live.len()
        invariant
            i <= live@.len(),
            keep@.len() == i,
            forall|k: int|
                0 <= k < i ==> (#[trigger] keep@[k])@ == checkout_path(
                    checkouts_dir@,
                    live@[k].0@,
                    live@[k].1@,
                ),
        decreases live.len() - i,
    {
        keep.push(checkout_dir_for(checkouts_dir, live[i].0.as_str(), live[i].1.as_str()));
        i += 1;
    }
    proof {
        assert(texts(keep@) =~= live_paths(checkouts_dir@, live@));
    }
    let ghost kept = live_paths(checkouts_dir@, live@);
    let mut out: Vec<String> = Vec::new();
    let mut j: usize = 0;
    proof {
        assert(texts(out@) =~= Seq::<Seq<char>>::empty());
    }
    while j < entries.len()
        invariant
            j <= entries@.len(),
            texts(keep@) == kept,
            texts(out@) == stale_paths(entries@, kept, now, j as int),
        decreases entries.len() - j,
    {
        let entry = &entries[j];
        if entry.is_dir && !names(&keep, entry.path.as_str()) && !recently_used(
            entry.used,
            now,
        ) {
            let ghost before = texts(out@);
            out.push(entry.path.clone());
            proof {
                assert(texts(out@) =~= before.push(entry.path@));
            }
        }
        j += 1;
    }
    out
}

/// Pruning drops nothing that is named and nothing that was handed out
/// recently, and whatever else is a directory it drops.
pub proof fn pruning_spares_what_is_named_or_read(
    entries: Seq<CachedDir>,
    keep: Seq<Seq<char>>,
    now: Span,
    n: int,
    path: Seq<char>,
)
    requires
        0 <= n <= entries.len(),
    ensures
        stale_paths(entries, keep, now, n).contains(path) <==> exists|k: int|
            0 <= k < n && (#[trigger] entries[k]).path@ == path && is_stale(entries[k], keep, now),
    decreases n,
{
    if n > 0 {
        pruning_spares_what_is_named_or_read(entries, keep, now, n - 1, path);
        let before = stale_paths(entries, keep, now, n - 1);
        let all = stale_paths(entries, keep, now, n);
        let last = entries[n - 1];
        if is_stale(last, keep, now) {
            assert(all.last() == last.path@);
            assert(all.drop_last() =~= before);
            if all.contains(path) {
                let k = choose|k: int| 0 <= k < all.len() && all[k] == path;
                if k < before.len() {
                    assert(before[k] == path);
                } else {
                    assert(last.path@ == path);
                }
            }
            if before.contains(path) {
                let k = choose|k: int| 0 <= k < before.len() && before[k] == path;
                assert(all[k] == path);
            }
        }
    }
}

/// Whether a directory is a working tree at a commit. One without its `.git`
/// is what an unfinished clone leaves.
pub fn is_checked_out_at(has_git: bool, head: &Option<String>, commit: &str) -> (r: bool)
    ensures
        r == (has_git && (*head matches Some(at) && at@ == commit@)),
{
    match head {
        Some(at) => has_git && str_eq(at.as_str(), commit),
        None => false,
    }
}

/// Why a directory could not be emptied.
pub enum ClearProblem {
    Parent { path: String, why: String },
    Leftover { path: String, why: String },
}

/// The text of a `ClearProblem`.
pub fn clear_failure(problem: &ClearProblem) -> (r: String)
    ensures
        r@ == match *problem {
            ClearProblem::Parent { path, why } => "Failed to create git_checkouts parent "@ + path@
                + ": "@ + why@,
            ClearProblem::Leftover { path, why } => "Failed to remove incomplete checkout at "@
                + path@ + ": "@ + why@,
        },
{
    match problem {
        ClearProblem::Parent { path, why } => {
            let mut text: String = "Failed to create git_checkouts parent ".to_owned();
            text.append(path.as_str());
            text.append(": ");
            text.append(why.as_str());
            text
        },
        ClearProblem::Leftover { path, why } => {
            let mut text: String = "Failed to remove incomplete checkout at ".to_owned();
            text.append(path.as_str());
            text.append(": ");
            text.append(why.as_str());
            text
        },
    }
}

/// What the making of a checkout waits for.
#[derive(Clone, Copy, Debug, PartialEq, Eq, Structural)]
pub enum CheckoutPhase {
    Inspect,
    Clear,
    Clone,
    CheckOut,
    FetchHash,
    FetchRef,
    CheckOutAgain,
    Over,
}

/// What came of the step that a checkout waits for.
pub enum CheckoutEvent {
    /// Whether the directory is at the commit already.
    Inspected(bool),
    Cleared(Result<(), String>),
    Cloned(Result<(), String>),
    CheckedOut(Result<(), String>),
    /// Whether asking for the commit by its hash brought it.
    FetchedHash(bool),
    /// What came of fetching the ref, and whether the commit is here now.
    FetchedRef { result: Result<(), String>, has_commit: bool },
}

/// What a checkout does next.
pub enum CheckoutAction {
    /// Empty the directory.
    Clear,
    /// Clone shallowly.
    Clone,
    /// Check the commit out.
    CheckOut,
    /// Fetch the commit by its hash, shallowly.
    FetchHash,
    /// Fetch the whole history of this ref.
    FetchRef(String),
    /// Note the use of the directory and hand it out.
    HandOut,
    Fail(String),
}

/// What a checkout does next, and the line for the feedback before it.
pub struct CheckoutStep {
    pub line: Option<String>,
    pub action: CheckoutAction,
}

/// The making of one checkout.
pub struct CheckoutAt {
    pub dir: String,
    pub repo_url: String,
    pub repo_ref: Option<String>,
    pub commit: String,
    pub phase: CheckoutPhase,
}

/// The ref that is fetched where a commit is not served by its hash.
pub open spec fn fallback_ref(repo_ref: Option<String>) -> Seq<char> {
    match repo_ref {
        Some(name) => name@,
        None => "HEAD"@,
    }
}

/// Whether a step has this line, or none.
pub open spec fn says(step: CheckoutStep, line: Option<Seq<char>>) -> bool {
    match step.line {
        Some(told) => line == Some(told@),
        None => line is None,
    }
}

/// Whether a step is a silent failure with this text.
pub open spec fn fails(step: CheckoutStep, text: Seq<char>) -> bool {
    step.line is None && (step.action matches CheckoutAction::Fail(told) && told@ == text)
}

/// Whether an event leads a checkout from one phase to another, with this step.
pub open spec fn checkout_steps(
    before: CheckoutAt,
    event: CheckoutEvent,
    after: CheckoutAt,
    step: Option<CheckoutStep>,
) -> bool {
    &&& after == (CheckoutAt { phase: after.phase, ..before })
    &&& match (before.phase, event) {
        (CheckoutPhase::Inspect, CheckoutEvent::Inspected(there)) => step matches Some(s) && (
        if there {
            after.phase == CheckoutPhase::Over && s.action == CheckoutAction::HandOut && says(
                s,
                Some(
                    "Reusing cached checkout of "@ + before.commit@ + " at "@ + before.dir@,
                ),
            )
        } else {
            after.phase == CheckoutPhase::Clear && s.action == CheckoutAction::Clear && says(s, None)
        }),
        (CheckoutPhase::Clear, CheckoutEvent::Cleared(result)) => step matches Some(s)
            && match result {
            Err(why) => after.phase == CheckoutPhase::Over && fails(s, why@),
            Ok(_) => after.phase == CheckoutPhase::Clone && s.action == CheckoutAction::Clone
                && says(
                s,
                Some(
                    "Cloning "@ + before.repo_url@ + " at "@ + before.commit@
                        + " into cache at "@ + before.dir@,
                ),
            ),
        },
        (CheckoutPhase::Clone, CheckoutEvent::Cloned(result)) => step matches Some(s)
            && match result {
            Err(why) => after.phase == CheckoutPhase::Over && fails(s, why@),
            Ok(_) => after.phase == CheckoutPhase::CheckOut && s.action == CheckoutAction::CheckOut
                && says(s, None),
        },
        (CheckoutPhase::CheckOut, CheckoutEvent::CheckedOut(result)) => step matches Some(s)
            && match result {
            Ok(_) => after.phase == CheckoutPhase::Over && s.action == CheckoutAction::HandOut
                && says(s, None),
            Err(_) => after.phase == CheckoutPhase::FetchHash && s.action
                == CheckoutAction::FetchHash && says(
                s,
                Some(
                    "Commit "@ + before.commit@ + " is not in the shallow clone of "@
                        + before.repo_url@ + "; fetching it"@,
                ),
            ),
        },
        (CheckoutPhase::FetchHash, CheckoutEvent::FetchedHash(brought)) => step matches Some(s) && (
        if brought {
            after.phase == CheckoutPhase::CheckOutAgain && s.action == CheckoutAction::CheckOut
                && says(s, None)
        } else {
            after.phase == CheckoutPhase::FetchRef && (s.action matches CheckoutAction::FetchRef(
                name,
            ) && name@ == fallback_ref(before.repo_ref)) && says(
                s,
                Some(
                    before.repo_url@
                        + " does not serve commits by hash; fetching the full history of "@
                        + fallback_ref(before.repo_ref),
                ),
            )
        }),
        (CheckoutPhase::FetchRef, CheckoutEvent::FetchedRef { result, has_commit }) => step matches Some(
            s,
        ) && match result {
            Err(why) => after.phase == CheckoutPhase::Over && fails(
                s,
                "Failed to fetch "@ + fallback_ref(before.repo_ref) + " from "@
                    + before.repo_url@ + ": "@ + why@,
            ),
            Ok(_) => if has_commit {
                after.phase == CheckoutPhase::CheckOutAgain && s.action == CheckoutAction::CheckOut
                    && says(s, None)
            } else {
                after.phase == CheckoutPhase::Over && fails(
                    s,
                    "commit "@ + before.commit@ + " is not reachable at "@ + before.repo_url@
                        + ". The pin names bytes this remote no longer serves, which means the repository was rewritten or the commit was never pushed"@,
                )
            },
        },
        (CheckoutPhase::CheckOutAgain, CheckoutEvent::CheckedOut(result)) => step matches Some(s)
            && after.phase == CheckoutPhase::Over && match result {
            Ok(_) => s.action == CheckoutAction::HandOut && says(s, None),
            Err(why) => fails(
                s,
                "Failed to check out commit "@ + before.commit@ + " of "@ + before.repo_url@
                    + " after fetching it: "@ + why@,
            ),
        },
        _ => after.phase == before.phase && step is None,
    }
}

/// The making of a checkout at a commit, which begins with the look at what is
/// there.
pub fn ensure_checkout_at_commit(
    checkouts_dir: &str,
    repo_url: String,
    repo_ref: Option<String>,
    commit: String,
) -> (r: CheckoutAt)
    ensures
        r.dir@ == checkout_path(checkouts_dir@, repo_url@, commit@),
        r.repo_url == repo_url,
        r.repo_ref == repo_ref,
        r.commit == commit,
        r.phase == CheckoutPhase::Inspect,
{
    let dir = checkout_dir_for(checkouts_dir, repo_url.as_str(), commit.as_str());
    CheckoutAt { dir, repo_url, repo_ref, commit, phase: CheckoutPhase::Inspect }
}

impl CheckoutAt {
    /// The ref that is fetched where a commit is not served by its hash.
    fn fallback(&self) -> (r: String)
        ensures
            r@ == fallback_ref(self.repo_ref),
    {
        match &self.repo_ref {
            Some(name) => name.clone(),
            None => "HEAD".to_owned(),
        }
    }

    /// Takes what came of the last step and gives the next one; `None`, and no
    /// change, where the checkout waits for something else.
    #[verifier::rlimit(60)]
    pub fn step(&mut self, event: CheckoutEvent) -> (r: Option<CheckoutStep>)
        ensures
            checkout_steps(*old(self), event, *final(self), r),
    {
        match (self.phase, event) {
            (CheckoutPhase::Inspect, CheckoutEvent::Inspected(there)) => {
                if there {
                    let mut line: String = "Reusing cached checkout of ".to_owned();
                    line.append(self.commit.as_str());
                    line.append(" at ");
                    line.append(self.dir.as_str());
                    self.phase = CheckoutPhase::Over;
                    return Some(
                        CheckoutStep { line: Some(line), action: CheckoutAction::HandOut },
                    );
                }
                self.phase = CheckoutPhase::Clear;
                Some(CheckoutStep { line: None, action: CheckoutAction::Clear })
            },
            (CheckoutPhase::Clear, CheckoutEvent::Cleared(result)) => match result {
                Err(why) => {
                    self.phase = CheckoutPhase::Over;
                    Some(CheckoutStep { line: None, action: CheckoutAction::Fail(why) })
                },
                Ok(_) => {
                    let mut line: String = "Cloning ".to_owned();
                    line.append(self.repo_url.as_str());
                    line.append(" at ");
                    line.append(self.commit.as_str());
                    line.append(" into cache at ");
                    line.append(self.dir.as_str());
                    self.phase = CheckoutPhase::Clone;
                    Some(CheckoutStep { line: Some(line), action: CheckoutAction::Clone })
                },
            },
            (CheckoutPhase::Clone, CheckoutEvent::Cloned(result)) => match result {
                Err(why) => {
                    self.phase = CheckoutPhase::Over;
                    Some(CheckoutStep { line: None, action: CheckoutAction::Fail(why) })
                },
                Ok(_) => {
                    self.phase = CheckoutPhase::CheckOut;
                    Some(CheckoutStep { line: None, action: CheckoutAction::CheckOut })
                },
            },
            (CheckoutPhase::CheckOut, CheckoutEvent::CheckedOut(result)) => match result {
                Ok(_) => {
                    self.phase = CheckoutPhase::Over;
                    Some(CheckoutStep { line: None, action: CheckoutAction::HandOut })
                },
                Err(_) => {
                    let mut line: String = "Commit ".to_owned();
                    line.append(self.commit.as_str());
                    line.append(" is not in the shallow clone of ");
                    line.append(self.repo_url.as_str());
                    line.append("; fetching it");
                    self.phase = CheckoutPhase::FetchHash;
                    Some(CheckoutStep { line: Some(line), action: CheckoutAction::FetchHash })
                },
            },
            (CheckoutPhase::FetchHash, CheckoutEvent::FetchedHash(brought)) => {
                if brought {
                    self.phase = CheckoutPhase::CheckOutAgain;
                    return Some(CheckoutStep { line: None, action: CheckoutAction::CheckOut });
                }
                let name = self.fallback();
                let mut line: String = self.repo_url.clone();
                line.append(" does not serve commits by hash; fetching the full history of ");
                line.append(name.as_str());
                self.phase = CheckoutPhase::FetchRef;
                Some(CheckoutStep { line: Some(line), action: CheckoutAction::FetchRef(name) })
            },
            (CheckoutPhase::FetchRef, CheckoutEvent::FetchedRef { result, has_commit }) => {
                match result {
                    Err(why) => {
                        let mut text: String = "Failed to fetch ".to_owned();
                        text.append(self.fallback().as_str());
                        text.append(" from ");
                        text.append(self.repo_url.as_str());
                        text.append(": ");
                        text.append(why.as_str());
                        self.phase = CheckoutPhase::Over;
                        Some(CheckoutStep { line: None, action: CheckoutAction::Fail(text) })
                    },
                    Ok(_) => {
                        if has_commit {
                            self.phase = CheckoutPhase::CheckOutAgain;
                            return Some(
                                CheckoutStep { line: None, action: CheckoutAction::CheckOut },
                            );
                        }
                        let mut text: String = "commit ".to_owned();
                        text.append(self.commit.as_str());
                        text.append(" is not reachable at ");
                        text.append(self.repo_url.as_str());
                        text.append(
                            ". The pin names bytes this remote no longer serves, which means the repository was rewritten or the commit was never pushed",
                        );
                        self.phase = CheckoutPhase::Over;
                        Some(CheckoutStep { line: None, action: CheckoutAction::Fail(text) })
                    },
                }
            },
            (CheckoutPhase::CheckOutAgain, CheckoutEvent::CheckedOut(result)) => {
                self.phase = CheckoutPhase::Over;
                match result {
                    Ok(_) => Some(CheckoutStep { line: None, action: CheckoutAction::HandOut }),
                    Err(why) => {
                        let mut text: String = "Failed to check out commit ".to_owned();
                        text.append(self.commit.as_str());
                        text.append(" of ");
                        text.append(self.repo_url.as_str());
                        text.append(" after fetching it: ");
                        text.append(why.as_str());
                        Some(CheckoutStep { line: None, action: CheckoutAction::Fail(text) })
                    },
                }
            },
            _ => None,
        }
    }
}

/// A checkout is handed out only where the directory was at the commit already
/// or the commit was just checked out there; a tip never stands in for it.
pub proof fn a_checkout_is_at_its_commit(
    before: CheckoutAt,
    event: CheckoutEvent,
    after: CheckoutAt,
    step: Option<CheckoutStep>,
)
    requires
        checkout_steps(before, event, after, step),
        step matches Some(s) && s.action == CheckoutAction::HandOut,
    ensures
        event == CheckoutEvent::Inspected(true) || (event matches CheckoutEvent::CheckedOut(result)
            && result is Ok),
        after.phase == CheckoutPhase::Over,
{
}

/// A populated checkout is handed out without a clone or a fetch.
pub proof fn a_populated_checkout_needs_no_remote(
    before: CheckoutAt,
    after: CheckoutAt,
    step: Option<CheckoutStep>,
)
    requires
        before.phase == CheckoutPhase::Inspect,
        checkout_steps(before, CheckoutEvent::Inspected(true), after, step),
    ensures
        step matches Some(s) && s.action == CheckoutAction::HandOut,
        after.phase == CheckoutPhase::Over,
{
}

/// What the adoption of a clone waits for.
#[derive(Clone, Copy, Debug, PartialEq, Eq, Structural)]
pub enum AdoptPhase {
    /// The look at the clone's place in the cache.
    Inspect,
    Clear,
    Move,
    Over,
}

/// What came of the step that an adoption waits for.
pub enum AdoptEvent {
    /// Whether the place is at the commit already.
    Inspected(bool),
    Cleared(Result<(), String>),
    Moved(Result<(), String>),
}

/// What an adoption does next.
pub enum AdoptStep {
    /// Empty this directory.
    Clear(String),
    Move { from: String, to: String },
    /// The end: note the use of the one directory and remove the other, where there
    /// are such, and log the line.
    End { touch: Option<String>, discard: Option<String>, line: Option<String> },
}

/// A clone that somebody offers to the cache.
pub struct Adoption {
    /// Where the checkout of its commit lives.
    pub place: String,
    pub clone: String,
    pub repo_url: String,
    pub commit: String,
    pub phase: AdoptPhase,
}

/// Whether a step ends an adoption without taking the clone.
pub open spec fn keeps_out(before: Adoption, step: Option<AdoptStep>, why: Seq<char>) -> bool {
    step matches Some(AdoptStep::End { touch, discard, line }) && touch is None && opt_text(discard)
        == Some(before.clone@) && opt_text(line) == Some(
        "Keeping the clone of "@ + before.repo_url@ + " out of the checkout cache: "@ + why,
    )
}

/// How an adoption goes on.
pub open spec fn adopt_steps(
    before: Adoption,
    event: AdoptEvent,
    after: Adoption,
    step: Option<AdoptStep>,
) -> bool {
    &&& after == (Adoption { phase: after.phase, ..before })
    &&& match (before.phase, event) {
        (AdoptPhase::Inspect, AdoptEvent::Inspected(true)) => after.phase == AdoptPhase::Over && (
        step matches Some(AdoptStep::End { touch, discard, line }) && opt_text(touch) == Some(
            before.place@,
        ) && opt_text(discard) == Some(before.clone@) && line is None),
        (AdoptPhase::Inspect, AdoptEvent::Inspected(false)) => after.phase == AdoptPhase::Clear && (
        step matches Some(AdoptStep::Clear(dir)) && dir@ == before.place@),
        (AdoptPhase::Clear, AdoptEvent::Cleared(Ok(_))) => after.phase == AdoptPhase::Move && (
        step matches Some(AdoptStep::Move { from, to }) && from@ == before.clone@ && to@
            == before.place@),
        (AdoptPhase::Clear, AdoptEvent::Cleared(Err(why))) => after.phase == AdoptPhase::Over
            && keeps_out(before, step, why@),
        (AdoptPhase::Move, AdoptEvent::Moved(Ok(_))) => after.phase == AdoptPhase::Over && (
        step matches Some(AdoptStep::End { touch, discard, line }) && opt_text(touch) == Some(
            before.place@,
        ) && discard is None && opt_text(line) == Some(
            "Adopted the clone of "@ + before.repo_url@ + " at "@ + before.commit@ + " as "@
                + before.place@,
        )),
        (AdoptPhase::Move, AdoptEvent::Moved(Err(why))) => after.phase == AdoptPhase::Over
            && keeps_out(before, step, why@),
        _ => after.phase == before.phase && step is None,
    }
}

/// The adoption of a clone, whose directory is handed over for good. It begins
/// with the look at the clone's place in the cache.
pub fn adopt_checkout(
    checkouts_dir: &str,
    repo_url: String,
    commit: String,
    clone: String,
) -> (r: Adoption)
    ensures
        r.place@ == checkout_path(checkouts_dir@, repo_url@, commit@),
        r.clone == clone,
        r.repo_url == repo_url,
        r.commit == commit,
        r.phase == AdoptPhase::Inspect,
{
    let place = checkout_dir_for(checkouts_dir, repo_url.as_str(), commit.as_str());
    Adoption { place, clone, repo_url, commit, phase: AdoptPhase::Inspect }
}

impl Adoption {
    /// Ends without taking the clone.
    fn keep_out(&mut self, why: &str) -> (r: Option<AdoptStep>)
        ensures
            *final(self) == (Adoption { phase: AdoptPhase::Over, ..*old(self) }),
            keeps_out(*old(self), r, why@),
    {
        let mut line: String = "Keeping the clone of ".to_owned();
        line.append(self.repo_url.as_str());
        line.append(" out of the checkout cache: ");
        line.append(why);
        self.phase = AdoptPhase::Over;
        Some(
            AdoptStep::End { touch: None, discard: Some(self.clone.clone()), line: Some(line) },
        )
    }

    /// Takes what came of the last step and gives the next one; `None`, and no
    /// change, where the adoption waits for something else.
    pub fn step(&mut self, event: AdoptEvent) -> (r: Option<AdoptStep>)
        ensures
            adopt_steps(*old(self), event, *final(self), r),
    {
        match (self.phase, event) {
            (AdoptPhase::Inspect, AdoptEvent::Inspected(true)) => {
                self.phase = AdoptPhase::Over;
                Some(
                    AdoptStep::End {
                        touch: Some(self.place.clone()),
                        discard: Some(self.clone.clone()),
                        line: None,
                    },
                )
            },
            (AdoptPhase::Inspect, AdoptEvent::Inspected(false)) => {
                self.phase = AdoptPhase::Clear;
                Some(AdoptStep::Clear(self.place.clone()))
            },
            (AdoptPhase::Clear, AdoptEvent::Cleared(Ok(_))) => {
                self.phase = AdoptPhase::Move;
                Some(AdoptStep::Move { from: self.clone.clone(), to: self.place.clone() })
            },
            (AdoptPhase::Clear, AdoptEvent::Cleared(Err(why))) => self.keep_out(why.as_str()),
            (AdoptPhase::Move, AdoptEvent::Moved(Ok(_))) => {
                let mut line: String = "Adopted the clone of ".to_owned();
                line.append(self.repo_url.as_str());
                line.append(" at ");
                line.append(self.commit.as_str());
                line.append(" as ");
                line.append(self.place.as_str());
                self.phase = AdoptPhase::Over;
                Some(
                    AdoptStep::End {
                        touch: Some(self.place.clone()),
                        discard: None,
                        line: Some(line),
                    },
                )
            },
            (AdoptPhase::Move, AdoptEvent::Moved(Err(why))) => self.keep_out(why.as_str()),
            _ => None,
        }
    }
}

/// What is logged about a clone that could not be removed.
pub fn discard_warning(dir: &str, why: &str) -> (r: String)
    ensures
        r@ == "Failed to remove the clone at "@ + dir@ + ": "@ + why@,
{
    let mut text: String = "Failed to remove the clone at ".to_owned();
    text.append(dir);
    text.append(": ");
    text.append(why);
    text
}

/// A place that is at its commit is never emptied, nothing is moved into a place
/// that was not emptied, and a clone that was not moved there is removed.
pub proof fn a_donation_spares_what_is_there(
    before: Adoption,
    event: AdoptEvent,
    after: Adoption,
    step: Option<AdoptStep>,
)
    requires
        adopt_steps(before, event, after, step),
    ensures
        step matches Some(AdoptStep::Clear(_)) ==> event == AdoptEvent::Inspected(false),
        step matches Some(AdoptStep::Move { .. }) ==> (event matches AdoptEvent::Cleared(Ok(_))),
        step matches Some(AdoptStep::End { discard, .. }) ==> (discard is None <==> (
        event matches AdoptEvent::Moved(Ok(_)))),
        before.phase != AdoptPhase::Over && after.phase == AdoptPhase::Over ==> (step matches Some(
            AdoptStep::End { .. },
        )),
{
}

/// A call of `step` leads a checkout as `checkout_steps` says.
pub proof fn a_call_steps_the_checkout(
    run: &mut CheckoutAt,
    event: CheckoutEvent,
    r: Option<CheckoutStep>,
)
    requires
        call_ensures(CheckoutAt::step, (run, event), r),
    ensures
        checkout_steps(*old(run), event, *final(run), r),
{
}

/// Why an event ends a checkout, where it does.
pub open spec fn checkout_trouble(run: CheckoutAt, event: CheckoutEvent) -> Option<Seq<char>> {
    match (run.phase, event) {
        (CheckoutPhase::Clear, CheckoutEvent::Cleared(Err(why))) => Some(why@),
        (CheckoutPhase::Clone, CheckoutEvent::Cloned(Err(why))) => Some(why@),
        (CheckoutPhase::FetchRef, CheckoutEvent::FetchedRef { result: Err(why), .. }) => Some(why@),
        (CheckoutPhase::FetchRef, CheckoutEvent::FetchedRef { result: Ok(_), has_commit }) => if has_commit {
            None
        } else {
            Some(run.commit@)
        },
        (CheckoutPhase::CheckOutAgain, CheckoutEvent::CheckedOut(Err(why))) => Some(why@),
        _ => None,
    }
}

/// Whatever goes wrong with a checkout for good ends it, with a failure that says what
/// went wrong: the error, or the commit that the remote does not have.
pub proof fn trouble_ends_a_checkout(
    before: CheckoutAt,
    event: CheckoutEvent,
    after: CheckoutAt,
    step: Option<CheckoutStep>,
)
    requires
        checkout_steps(before, event, after, step),
        checkout_trouble(before, event) is Some,
    ensures
        after.phase == CheckoutPhase::Over,
        step matches Some(s) && (s.action matches CheckoutAction::Fail(text) && mentions(
            text@,
            checkout_trouble(before, event)->0,
        )),
{
    let why = checkout_trouble(before, event)->0;
    let url = before.repo_url@;
    what_is_written_is_mentioned(
        "Failed to fetch "@ + fallback_ref(before.repo_ref) + " from "@ + url + ": "@,
        why,
        ""@,
    );
    let rest = " is not reachable at "@ + url
        + ". The pin names bytes this remote no longer serves, which means the repository was rewritten or the commit was never pushed"@;
    what_is_written_is_mentioned("commit "@, before.commit@, rest);
    assert("commit "@ + before.commit@ + " is not reachable at "@ + url
        + ". The pin names bytes this remote no longer serves, which means the repository was rewritten or the commit was never pushed"@
        =~= "commit "@ + before.commit@ + rest);
    what_is_written_is_mentioned(
        "Failed to check out commit "@ + before.commit@ + " of "@ + url
            + " after fetching it: "@,
        why,
        ""@,
    );
}

/// A checkout is handed out only where the directory is at the commit: it was found
/// there, or was checked out. Before it is given up, the commit is asked for by its
/// hash, and failing that in the whole history of its ref.
pub proof fn only_a_checkout_at_its_commit_is_handed_out(
    before: CheckoutAt,
    event: CheckoutEvent,
    after: CheckoutAt,
    step: Option<CheckoutStep>,
)
    requires
        checkout_steps(before, event, after, step),
        checkout_trouble(before, event) is None,
    ensures
        after.dir == before.dir && after.commit == before.commit && after.repo_url
            == before.repo_url && after.repo_ref == before.repo_ref,
        step matches Some(s) ==> (s.action == CheckoutAction::HandOut ==> after.phase
            == CheckoutPhase::Over && (event == CheckoutEvent::Inspected(true) || (
        event matches CheckoutEvent::CheckedOut(Ok(_))))),
        before.phase == CheckoutPhase::Inspect && event == CheckoutEvent::Inspected(true) ==> (
        step matches Some(s) && s.action == CheckoutAction::HandOut),
        before.phase == CheckoutPhase::Inspect && event == CheckoutEvent::Inspected(false) ==> (
        step matches Some(s) && s.action == CheckoutAction::Clear) && after.phase
            == CheckoutPhase::Clear,
        before.phase == CheckoutPhase::Clear && event is Cleared ==> (step matches Some(s)
            && s.action == CheckoutAction::Clone) && after.phase == CheckoutPhase::Clone,
        before.phase == CheckoutPhase::Clone && event is Cloned ==> (step matches Some(s)
            && s.action == CheckoutAction::CheckOut) && after.phase == CheckoutPhase::CheckOut,
        before.phase == CheckoutPhase::CheckOut && (event matches CheckoutEvent::CheckedOut(Err(_)))
            ==> (step matches Some(s) && s.action == CheckoutAction::FetchHash) && after.phase
            == CheckoutPhase::FetchHash,
        (before.phase == CheckoutPhase::CheckOut || before.phase == CheckoutPhase::CheckOutAgain)
            && (event matches CheckoutEvent::CheckedOut(Ok(_))) ==> (step matches Some(s)
            && s.action == CheckoutAction::HandOut),
        before.phase == CheckoutPhase::FetchHash && event == CheckoutEvent::FetchedHash(false) ==> (
        step matches Some(s) && (s.action matches CheckoutAction::FetchRef(name) && (
        before.repo_ref matches Some(wanted) ==> name@ == wanted@) && (before.repo_ref is None
            ==> name@ == "HEAD"@))) && after.phase == CheckoutPhase::FetchRef,
        (before.phase == CheckoutPhase::FetchHash && event == CheckoutEvent::FetchedHash(true)) || (
        before.phase == CheckoutPhase::FetchRef && event is FetchedRef) ==> (step matches Some(s)
            && s.action == CheckoutAction::CheckOut) && after.phase
            == CheckoutPhase::CheckOutAgain,
        before.phase == CheckoutPhase::Over ==> after.phase == before.phase && step is None,
{
}

/// A checkout counts as recent for an hour after it was handed out, and where the date
/// is still to come; one that was never handed out does not.
pub proof fn a_checkout_is_recent_for_an_hour(used: Option<Span>, now: Span, r: bool)
    requires
        call_ensures(recently_used, (used, now), r),
    ensures
        r <==> (used matches Some(date) && now.nanos < date.nanos + 3_600_000_000_000),
{
}

/// A path is pruned exactly where it is that of a directory that was not handed out in
/// the last hour, and no live pair of URL and commit has its checkout there.
pub proof fn pruning_drops_what_nobody_names_or_reads(
    checkouts_dir: &str,
    entries: Vec<CachedDir>,
    live: Vec<(String, String)>,
    now: Span,
    r: Vec<String>,
    path: Seq<char>,
)
    requires
        call_ensures(prune_checkouts, (checkouts_dir, &entries, &live, now), r),
    ensures
        texts(r@).contains(path) <==> exists|k: int|
            0 <= k < entries@.len() && (#[trigger] entries@[k]).path@ == path && entries@[k].is_dir
                && !(entries@[k].used matches Some(date) && now.nanos < date.nanos
                + 3_600_000_000_000) && forall|j: int|
                0 <= j < live@.len() ==> !same_path(
                    checkout_path(
                        checkouts_dir@,
                        (#[trigger] live@[j]).0@,
                        live@[j].1@,
                    ),
                    path,
                ),
{
    let keep = live_paths(checkouts_dir@, live@);
    pruning_spares_what_is_named_or_read(
        entries@,
        keep,
        now,
        entries@.len() as int,
        path,
    );
    assert(is_named(keep, path) <==> exists|j: int|
        0 <= j < live@.len() && same_path(
            checkout_path(checkouts_dir@, (#[trigger] live@[j]).0@, live@[j].1@),
            path,
        )) by {
        if is_named(keep, path) {
            let k = choose|k: int| 0 <= k < keep.len() && same_path(#[trigger] keep[k], path);
            let pair = live@[k];
            assert(keep[k] == checkout_path(checkouts_dir@, pair.0@, pair.1@));
        }
        if exists|j: int|
            0 <= j < live@.len() && same_path(
                checkout_path(checkouts_dir@, (#[trigger] live@[j]).0@, live@[j].1@),
                path,
            ) {
            let j = choose|j: int|
                0 <= j < live@.len() && same_path(
                    checkout_path(checkouts_dir@, (#[trigger] live@[j]).0@, live@[j].1@),
                    path,
                );
            assert(keep[j] == checkout_path(checkouts_dir@, live@[j].0@, live@[j].1@));
        }
    }
}

/// The checkout of a commit lives in the directory of checkouts, under a name that its
/// URL and its commit make.
pub proof fn a_checkout_lives_under_its_commit(
    checkouts_dir: &str,
    repo_url: String,
    repo_ref: Option<String>,
    commit: String,
    r: CheckoutAt,
)
    requires
        call_ensures(ensure_checkout_at_commit, (checkouts_dir, repo_url, repo_ref, commit), r),
    ensures
        r.dir@ == joined_path(checkouts_dir@, entry_name(repo_url@, Some(commit@), "repo"@)),
        r.commit == commit && r.repo_url == repo_url && r.repo_ref == repo_ref,
        r.phase == CheckoutPhase::Inspect,
{
}

} // verus!
