//! Making sure that an extracted archive is in the cache, step by step.
use super::{
    bundle_failure, cached_node_root, extract_dir_for, extract_path, is_current, marker_path,
    reuse_line, BundleProblem, CachedBundle,
};
use crate::archive::SourceUrl;
use crate::cache::key::entry_name;
use crate::paths::{extended_path, joined_path, parent, parent_path};
use crate::text::{
    copy_opt, mentions, opt_str, opt_text, trimmed, what_is_written_is_mentioned,
};
use vstd::prelude::*;
use vstd::string::*;

verus! {

/// What a bundle waits for.
#[derive(Clone, Copy, Debug, PartialEq, Eq, Structural)]
pub enum BundlePhase {
    /// The look at the entry, under its lock.
    Check,
    /// The removal of an entry of another checksum.
    DropStale,
    /// The directory that entries are in.
    Parent,
    Download,
    /// The removal of what is in the way.
    Clear,
    /// The directory that entries are in, again: the lock was let go of.
    ParentAgain,
    /// The move of what was extracted to the entry's place.
    Promote,
    /// The removal of what is left of the download.
    DropDownload,
    Mark,
    /// The node's directory in the entry.
    Locate,
    Over,
}

/// What was downloaded and extracted.
pub struct Extracted {
    pub source_path: String,
    /// What is removed once the extracted directory has been moved away.
    pub cleanup_dir: Option<String>,
}

/// What came of the step that a bundle waits for.
pub enum BundleEvent {
    /// Whether the entry is there, its marker's content, and the node's directory
    /// in it.
    Checked { present: bool, marker: Option<String>, located: Option<String> },
    /// The task that was to do the step ended early.
    TaskFailed(String),
    StaleDropped,
    ParentMade(Result<(), String>),
    Downloaded(Result<Extracted, String>),
    Cleared,
    Promoted(Result<(), String>),
    DownloadDropped,
    Marked(Result<(), String>),
    Located(Result<String, String>),
}

/// What a bundle does next.
pub enum BundleStep {
    /// Remove this entry and its marker; that it fails does not matter.
    DropStale { dir: String, marker: String },
    MakeParent(String),
    /// Download and extract the archive at this URL; it must have this checksum,
    /// where there is one.
    Download { url: SourceUrl, sha256: Option<String> },
    /// Remove this directory; that it fails does not matter.
    Clear(String),
    Promote { from: String, to: String },
    /// Remove this directory; that it fails does not matter.
    DropDownload(String),
    /// Write the checksum into this file.
    Mark { path: String, content: String },
    Locate(String),
    /// Reuse the entry, announced by this line.
    Reuse { root: String, announced: String },
    Done(String),
    Fail(String),
}

/// One archive that is to be in the cache.
pub struct EnsureBundle {
    pub url: SourceUrl,
    pub target: String,
    pub sha256: Option<String>,
    pub phase: BundlePhase,
    pub extracted: Option<Extracted>,
}

/// Whether a step is a failure with this text.
pub open spec fn fails(after: BundlePhase, step: Option<BundleStep>, text: Seq<char>) -> bool {
    after == BundlePhase::Over && (step matches Some(BundleStep::Fail(told)) && told@ == text)
}

/// Whether a step makes the directory that entries are in, or goes on where the
/// target has none.
pub open spec fn makes_parent(
    run: EnsureBundle,
    after: BundlePhase,
    step: Option<BundleStep>,
    again: bool,
) -> bool {
    match parent_path(run.target@) {
        Some(above) => after == (if again {
            BundlePhase::ParentAgain
        } else {
            BundlePhase::Parent
        }) && (step matches Some(BundleStep::MakeParent(told)) && told@ == above),
        None => goes_past_parent(run, after, step, again),
    }
}

/// Whether a step is the one after the directory that entries are in is made.
pub open spec fn goes_past_parent(
    run: EnsureBundle,
    after: BundlePhase,
    step: Option<BundleStep>,
    again: bool,
) -> bool {
    if again {
        after == BundlePhase::Promote && (step matches Some(BundleStep::Promote { from, to })
            && from@ == source_text(run) && to@ == run.target@)
    } else {
        after == BundlePhase::Download && (step matches Some(BundleStep::Download { url, sha256 })
            && url@ == run.url@ && opt_text(sha256) == opt_text(run.sha256))
    }
}

/// The directory that was extracted.
pub open spec fn source_text(run: EnsureBundle) -> Seq<char> {
    match run.extracted {
        Some(extracted) => extracted.source_path@,
        None => ""@,
    }
}

/// Whether a step records the checksum, or goes on where there is none.
pub open spec fn marks(run: EnsureBundle, after: BundlePhase, step: Option<BundleStep>) -> bool {
    match run.sha256 {
        Some(sha) => after == BundlePhase::Mark && (step matches Some(
            BundleStep::Mark { path, content },
        ) && path@ == extended_path(run.target@, "sha256"@) && content@ == sha@),
        None => locates(run, after, step),
    }
}

/// Whether a step looks for the node's directory in the entry.
pub open spec fn locates(run: EnsureBundle, after: BundlePhase, step: Option<BundleStep>) -> bool {
    after == BundlePhase::Locate && (step matches Some(BundleStep::Locate(dir)) && dir@
        == run.target@)
}

/// Whether a phase runs in a task of its own.
pub open spec fn is_task(phase: BundlePhase) -> bool {
    phase != BundlePhase::Parent && phase != BundlePhase::Download && phase != BundlePhase::Over
}

/// How a bundle goes on.
pub open spec fn bundle_steps(
    before: EnsureBundle,
    event: BundleEvent,
    after: EnsureBundle,
    step: Option<BundleStep>,
) -> bool {
    &&& after.url == before.url
    &&& after.target == before.target
    &&& after.sha256 == before.sha256
    &&& !(event is Downloaded) ==> after.extracted == before.extracted
    &&& match (before.phase, event) {
        (BundlePhase::Check, BundleEvent::Checked { present, marker, located }) => if !present {
            makes_parent(before, after.phase, step, false)
        } else if !is_current(opt_text(before.sha256), opt_text(marker)) {
            after.phase == BundlePhase::DropStale && (step matches Some(
                BundleStep::DropStale { dir, marker },
            ) && dir@ == before.target@ && marker@ == extended_path(before.target@, "sha256"@))
        } else {
            match located {
                Some(root) => after.phase == BundlePhase::Over && (step matches Some(
                    BundleStep::Reuse { root: told, announced },
                ) && told@ == root@ && announced@ == "Reusing cached bundle at "@ + root@),
                None => makes_parent(before, after.phase, step, false),
            }
        },
        (phase, BundleEvent::TaskFailed(why)) if is_task(phase) => fails(
            after.phase,
            step,
            "Bundle cache join error: "@ + why@,
        ),
        (BundlePhase::DropStale, BundleEvent::StaleDropped) => makes_parent(
            before,
            after.phase,
            step,
            false,
        ),
        (BundlePhase::Parent, BundleEvent::ParentMade(Ok(_))) => goes_past_parent(
            before,
            after.phase,
            step,
            false,
        ),
        (BundlePhase::ParentAgain, BundleEvent::ParentMade(Ok(_))) => goes_past_parent(
            before,
            after.phase,
            step,
            true,
        ),
        (BundlePhase::Parent | BundlePhase::ParentAgain, BundleEvent::ParentMade(Err(why))) =>
            fails(
            after.phase,
            step,
            "Failed to create http_bundles parent "@ + (match parent_path(before.target@) {
                Some(above) => above,
                None => ""@,
            }) + ": "@ + why@,
        ),
        (BundlePhase::Download, BundleEvent::Downloaded(Ok(extracted))) => after.extracted == Some(
            extracted,
        ) && after.phase == BundlePhase::Clear && (step matches Some(BundleStep::Clear(dir))
            && dir@ == before.target@),
        (BundlePhase::Download, BundleEvent::Downloaded(Err(why))) => after.extracted
            == before.extracted && fails(after.phase, step, why@),
        (BundlePhase::Clear, BundleEvent::Cleared) => makes_parent(
            before,
            after.phase,
            step,
            true,
        ),
        (BundlePhase::Promote, BundleEvent::Promoted(Ok(_))) => match before.extracted {
            Some(Extracted { cleanup_dir: Some(dir), .. }) => after.phase
                == BundlePhase::DropDownload && (step matches Some(BundleStep::DropDownload(told))
                && told@ == dir@),
            _ => marks(before, after.phase, step),
        },
        (BundlePhase::Promote, BundleEvent::Promoted(Err(why))) => fails(
            after.phase,
            step,
            "Failed to promote extracted bundle into cache at "@ + before.target@ + ": "@ + why@,
        ),
        (BundlePhase::DropDownload, BundleEvent::DownloadDropped) => marks(
            before,
            after.phase,
            step,
        ),
        (BundlePhase::Mark, BundleEvent::Marked(Ok(_))) => locates(before, after.phase, step),
        (BundlePhase::Mark, BundleEvent::Marked(Err(why))) => fails(
            after.phase,
            step,
            "Failed to write bundle sha marker "@ + extended_path(before.target@, "sha256"@)
                + ": "@ + why@,
        ),
        (BundlePhase::Locate, BundleEvent::Located(Ok(root))) => after.phase == BundlePhase::Over
            && (step matches Some(BundleStep::Done(told)) && told@ == root@),
        (BundlePhase::Locate, BundleEvent::Located(Err(why))) => fails(after.phase, step, why@),
        _ => after == before && step is None,
    }
}

/// An archive that is to be in the cache: the one at this URL, with this
/// checksum. It begins with the look at its entry.
pub fn ensure_bundle(bundles_dir: &str, url: &SourceUrl, sha256: Option<&str>) -> (r: EnsureBundle)
    ensures
        r.url@ == url@,
        r.target@ == extract_path(bundles_dir@, url.text@, opt_str(sha256)),
        opt_text(r.sha256) == opt_str(sha256),
        r.phase == BundlePhase::Check,
        r.extracted is None,
{
    EnsureBundle {
        url: url.clone(),
        target: extract_dir_for(bundles_dir, url, sha256),
        sha256: match sha256 {
            Some(sha) => Some(sha.to_owned()),
            None => None,
        },
        phase: BundlePhase::Check,
        extracted: None,
    }
}

/// A borrowed optional text.
fn borrowed<'a>(text: &'a Option<String>) -> (r: Option<&'a str>)
    ensures
        opt_str(r) == opt_text(*text),
{
    match text {
        Some(text) => Some(text.as_str()),
        None => None,
    }
}

impl EnsureBundle {
    /// Makes the directory that entries are in.
    fn make_parent(&mut self, again: bool) -> (r: BundleStep)
        ensures
            makes_parent(*old(self), final(self).phase, Some(r), again),
            final(self).url == old(self).url,
            final(self).target == old(self).target,
            final(self).sha256 == old(self).sha256,
            final(self).extracted == old(self).extracted,
    {
        match parent(self.target.as_str()) {
            Some(above) => {
                self.phase = if again {
                    BundlePhase::ParentAgain
                } else {
                    BundlePhase::Parent
                };
                BundleStep::MakeParent(above)
            },
            None => self.pass_parent(again),
        }
    }

    /// Goes on once the directory that entries are in is there.
    fn pass_parent(&mut self, again: bool) -> (r: BundleStep)
        ensures
            goes_past_parent(*old(self), final(self).phase, Some(r), again),
            final(self).url == old(self).url,
            final(self).target == old(self).target,
            final(self).sha256 == old(self).sha256,
            final(self).extracted == old(self).extracted,
    {
        if !again {
            self.phase = BundlePhase::Download;
            return BundleStep::Download {
                url: self.url.clone(),
                sha256: copy_opt(&self.sha256),
            };
        }
        self.phase = BundlePhase::Promote;
        let from: String = match &self.extracted {
            Some(extracted) => extracted.source_path.clone(),
            None => "".to_owned(),
        };
        BundleStep::Promote { from, to: self.target.clone() }
    }

    /// Records the checksum.
    fn mark(&mut self) -> (r: BundleStep)
        ensures
            marks(*old(self), final(self).phase, Some(r)),
            final(self).url == old(self).url,
            final(self).target == old(self).target,
            final(self).sha256 == old(self).sha256,
            final(self).extracted == old(self).extracted,
    {
        match &self.sha256 {
            Some(sha) => {
                let content: String = sha.clone();
                self.phase = BundlePhase::Mark;
                BundleStep::Mark { path: marker_path(self.target.as_str()), content }
            },
            None => self.locate(),
        }
    }

    /// Looks for the node's directory in the entry.
    fn locate(&mut self) -> (r: BundleStep)
        ensures
            locates(*old(self), final(self).phase, Some(r)),
            final(self).url == old(self).url,
            final(self).target == old(self).target,
            final(self).sha256 == old(self).sha256,
            final(self).extracted == old(self).extracted,
    {
        self.phase = BundlePhase::Locate;
        BundleStep::Locate(self.target.clone())
    }

    /// Ends with a failure.
    fn fail(&mut self, problem: BundleProblem) -> (r: BundleStep)
        ensures
            final(self).phase == BundlePhase::Over,
            final(self).url == old(self).url,
            final(self).target == old(self).target,
            final(self).sha256 == old(self).sha256,
            final(self).extracted == old(self).extracted,
            r matches BundleStep::Fail(text) && text@ == super::problem_text(problem),
    {
        self.phase = BundlePhase::Over;
        BundleStep::Fail(bundle_failure(&problem))
    }

    /// Goes on after an event. An event that does not answer what the bundle
    /// waits for changes nothing.
    #[verifier::rlimit(60)]
    pub fn step(&mut self, event: BundleEvent) -> (r: Option<BundleStep>)
        ensures
            bundle_steps(*old(self), event, *final(self), r),
    {
        match (self.phase, event) {
            (BundlePhase::Check, BundleEvent::Checked { present, marker, located }) => {
                match cached_node_root(
                    present,
                    borrowed(&self.sha256),
                    borrowed(&marker),
                    &located,
                ) {
                    CachedBundle::Hit(root) => {
                        self.phase = BundlePhase::Over;
                        let announced = reuse_line(root.as_str());
                        Some(BundleStep::Reuse { root, announced })
                    },
                    CachedBundle::Stale => {
                        self.phase = BundlePhase::DropStale;
                        Some(
                            BundleStep::DropStale {
                                dir: self.target.clone(),
                                marker: marker_path(self.target.as_str()),
                            },
                        )
                    },
                    CachedBundle::Miss => Some(self.make_parent(false)),
                }
            },
            (
                BundlePhase::Check
                | BundlePhase::DropStale
                | BundlePhase::Clear
                | BundlePhase::ParentAgain
                | BundlePhase::Promote
                | BundlePhase::DropDownload
                | BundlePhase::Mark
                | BundlePhase::Locate,
                BundleEvent::TaskFailed(why),
            ) => Some(self.fail(BundleProblem::Join(why))),
            (BundlePhase::DropStale, BundleEvent::StaleDropped) => Some(self.make_parent(false)),
            (BundlePhase::Parent, BundleEvent::ParentMade(Ok(_))) => Some(self.pass_parent(false)),
            (BundlePhase::ParentAgain, BundleEvent::ParentMade(Ok(_))) => Some(
                self.pass_parent(true),
            ),
            (BundlePhase::Parent | BundlePhase::ParentAgain, BundleEvent::ParentMade(Err(why))) => {
                let path = match parent(self.target.as_str()) {
                    Some(above) => above,
                    None => "".to_owned(),
                };
                Some(self.fail(BundleProblem::Parent { path, why }))
            },
            (BundlePhase::Download, BundleEvent::Downloaded(Ok(extracted))) => {
                self.phase = BundlePhase::Clear;
                self.extracted = Some(extracted);
                Some(BundleStep::Clear(self.target.clone()))
            },
            (BundlePhase::Download, BundleEvent::Downloaded(Err(why))) => {
                self.phase = BundlePhase::Over;
                Some(BundleStep::Fail(why))
            },
            (BundlePhase::Clear, BundleEvent::Cleared) => Some(self.make_parent(true)),
            (BundlePhase::Promote, BundleEvent::Promoted(Ok(_))) => {
                if let Some(extracted) = &self.extracted {
                    if let Some(dir) = &extracted.cleanup_dir {
                        let dir: String = dir.clone();
                        self.phase = BundlePhase::DropDownload;
                        return Some(BundleStep::DropDownload(dir));
                    }
                }
                Some(self.mark())
            },
            (BundlePhase::Promote, BundleEvent::Promoted(Err(why))) => {
                let path: String = self.target.clone();
                Some(self.fail(BundleProblem::Promote { path, why }))
            },
            (BundlePhase::DropDownload, BundleEvent::DownloadDropped) => Some(self.mark()),
            (BundlePhase::Mark, BundleEvent::Marked(Ok(_))) => Some(self.locate()),
            (BundlePhase::Mark, BundleEvent::Marked(Err(why))) => {
                let path = marker_path(self.target.as_str());
                Some(self.fail(BundleProblem::Marker { path, why }))
            },
            (BundlePhase::Locate, BundleEvent::Located(Ok(root))) => {
                self.phase = BundlePhase::Over;
                Some(BundleStep::Done(root))
            },
            (BundlePhase::Locate, BundleEvent::Located(Err(why))) => {
                self.phase = BundlePhase::Over;
                Some(BundleStep::Fail(why))
            },
            _ => None,
        }
    }
}

/// An entry of another checksum is never reused, and nothing but such an entry is
/// removed before the download is there.
pub proof fn only_current_entries_are_reused(
    before: EnsureBundle,
    event: BundleEvent,
    after: EnsureBundle,
    step: Option<BundleStep>,
)
    requires
        bundle_steps(before, event, after, step),
    ensures
        step matches Some(BundleStep::Reuse { .. }) ==> (event matches BundleEvent::Checked {
            marker,
            ..
        } && is_current(opt_text(before.sha256), opt_text(marker))),
        step matches Some(BundleStep::DropStale { .. }) ==> (event matches BundleEvent::Checked {
            marker,
            ..
        } && !is_current(opt_text(before.sha256), opt_text(marker))),
        step matches Some(BundleStep::Clear(_)) ==> (event matches BundleEvent::Downloaded(Ok(_))),
{
}

/// What is recorded of a new entry is the checksum it was asked for with, so that
/// the next look at it finds it current.
pub proof fn a_new_entry_is_current(
    before: EnsureBundle,
    event: BundleEvent,
    after: EnsureBundle,
    step: Option<BundleStep>,
    marker: Seq<char>,
)
    requires
        bundle_steps(before, event, after, step),
        step matches Some(BundleStep::Mark { content, .. }) && content@ == marker,
        crate::text::trimmed(marker) == marker,
    ensures
        is_current(opt_text(before.sha256), Some(marker)),
{
    let sha = before.sha256->0;
    assert(sha@ == marker);
    if marker.len() == 0 {
        assert(marker =~= ""@) by {
            reveal_strlit("");
        }
    }
}

/// A call of `step` leads a bundle as `bundle_steps` says.
pub proof fn a_call_steps_the_bundle(
    bundle: &mut EnsureBundle,
    event: BundleEvent,
    r: Option<BundleStep>,
)
    requires
        call_ensures(EnsureBundle::step, (bundle, event), r),
    ensures
        bundle_steps(*old(bundle), event, *final(bundle), r),
{
}

/// Why an event ends a bundle, where it does.
pub open spec fn bundle_trouble(phase: BundlePhase, event: BundleEvent) -> Option<Seq<char>> {
    match (phase, event) {
        (BundlePhase::Parent | BundlePhase::ParentAgain, BundleEvent::ParentMade(Err(why))) => Some(
            why@,
        ),
        (BundlePhase::Download, BundleEvent::Downloaded(Err(why))) => Some(why@),
        (BundlePhase::Promote, BundleEvent::Promoted(Err(why))) => Some(why@),
        (BundlePhase::Mark, BundleEvent::Marked(Err(why))) => Some(why@),
        (BundlePhase::Locate, BundleEvent::Located(Err(why))) => Some(why@),
        (BundlePhase::Parent | BundlePhase::Download | BundlePhase::Over, BundleEvent::TaskFailed(
            _,
        )) => None,
        (_, BundleEvent::TaskFailed(why)) => Some(why@),
        _ => None,
    }
}

/// Whatever goes wrong with a bundle ends it, with a failure that says what went wrong.
pub proof fn trouble_ends_a_bundle(
    before: EnsureBundle,
    event: BundleEvent,
    after: EnsureBundle,
    step: Option<BundleStep>,
)
    requires
        bundle_steps(before, event, after, step),
        bundle_trouble(before.phase, event) is Some,
    ensures
        after.phase == BundlePhase::Over,
        step matches Some(BundleStep::Fail(text)) && mentions(
            text@,
            bundle_trouble(before.phase, event)->0,
        ),
{
    let why = bundle_trouble(before.phase, event)->0;
    let above = match parent_path(before.target@) {
        Some(above) => above,
        None => ""@,
    };
    what_is_written_is_mentioned("Bundle cache join error: "@, why, ""@);
    what_is_written_is_mentioned("Failed to create http_bundles parent "@ + above + ": "@, why, ""@);
    what_is_written_is_mentioned(
        "Failed to promote extracted bundle into cache at "@ + before.target@ + ": "@,
        why,
        ""@,
    );
    what_is_written_is_mentioned(
        "Failed to write bundle sha marker "@ + extended_path(before.target@, "sha256"@) + ": "@,
        why,
        ""@,
    );
}

/// Without trouble a bundle goes on to the end: an entry that is not there is
/// downloaded with the checksum that is asked for, what is extracted is moved to the
/// entry's place, what is left of the download is removed, the checksum is recorded
/// where there is one, and the node is looked for in the entry.
pub proof fn a_missing_bundle_is_downloaded_and_recorded(
    before: EnsureBundle,
    event: BundleEvent,
    after: EnsureBundle,
    step: Option<BundleStep>,
)
    requires
        bundle_steps(before, event, after, step),
        bundle_trouble(before.phase, event) is None,
    ensures
        before.phase == BundlePhase::Check && (event matches BundleEvent::Checked {
            present,
            ..
        } && !present) || (before.phase == BundlePhase::DropStale && event is StaleDropped) ==> (
        after.phase == BundlePhase::Parent && parent_path(before.target@) is Some && (
        step matches Some(BundleStep::MakeParent(_)))) || (after.phase == BundlePhase::Download
            && parent_path(before.target@) is None && (step matches Some(
            BundleStep::Download { .. },
        ))),
        step matches Some(BundleStep::Download { url, sha256 }) ==> after.phase
            == BundlePhase::Download && url@ == before.url@ && opt_text(sha256) == opt_text(
            before.sha256,
        ),
        before.phase == BundlePhase::Parent && event is ParentMade ==> (step matches Some(
            BundleStep::Download { .. },
        )),
        before.phase == BundlePhase::Download ==> (event matches BundleEvent::Downloaded(Ok(made))
            ==> after.phase == BundlePhase::Clear && after.extracted == Some(made) && (
        step matches Some(BundleStep::Clear(dir)) && dir@ == before.target@)),
        before.phase == BundlePhase::Clear && event is Cleared ==> (step matches Some(
            BundleStep::MakeParent(_),
        )) && parent_path(before.target@) is Some && after.phase == BundlePhase::ParentAgain || (
        step matches Some(BundleStep::Promote { .. })),
        before.phase == BundlePhase::ParentAgain && event is ParentMade ==> (step matches Some(
            BundleStep::Promote { .. },
        )),
        step matches Some(BundleStep::Promote { from, to }) ==> after.phase == BundlePhase::Promote
            && to@ == before.target@ && (before.extracted matches Some(made) ==> from@
            == made.source_path@),
        before.phase == BundlePhase::Promote && event is Promoted ==> (
        before.extracted matches Some(made) && made.cleanup_dir is Some <==> (step matches Some(
            BundleStep::DropDownload(_),
        ))),
        step matches Some(BundleStep::DropDownload(dir)) ==> after.phase
            == BundlePhase::DropDownload && (before.extracted matches Some(made) && opt_text(
            made.cleanup_dir,
        ) == Some(dir@)),
        before.phase == BundlePhase::DropDownload && event is DownloadDropped && before.sha256 is Some
            ==> (step matches Some(BundleStep::Mark { .. })),
        step matches Some(BundleStep::Mark { content, .. }) ==> after.phase == BundlePhase::Mark
            && opt_text(before.sha256) == Some(content@),
        step matches Some(BundleStep::Locate(dir)) ==> after.phase == BundlePhase::Locate && dir@
            == before.target@ && (before.sha256 is Some ==> before.phase == BundlePhase::Mark && (
        event matches BundleEvent::Marked(Ok(_)))),
        before.phase == BundlePhase::Mark && event is Marked ==> (step matches Some(
            BundleStep::Locate(_),
        )),
        step matches Some(BundleStep::Done(root)) ==> before.phase == BundlePhase::Locate && (
        event matches BundleEvent::Located(Ok(found)) && root@ == found@),
        before.phase == BundlePhase::Locate && event is Located ==> (step matches Some(
            BundleStep::Done(_),
        )),
        before.phase == BundlePhase::Over ==> after == before && step is None,
        after.target == before.target && after.sha256 == before.sha256 && after.url == before.url,
{
}

/// An entry is reused exactly where it is there, its marker records the checksum that
/// is asked for, and it holds a node; that node is given back.
pub proof fn a_recorded_entry_is_reused(
    before: EnsureBundle,
    present: bool,
    marker: Option<String>,
    located: Option<String>,
    after: EnsureBundle,
    step: Option<BundleStep>,
)
    requires
        before.phase == BundlePhase::Check,
        bundle_steps(before, BundleEvent::Checked { present, marker, located }, after, step),
        before.sha256 matches Some(sha) ==> sha@.len() > 0,
    ensures
        (step matches Some(BundleStep::Reuse { .. })) <==> present && located is Some && (
        before.sha256 matches Some(sha) ==> (marker matches Some(text) && trimmed(text@) == sha@)),
        step matches Some(BundleStep::Reuse { root, .. }) ==> (located matches Some(dir) && root@
            == dir@),
        (step matches Some(BundleStep::DropStale { .. })) <==> present && (
        before.sha256 matches Some(sha) && !(marker matches Some(text) && trimmed(text@) == sha@)),
{
    reveal_strlit("");
}

/// A bundle is asked for with its URL and its checksum, and its entry lies in the
/// directory of bundles under a name that the two make.
pub proof fn a_bundle_lies_under_its_checksum(
    bundles_dir: &str,
    url: SourceUrl,
    sha256: Option<&str>,
    r: EnsureBundle,
)
    requires
        call_ensures(ensure_bundle, (bundles_dir, &url, sha256), r),
    ensures
        r.url@ == url@ && opt_text(r.sha256) == opt_str(sha256) && r.phase == BundlePhase::Check
            && r.extracted is None,
        r.target@ == joined_path(
            bundles_dir@,
            entry_name(url.text@, opt_str(sha256), "bundle"@),
        ),
{
}

} // verus!
