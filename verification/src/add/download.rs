//! The download of an archive, and a source that is downloaded, step by step.
use super::http::{
    bundle_file_name, can_decode, check_digest, check_expected, check_http_source,
    checksum_mismatch_text, decoding_undoes_encoding, download_failure, download_text, file_text, length_text,
    source_refusal, unhexed, DownloadProblem,
};
use crate::archive::{is_archive, SourceUrl};
use crate::digest::{collect_bytes, collected, digest_of, new_hasher, sha256};
use crate::paths::{join_path, joined_path};
use crate::text::{
    copy_opt, decimal, hex, mentions, opt_text, what_is_written_is_mentioned,
};
use crate::time::Span;
use sha2::Sha256;
use vstd::prelude::*;
use vstd::string::*;
use vstd::utf8::*;

verus! {

/// How long a download is silent between two lines about its progress, in
/// milliseconds.
pub const REPORT_INTERVAL_MILLIS: u64 = 500;

/// What a download waits for.
#[derive(Clone, Copy, Debug, PartialEq, Eq, Structural)]
pub enum DownloadPhase {
    Respond,
    Create,
    Read,
    Write,
    Flush,
    /// The removal of an archive with another checksum.
    Remove,
    Over,
}

/// What came of the step that a download waits for.
pub enum DownloadEvent {
    /// The server answered; the size that it announced.
    Responded(Option<u64>),
    /// The server refused with this status.
    Refused(u16),
    RequestFailed(String),
    Created(Result<(), String>),
    /// Some more of the archive; nothing once all of it has come.
    Read(Result<Vec<u8>, String>),
    /// What was read is written; the time is this.
    Written(Result<(), String>, Span),
    Flushed(Result<(), String>),
    Removed,
}

/// How much of an archive is here.
#[derive(Clone, Copy, Debug, PartialEq, Eq, Structural)]
pub struct Progress {
    pub downloaded: u64,
    pub total: Option<u64>,
}

/// What a download does next.
pub enum DownloadStep {
    /// Create the file at the destination.
    Create,
    /// Read some more, once this much is told where it is to be.
    Read(Option<Progress>),
    /// Write these bytes to the file.
    Write(Vec<u8>),
    Flush,
    /// Remove the file; that it fails does not matter.
    Remove,
    Done,
    Fail(String),
}

/// One download.
pub struct Download {
    pub url: SourceUrl,
    pub destination: String,
    /// The checksum that the archive must have, as given and as bytes.
    pub expected: Option<(String, Vec<u8>)>,
    /// Whether progress is told to somebody.
    pub reports: bool,
    pub phase: DownloadPhase,
    pub total: Option<u64>,
    pub downloaded: u64,
    /// It has collected what has come so far, where that is checked.
    pub hasher: Sha256,
    pub last_report: Span,
}

/// The time from one point to another, nothing where it is not later.
pub open spec fn elapsed(from: Span, now: Span) -> int {
    if now.nanos >= from.nanos {
        now.nanos - from.nanos
    } else {
        0
    }
}

/// Whether a line about the progress is due.
pub open spec fn report_due(download: Download, now: Span) -> bool {
    download.reports && elapsed(download.last_report, now) >= REPORT_INTERVAL_MILLIS * 1_000_000
}

/// Whether what has come is what is asked for.
pub open spec fn is_wanted(download: Download) -> bool {
    match download.expected {
        None => true,
        Some(wanted) => sha256(collected(download.hasher)) == wanted.1@,
    }
}

/// The refusal of what has come.
pub open spec fn mismatch_of(download: Download) -> Seq<char> {
    match download.expected {
        None => ""@,
        Some(wanted) => checksum_mismatch_text(
            download.url.text@,
            wanted.0@,
            sha256(collected(download.hasher)),
        ),
    }
}

/// Whether a download ends with this failure.
pub open spec fn fails(
    before: Download,
    after: Download,
    step: Option<DownloadStep>,
    text: Seq<char>,
) -> bool {
    &&& after == (Download { phase: DownloadPhase::Over, ..before })
    &&& step matches Some(DownloadStep::Fail(told)) && told@ == text
}

/// How a download goes on.
pub open spec fn download_steps(
    before: Download,
    event: DownloadEvent,
    after: Download,
    step: Option<DownloadStep>,
) -> bool {
    let url = before.url.text@;
    let path = before.destination;
    match (before.phase, event) {
        (DownloadPhase::Respond, DownloadEvent::Responded(total)) => {
            &&& after == (Download { phase: DownloadPhase::Create, total, ..before })
            &&& step == Some(DownloadStep::Create)
        },
        (DownloadPhase::Respond, DownloadEvent::Refused(code)) => fails(
            before,
            after,
            step,
            download_text(url, DownloadProblem::Status(code)),
        ),
        (DownloadPhase::Respond, DownloadEvent::RequestFailed(why)) => fails(
            before,
            after,
            step,
            download_text(url, DownloadProblem::Request(why)),
        ),
        (DownloadPhase::Create, DownloadEvent::Created(Ok(_))) => {
            &&& after == (Download { phase: DownloadPhase::Read, ..before })
            &&& step == Some(DownloadStep::Read(None))
        },
        (DownloadPhase::Create, DownloadEvent::Created(Err(why))) => fails(
            before,
            after,
            step,
            "Failed to create bundle file "@ + path@ + ": "@ + why@,
        ),
        (DownloadPhase::Read, DownloadEvent::Read(Ok(chunk))) => if chunk@.len() == 0 {
            &&& after == (Download { phase: DownloadPhase::Flush, ..before })
            &&& step == Some(DownloadStep::Flush)
        } else {
            &&& after.url == before.url && after.destination == before.destination
            &&& after.expected == before.expected && after.reports == before.reports
            &&& after.total == before.total && after.last_report == before.last_report
            &&& after.phase == DownloadPhase::Write
            &&& after.downloaded == before.downloaded + chunk@.len()
            &&& collected(after.hasher) == if before.expected is Some {
                collected(before.hasher) + chunk@
            } else {
                collected(before.hasher)
            }
            &&& step matches Some(DownloadStep::Write(bytes)) && bytes@ == chunk@
        },
        (DownloadPhase::Read, DownloadEvent::Read(Err(why))) => fails(
            before,
            after,
            step,
            download_text(url, DownloadProblem::ReadBody(why)),
        ),
        (DownloadPhase::Write, DownloadEvent::Written(Ok(_), now)) => if report_due(before, now) {
            &&& after == (Download { phase: DownloadPhase::Read, last_report: now, ..before })
            &&& step == Some(
                DownloadStep::Read(
                    Some(Progress { downloaded: before.downloaded, total: before.total }),
                ),
            )
        } else {
            &&& after == (Download { phase: DownloadPhase::Read, ..before })
            &&& step == Some(DownloadStep::Read(None))
        },
        (DownloadPhase::Write, DownloadEvent::Written(Err(why), _)) => fails(
            before,
            after,
            step,
            "Failed to write bundle file "@ + path@ + ": "@ + why@,
        ),
        (DownloadPhase::Flush, DownloadEvent::Flushed(Ok(_))) => if is_wanted(before) {
            &&& after == (Download { phase: DownloadPhase::Over, ..before })
            &&& step == Some(DownloadStep::Done)
        } else {
            &&& after == (Download { phase: DownloadPhase::Remove, ..before })
            &&& step == Some(DownloadStep::Remove)
        },
        (DownloadPhase::Flush, DownloadEvent::Flushed(Err(why))) => fails(
            before,
            after,
            step,
            "Failed to flush bundle file "@ + path@ + ": "@ + why@,
        ),
        (DownloadPhase::Remove, DownloadEvent::Removed) => fails(
            before,
            after,
            step,
            mismatch_of(before),
        ),
        _ => after == before && step is None,
    }
}

/// A download from `url` to `destination`, which begins with the request. A
/// checksum that is none is refused before that.
pub fn download_http_bundle(
    url: SourceUrl,
    destination: String,
    expected_sha256: Option<&str>,
    reports: bool,
    now: Span,
) -> (r: Result<Download, String>)
    requires
        can_decode(expected_sha256),
    ensures
        match r {
            Ok(download) => {
                &&& download.url == url && download.destination == destination
                &&& download.reports == reports && download.last_report == now
                &&& download.phase == DownloadPhase::Respond
                &&& download.total is None && download.downloaded == 0
                &&& collected(download.hasher).len() == 0
                &&& match (expected_sha256, download.expected) {
                    (None, None) => true,
                    (Some(text), Some(wanted)) => wanted.0@ == text@ && encode_utf8(text@).len()
                        == 64 && wanted.1@ == unhexed(encode_utf8(text@)),
                    _ => false,
                }
            },
            Err(told) => expected_sha256 matches Some(text) && encode_utf8(text@).len() != 64
                && told@ == "Invalid SHA256 for "@ + url.text@ + ": "@ + length_text(text@),
        },
{
    let expected: Option<(String, Vec<u8>)> = match (
        check_expected(&url, expected_sha256),
        expected_sha256,
    ) {
        (Err(told), _) => {
            return Err(told);
        },
        (Ok(Some(bytes)), Some(text)) => Some((text.to_owned(), bytes)),
        (Ok(_), _) => None,
    };
    Ok(
        Download {
            url,
            destination,
            expected,
            reports,
            phase: DownloadPhase::Respond,
            total: None,
            downloaded: 0,
            hasher: new_hasher(),
            last_report: now,
        },
    )
}

impl Download {
    /// Ends with a failure.
    fn fail(&mut self, problem: DownloadProblem) -> (r: Option<DownloadStep>)
        ensures
            fails(*old(self), *final(self), r, download_text(old(self).url.text@, problem)),
    {
        self.phase = DownloadPhase::Over;
        Some(DownloadStep::Fail(download_failure(&self.url, &problem)))
    }

    /// The refusal of what has come, where it is not what is asked for.
    fn mismatch(&self) -> (r: Option<String>)
        ensures
            match r {
                Some(text) => !is_wanted(*self) && text@ == mismatch_of(*self),
                None => is_wanted(*self),
            },
    {
        match &self.expected {
            None => None,
            Some(wanted) => {
                let computed = digest_of(&self.hasher);
                match check_digest(&self.url, &computed, &wanted.1, wanted.0.as_str()) {
                    Ok(_) => None,
                    Err(text) => Some(text),
                }
            },
        }
    }

    /// Goes on after an event. An event that does not answer what the download
    /// waits for changes nothing.
    #[verifier::rlimit(60)]
    pub fn step(&mut self, event: DownloadEvent) -> (r: Option<DownloadStep>)
        requires
            event matches DownloadEvent::Read(Ok(chunk)) ==> old(self).downloaded + chunk@.len()
                <= u64::MAX,
            old(self).phase == DownloadPhase::Remove ==> !is_wanted(*old(self)),
        ensures
            download_steps(*old(self), event, *final(self), r),
            final(self).phase == DownloadPhase::Remove ==> !is_wanted(*final(self)),
    {
        match (self.phase, event) {
            (DownloadPhase::Respond, DownloadEvent::Responded(total)) => {
                self.phase = DownloadPhase::Create;
                self.total = total;
                Some(DownloadStep::Create)
            },
            (DownloadPhase::Respond, DownloadEvent::Refused(code)) => self.fail(
                DownloadProblem::Status(code),
            ),
            (DownloadPhase::Respond, DownloadEvent::RequestFailed(why)) => self.fail(
                DownloadProblem::Request(why),
            ),
            (DownloadPhase::Create, DownloadEvent::Created(Ok(_))) => {
                self.phase = DownloadPhase::Read;
                Some(DownloadStep::Read(None))
            },
            (DownloadPhase::Create, DownloadEvent::Created(Err(why))) => {
                let path: String = self.destination.clone();
                self.fail(DownloadProblem::CreateFile { path, why })
            },
            (DownloadPhase::Read, DownloadEvent::Read(Ok(chunk))) => {
                if chunk.len() == 0 {
                    self.phase = DownloadPhase::Flush;
                    return Some(DownloadStep::Flush);
                }
                self.phase = DownloadPhase::Write;
                self.downloaded = self.downloaded + chunk.len() as u64;
                if self.expected.is_some() {
                    collect_bytes(&mut self.hasher, chunk.as_slice());
                }
                Some(DownloadStep::Write(chunk))
            },
            (DownloadPhase::Read, DownloadEvent::Read(Err(why))) => self.fail(
                DownloadProblem::ReadBody(why),
            ),
            (DownloadPhase::Write, DownloadEvent::Written(Ok(_), now)) => {
                self.phase = DownloadPhase::Read;
                let silent = now.saturating_sub(self.last_report);
                if self.reports && silent.nanos >= REPORT_INTERVAL_MILLIS as u128 * 1_000_000 {
                    self.last_report = now;
                    return Some(
                        DownloadStep::Read(
                            Some(Progress { downloaded: self.downloaded, total: self.total }),
                        ),
                    );
                }
                Some(DownloadStep::Read(None))
            },
            (DownloadPhase::Write, DownloadEvent::Written(Err(why), _)) => {
                let path: String = self.destination.clone();
                self.fail(DownloadProblem::WriteFile { path, why })
            },
            (DownloadPhase::Flush, DownloadEvent::Flushed(Ok(_))) => {
                if self.mismatch().is_some() {
                    self.phase = DownloadPhase::Remove;
                    return Some(DownloadStep::Remove);
                }
                self.phase = DownloadPhase::Over;
                Some(DownloadStep::Done)
            },
            (DownloadPhase::Flush, DownloadEvent::Flushed(Err(why))) => {
                let path: String = self.destination.clone();
                self.fail(DownloadProblem::FlushFile { path, why })
            },
            (DownloadPhase::Remove, DownloadEvent::Removed) => {
                let told = match self.mismatch() {
                    Some(text) => text,
                    None => "".to_owned(),
                };
                self.phase = DownloadPhase::Over;
                Some(DownloadStep::Fail(told))
            },
            _ => None,
        }
    }
}

/// An archive with another checksum is never taken: where one is asked for, a
/// download is done only if what came has it, and it is removed otherwise.
pub proof fn only_the_wanted_archive_is_taken(
    before: Download,
    event: DownloadEvent,
    after: Download,
    step: Option<DownloadStep>,
)
    requires
        download_steps(before, event, after, step),
    ensures
        step == Some(DownloadStep::Done) ==> is_wanted(before),
        before.phase == DownloadPhase::Flush && (event matches DownloadEvent::Flushed(Ok(_)))
            && !is_wanted(before) ==> step == Some(DownloadStep::Remove),
{
}

/// What a source that is downloaded waits for.
#[derive(Clone, Copy, Debug, PartialEq, Eq, Structural)]
pub enum HttpPhase {
    /// The directory that downloads are made in.
    Base,
    /// The directory of this download.
    Staging,
    /// The directory that its archive is extracted to.
    ExtractDir,
    Download,
    Extract,
    /// The removal of the archive.
    RemoveBundle,
    Locate,
    /// The removal of the directory of this download, after a failure.
    Clean,
    Over,
}

/// What came of the step that a source waits for.
pub enum HttpEvent {
    /// The directory was made.
    Made(Result<(), String>),
    Downloaded(Result<(), String>),
    Extracted(Result<(), String>),
    BundleRemoved,
    Located(Result<String, String>),
    Cleaned,
}

/// What a source does next.
pub enum HttpStep {
    Make(String),
    /// Download the source's archive to this file; it must have this checksum, where
    /// there is one.
    Download { url: SourceUrl, to: String, sha256: Option<String> },
    /// Extract the archive at one path to another.
    Extract { from: String, to: String },
    /// Remove this file; that it fails does not matter.
    RemoveBundle(String),
    /// Look for the node's directory in this one.
    Locate(String),
    /// Remove this directory.
    Clean(String),
    /// The node's directory, and the one that is removed in the end.
    Done { source_path: String, cleanup_dir: String },
    Fail(String),
}

/// One source that is downloaded.
pub struct HttpSource {
    pub url: SourceUrl,
    /// The checksum that the archive must have, where one is asked for.
    pub sha256: Option<String>,
    pub base_dir: String,
    pub staging_dir: String,
    pub phase: HttpPhase,
    pub failure: Option<String>,
}

/// Where the archive of a source is downloaded to.
pub open spec fn bundle_place(source: HttpSource) -> Seq<char> {
    joined_path(source.staging_dir@, file_text(source.url.path@))
}

/// Where the archive of a source is extracted to.
pub open spec fn extract_place(source: HttpSource) -> Seq<char> {
    joined_path(source.staging_dir@, "extracted"@)
}

/// Whether a source goes on to a phase, and nothing else of it changes.
pub open spec fn moves(before: HttpSource, after: HttpSource, phase: HttpPhase) -> bool {
    after == (HttpSource { phase, ..before })
}

/// Whether a source cleans up after a failure.
pub open spec fn cleans(
    before: HttpSource,
    after: HttpSource,
    step: Option<HttpStep>,
    text: Seq<char>,
) -> bool {
    &&& after.url == before.url && after.sha256 == before.sha256
    &&& after.base_dir == before.base_dir
    &&& after.staging_dir == before.staging_dir
    &&& after.phase == HttpPhase::Clean
    &&& opt_text(after.failure) == Some(text)
    &&& step matches Some(HttpStep::Clean(dir)) && dir@ == before.staging_dir@
}

/// How a source goes on.
pub open spec fn http_steps(
    before: HttpSource,
    event: HttpEvent,
    after: HttpSource,
    step: Option<HttpStep>,
) -> bool {
    let url = before.url.text@;
    match (before.phase, event) {
        (HttpPhase::Base, HttpEvent::Made(Ok(_))) => moves(before, after, HttpPhase::Staging) && (
        step matches Some(HttpStep::Make(dir)) && dir@ == before.staging_dir@),
        (HttpPhase::Base, HttpEvent::Made(Err(why))) => moves(before, after, HttpPhase::Over) && (
        step matches Some(HttpStep::Fail(text)) && text@ == download_text(
            url,
            DownloadProblem::BaseDir(why),
        )),
        (HttpPhase::Staging, HttpEvent::Made(Ok(_))) => moves(
            before,
            after,
            HttpPhase::ExtractDir,
        ) && (step matches Some(HttpStep::Make(dir)) && dir@ == extract_place(before)),
        (HttpPhase::Staging, HttpEvent::Made(Err(why))) => moves(before, after, HttpPhase::Over)
            && (step matches Some(HttpStep::Fail(text)) && text@ == download_text(
            url,
            DownloadProblem::StagingDir(why),
        )),
        (HttpPhase::ExtractDir, HttpEvent::Made(Ok(_))) => moves(
            before,
            after,
            HttpPhase::Download,
        ) && (step matches Some(HttpStep::Download { url, to, sha256 }) && url@ == before.url@ && to@
            == bundle_place(before) && opt_text(sha256) == opt_text(before.sha256)),
        (HttpPhase::ExtractDir, HttpEvent::Made(Err(why))) => cleans(
            before,
            after,
            step,
            download_text(url, DownloadProblem::ExtractDir(why)),
        ),
        (HttpPhase::Download, HttpEvent::Downloaded(Ok(_))) => moves(
            before,
            after,
            HttpPhase::Extract,
        ) && (step matches Some(HttpStep::Extract { from, to }) && from@ == bundle_place(before)
            && to@ == extract_place(before)),
        (HttpPhase::Download, HttpEvent::Downloaded(Err(why))) => cleans(before, after, step, why@),
        (HttpPhase::Extract, HttpEvent::Extracted(Ok(_))) => moves(
            before,
            after,
            HttpPhase::RemoveBundle,
        ) && (step matches Some(HttpStep::RemoveBundle(path)) && path@ == bundle_place(before)),
        (HttpPhase::Extract, HttpEvent::Extracted(Err(why))) => cleans(
            before,
            after,
            step,
            download_text(url, DownloadProblem::Extract(why)),
        ),
        (HttpPhase::RemoveBundle, HttpEvent::BundleRemoved) => moves(
            before,
            after,
            HttpPhase::Locate,
        ) && (step matches Some(HttpStep::Locate(dir)) && dir@ == extract_place(before)),
        (HttpPhase::Locate, HttpEvent::Located(Ok(root))) => moves(before, after, HttpPhase::Over)
            && (step matches Some(HttpStep::Done { source_path, cleanup_dir }) && source_path
            == root && cleanup_dir@ == before.staging_dir@),
        (HttpPhase::Locate, HttpEvent::Located(Err(why))) => cleans(before, after, step, why@),
        (HttpPhase::Clean, HttpEvent::Cleaned) => moves(before, after, HttpPhase::Over) && (
        step matches Some(HttpStep::Fail(text)) && Some(text@) == (match before.failure {
            Some(why) => Some(why@),
            None => Some(""@),
        })),
        _ => after == before && step is None,
    }
}

/// A source that is downloaded into a directory of its own below `base_dir`. It
/// begins with that directory. A URL that is no archive's is refused.
pub fn resolve_http_source_download_and_extract(
    url: SourceUrl,
    sha256: Option<String>,
    base_dir: String,
    staging_name: &str,
) -> (r: Result<HttpSource, String>)
    ensures
        match r {
            Ok(source) => {
                &&& source_refusal(url) is None
                &&& source.url == url && source.sha256 == sha256 && source.base_dir == base_dir
                &&& source.staging_dir@ == joined_path(base_dir@, staging_name@)
                &&& source.phase == HttpPhase::Base && source.failure is None
            },
            Err(text) => source_refusal(url) == Some(text@),
        },
{
    if let Err(text) = check_http_source(&url) {
        return Err(text);
    }
    let staging_dir = join_path(base_dir.as_str(), staging_name);
    Ok(HttpSource { url, sha256, base_dir, staging_dir, phase: HttpPhase::Base, failure: None })
}

impl HttpSource {
    /// Where the archive is downloaded to.
    fn bundle_path(&self) -> (r: String)
        ensures
            r@ == bundle_place(*self),
    {
        join_path(self.staging_dir.as_str(), bundle_file_name(&self.url).as_str())
    }

    /// Where the archive is extracted to.
    fn extract_dir(&self) -> (r: String)
        ensures
            r@ == extract_place(*self),
    {
        join_path(self.staging_dir.as_str(), "extracted")
    }

    /// Cleans up after a failure.
    fn clean(&mut self, text: String) -> (r: Option<HttpStep>)
        ensures
            cleans(*old(self), *final(self), r, text@),
    {
        self.phase = HttpPhase::Clean;
        self.failure = Some(text);
        Some(HttpStep::Clean(self.staging_dir.clone()))
    }

    /// Goes on after an event. An event that does not answer what the source
    /// waits for changes nothing.
    #[verifier::rlimit(60)]
    pub fn step(&mut self, event: HttpEvent) -> (r: Option<HttpStep>)
        ensures
            http_steps(*old(self), event, *final(self), r),
    {
        match (self.phase, event) {
            (HttpPhase::Base, HttpEvent::Made(Ok(_))) => {
                self.phase = HttpPhase::Staging;
                Some(HttpStep::Make(self.staging_dir.clone()))
            },
            (HttpPhase::Base, HttpEvent::Made(Err(why))) => {
                self.phase = HttpPhase::Over;
                Some(HttpStep::Fail(download_failure(&self.url, &DownloadProblem::BaseDir(why))))
            },
            (HttpPhase::Staging, HttpEvent::Made(Ok(_))) => {
                self.phase = HttpPhase::ExtractDir;
                Some(HttpStep::Make(self.extract_dir()))
            },
            (HttpPhase::Staging, HttpEvent::Made(Err(why))) => {
                self.phase = HttpPhase::Over;
                Some(HttpStep::Fail(download_failure(&self.url, &DownloadProblem::StagingDir(why))))
            },
            (HttpPhase::ExtractDir, HttpEvent::Made(Ok(_))) => {
                self.phase = HttpPhase::Download;
                Some(
                    HttpStep::Download {
                        url: self.url.clone(),
                        to: self.bundle_path(),
                        sha256: copy_opt(&self.sha256),
                    },
                )
            },
            (HttpPhase::ExtractDir, HttpEvent::Made(Err(why))) => {
                let text = download_failure(&self.url, &DownloadProblem::ExtractDir(why));
                self.clean(text)
            },
            (HttpPhase::Download, HttpEvent::Downloaded(Ok(_))) => {
                self.phase = HttpPhase::Extract;
                Some(HttpStep::Extract { from: self.bundle_path(), to: self.extract_dir() })
            },
            (HttpPhase::Download, HttpEvent::Downloaded(Err(why))) => self.clean(why),
            (HttpPhase::Extract, HttpEvent::Extracted(Ok(_))) => {
                self.phase = HttpPhase::RemoveBundle;
                Some(HttpStep::RemoveBundle(self.bundle_path()))
            },
            (HttpPhase::Extract, HttpEvent::Extracted(Err(why))) => {
                let text = download_failure(&self.url, &DownloadProblem::Extract(why));
                self.clean(text)
            },
            (HttpPhase::RemoveBundle, HttpEvent::BundleRemoved) => {
                self.phase = HttpPhase::Locate;
                Some(HttpStep::Locate(self.extract_dir()))
            },
            (HttpPhase::Locate, HttpEvent::Located(Ok(root))) => {
                self.phase = HttpPhase::Over;
                Some(
                    HttpStep::Done { source_path: root, cleanup_dir: self.staging_dir.clone() },
                )
            },
            (HttpPhase::Locate, HttpEvent::Located(Err(why))) => self.clean(why),
            (HttpPhase::Clean, HttpEvent::Cleaned) => {
                self.phase = HttpPhase::Over;
                let text: String = match &self.failure {
                    Some(why) => why.clone(),
                    None => "".to_owned(),
                };
                Some(HttpStep::Fail(text))
            },
            _ => None,
        }
    }
}

/// Whether the directory of a download is there.
pub open spec fn has_staging(phase: HttpPhase) -> bool {
    phase != HttpPhase::Base && phase != HttpPhase::Staging && phase != HttpPhase::Over
}

/// A source that fails leaves nothing behind: once the directory of its download
/// is there, it fails only after that directory was removed.
pub proof fn a_failed_source_leaves_no_directory(
    before: HttpSource,
    event: HttpEvent,
    after: HttpSource,
    step: Option<HttpStep>,
)
    requires
        http_steps(before, event, after, step),
        has_staging(before.phase),
    ensures
        step matches Some(HttpStep::Fail(_)) ==> before.phase == HttpPhase::Clean && event
            == HttpEvent::Cleaned,
        !has_staging(after.phase) ==> (step matches Some(HttpStep::Fail(_)))
            || (step matches Some(HttpStep::Done { .. })),
{
}

/// A call of `step` leads a download as `download_steps` says.
pub proof fn a_call_steps_the_download(
    download: &mut Download,
    event: DownloadEvent,
    r: Option<DownloadStep>,
)
    requires
        call_ensures(Download::step, (download, event), r),
    ensures
        download_steps(*old(download), event, *final(download), r),
{
}

/// Why an event ends a download, where it does.
pub open spec fn download_trouble(phase: DownloadPhase, event: DownloadEvent) -> Option<Seq<char>> {
    match (phase, event) {
        (DownloadPhase::Respond, DownloadEvent::Refused(code)) => Some(decimal(code as nat)),
        (DownloadPhase::Respond, DownloadEvent::RequestFailed(why)) => Some(why@),
        (DownloadPhase::Create, DownloadEvent::Created(Err(why))) => Some(why@),
        (DownloadPhase::Read, DownloadEvent::Read(Err(why))) => Some(why@),
        (DownloadPhase::Write, DownloadEvent::Written(Err(why), _)) => Some(why@),
        (DownloadPhase::Flush, DownloadEvent::Flushed(Err(why))) => Some(why@),
        _ => None,
    }
}

/// Whatever goes wrong with a download ends it, with a failure that says what went
/// wrong.
pub proof fn trouble_ends_a_download(
    before: Download,
    event: DownloadEvent,
    after: Download,
    step: Option<DownloadStep>,
)
    requires
        download_steps(before, event, after, step),
        download_trouble(before.phase, event) is Some,
    ensures
        after.phase == DownloadPhase::Over,
        step matches Some(DownloadStep::Fail(text)) && mentions(
            text@,
            download_trouble(before.phase, event)->0,
        ),
{
    let why = download_trouble(before.phase, event)->0;
    let url = before.url.text@;
    let path = before.destination@;
    what_is_written_is_mentioned(
        "Failed to download bundle from "@ + url + ": unexpected status code "@,
        why,
        ""@,
    );
    what_is_written_is_mentioned("Failed to download bundle from "@ + url + ": "@, why, ""@);
    what_is_written_is_mentioned("Failed to read response body from "@ + url + ": "@, why, ""@);
    what_is_written_is_mentioned("Failed to create bundle file "@ + path + ": "@, why, ""@);
    what_is_written_is_mentioned("Failed to write bundle file "@ + path + ": "@, why, ""@);
    what_is_written_is_mentioned("Failed to flush bundle file "@ + path + ": "@, why, ""@);
}

/// Without trouble a download goes on: the file is made once the server answered, and
/// is read to its end; what is read is written, all of it and nothing else, counted,
/// and collected where a checksum is asked for; the end of it is flushed.
pub proof fn a_download_writes_what_it_reads(
    before: Download,
    event: DownloadEvent,
    after: Download,
    step: Option<DownloadStep>,
)
    requires
        download_steps(before, event, after, step),
        download_trouble(before.phase, event) is None,
    ensures
        after.url == before.url && after.destination == before.destination && after.expected
            == before.expected && after.reports == before.reports,
        before.phase == DownloadPhase::Respond && event is Responded ==> after.phase
            == DownloadPhase::Create && step == Some(DownloadStep::Create) && event
            == DownloadEvent::Responded(after.total),
        before.phase == DownloadPhase::Create && event is Created ==> after.phase
            == DownloadPhase::Read && (step matches Some(DownloadStep::Read(_))),
        before.phase == DownloadPhase::Read ==> (event matches DownloadEvent::Read(Ok(chunk)) ==> {
            if chunk@.len() == 0 {
                after.phase == DownloadPhase::Flush && step == Some(DownloadStep::Flush)
                    && after.downloaded == before.downloaded && collected(after.hasher)
                    == collected(before.hasher)
            } else {
                &&& after.phase == DownloadPhase::Write
                &&& step matches Some(DownloadStep::Write(bytes)) && bytes@ == chunk@
                &&& after.downloaded - before.downloaded == chunk@.len()
                &&& before.expected is Some ==> collected(after.hasher) == collected(before.hasher)
                    + chunk@
            }
        }),
        before.phase == DownloadPhase::Write && event is Written ==> after.phase
            == DownloadPhase::Read && (step matches Some(DownloadStep::Read(_))),
        before.phase == DownloadPhase::Remove && event is Removed ==> after.phase
            == DownloadPhase::Over && (step matches Some(DownloadStep::Fail(_))),
        before.phase == DownloadPhase::Over ==> after == before && step is None,
        step == Some(DownloadStep::Done) ==> before.phase == DownloadPhase::Flush && (
        event matches DownloadEvent::Flushed(Ok(_))) && (before.expected matches Some(wanted)
            ==> sha256(collected(before.hasher)) == wanted.1@),
        before.phase == DownloadPhase::Flush && (event matches DownloadEvent::Flushed(Ok(_)))
            && before.expected is None ==> step == Some(DownloadStep::Done),
        step matches Some(DownloadStep::Read(Some(told))) ==> before.reports && told.downloaded
            == before.downloaded && told.total == before.total,
{
}

/// Progress is told at most twice a second, by the clock: a line is due only where
/// half a second has passed since the one before, and is given where it is due.
pub proof fn progress_is_told_twice_a_second(
    before: Download,
    now: Span,
    after: Download,
    step: Option<DownloadStep>,
)
    requires
        before.phase == DownloadPhase::Write,
        download_steps(before, DownloadEvent::Written(Ok(()), now), after, step),
    ensures
        (step matches Some(DownloadStep::Read(Some(_)))) <==> before.reports && now.nanos
            >= before.last_report.nanos + 500_000_000,
        (step matches Some(DownloadStep::Read(Some(_)))) ==> after.last_report == now,
        step == Some(DownloadStep::Read(None)) ==> after.last_report == before.last_report,
{
}

/// An archive with another checksum is refused, with the checksum that was asked for
/// and the one that it has.
pub proof fn a_refused_archive_names_both_checksums(
    before: Download,
    after: Download,
    step: Option<DownloadStep>,
)
    requires
        before.phase == DownloadPhase::Remove,
        before.expected is Some,
        download_steps(before, DownloadEvent::Removed, after, step),
    ensures
        step matches Some(DownloadStep::Fail(text)) && mentions(
            text@,
            hex(sha256(collected(before.hasher))),
        ) && (before.expected matches Some(wanted) && mentions(text@, wanted.0@)),
{
    let (asked, _) = before.expected->0;
    let wanted = asked@;
    let computed = hex(sha256(collected(before.hasher)));
    let head = "SHA256 checksum mismatch for "@ + before.url.text@ + ": expected "@;
    what_is_written_is_mentioned(head + wanted + ", computed "@, computed, ""@);
    what_is_written_is_mentioned(head, wanted, ", computed "@ + computed);
    assert(head + wanted + ", computed "@ + computed =~= head + wanted + (", computed "@
        + computed));
}

/// A call of `step` leads a source as `http_steps` says.
pub proof fn a_call_steps_the_source(source: &mut HttpSource, event: HttpEvent, r: Option<HttpStep>)
    requires
        call_ensures(HttpSource::step, (source, event), r),
    ensures
        http_steps(*old(source), event, *final(source), r),
{
}

/// Whether an event answers what a source waits for.
pub open spec fn is_reply(phase: HttpPhase, event: HttpEvent) -> bool {
    match phase {
        HttpPhase::Base | HttpPhase::Staging | HttpPhase::ExtractDir => event is Made,
        HttpPhase::Download => event is Downloaded,
        HttpPhase::Extract => event is Extracted,
        HttpPhase::RemoveBundle => event is BundleRemoved,
        HttpPhase::Locate => event is Located,
        HttpPhase::Clean => event is Cleaned,
        HttpPhase::Over => false,
    }
}

/// What an event says went wrong with a source.
pub open spec fn source_trouble(event: HttpEvent) -> Option<Seq<char>> {
    match event {
        HttpEvent::Made(Err(why)) => Some(why@),
        HttpEvent::Downloaded(Err(why)) => Some(why@),
        HttpEvent::Extracted(Err(why)) => Some(why@),
        HttpEvent::Located(Err(why)) => Some(why@),
        _ => None,
    }
}

/// Whatever goes wrong with a source ends it or has it clean up, and what went wrong
/// is said; then, or once the directory is removed.
pub proof fn trouble_ends_a_source(
    before: HttpSource,
    event: HttpEvent,
    after: HttpSource,
    step: Option<HttpStep>,
)
    requires
        http_steps(before, event, after, step),
        is_reply(before.phase, event),
        source_trouble(event) is Some,
    ensures
        before.phase == HttpPhase::Base || before.phase == HttpPhase::Staging ==> after.phase
            == HttpPhase::Over && (step matches Some(HttpStep::Fail(text)) && mentions(
            text@,
            source_trouble(event)->0,
        )),
        before.phase != HttpPhase::Base && before.phase != HttpPhase::Staging ==> after.phase
            == HttpPhase::Clean && (step matches Some(HttpStep::Clean(dir)) && dir@
            == before.staging_dir@) && (after.failure matches Some(text) && mentions(
            text@,
            source_trouble(event)->0,
        )),
{
    let why = source_trouble(event)->0;
    let url = before.url.text@;
    what_is_written_is_mentioned("Failed to create HTTP download directory: "@, why, ""@);
    what_is_written_is_mentioned("Failed to create HTTP staging directory: "@, why, ""@);
    what_is_written_is_mentioned("Failed to create bundle extract directory: "@, why, ""@);
    what_is_written_is_mentioned(Seq::empty(), why, " (source: "@ + url + ")"@);
    assert(why + " (source: "@ + url + ")"@ =~= Seq::<char>::empty() + why + (" (source: "@ + url
        + ")"@));
    what_is_written_is_mentioned(Seq::empty(), why, Seq::empty());
    assert(why =~= Seq::<char>::empty() + why + Seq::<char>::empty());
}

/// Without trouble a source goes on step by step: its directories, the download, the
/// extraction of what was downloaded to where the node is looked for afterwards, and
/// the removal of the archive. It is done only with what was found there.
pub proof fn a_source_goes_on_step_by_step(
    before: HttpSource,
    event: HttpEvent,
    after: HttpSource,
    step: Option<HttpStep>,
)
    requires
        http_steps(before, event, after, step),
        source_trouble(event) is None,
    ensures
        !is_reply(before.phase, event) ==> after == before && step is None,
        after.url == before.url && after.sha256 == before.sha256 && after.staging_dir
            == before.staging_dir && after.base_dir == before.base_dir,
        is_reply(before.phase, event) ==> match before.phase {
            HttpPhase::Base => after.phase == HttpPhase::Staging && (
            step matches Some(HttpStep::Make(dir)) && dir@ == before.staging_dir@),
            HttpPhase::Staging => after.phase == HttpPhase::ExtractDir && (
            step matches Some(HttpStep::Make(dir)) && lies_in(dir@, before.staging_dir@)),
            HttpPhase::ExtractDir => after.phase == HttpPhase::Download && (
            step matches Some(HttpStep::Download { url, to, sha256 }) && url@ == before.url@
                && opt_text(sha256) == opt_text(before.sha256) && to@ == joined_path(
                before.staging_dir@,
                file_text(before.url.path@),
            )),
            HttpPhase::Download => after.phase == HttpPhase::Extract && (
            step matches Some(HttpStep::Extract { from, to }) && from@ == joined_path(
                before.staging_dir@,
                file_text(before.url.path@),
            ) && lies_in(to@, before.staging_dir@)),
            HttpPhase::Extract => after.phase == HttpPhase::RemoveBundle && (
            step matches Some(HttpStep::RemoveBundle(path)) && path@ == joined_path(
                before.staging_dir@,
                file_text(before.url.path@),
            )),
            HttpPhase::RemoveBundle => after.phase == HttpPhase::Locate && (
            step matches Some(HttpStep::Locate(dir)) && lies_in(dir@, before.staging_dir@)),
            HttpPhase::Locate => after.phase == HttpPhase::Over && (
            step matches Some(HttpStep::Done { source_path, cleanup_dir }) && event
                == HttpEvent::Located(Ok(source_path)) && cleanup_dir@ == before.staging_dir@),
            HttpPhase::Clean => after.phase == HttpPhase::Over && (
            step matches Some(HttpStep::Fail(text)) && (before.failure matches Some(why) ==> text@
                == why@)),
            HttpPhase::Over => false,
        },
{
}

/// Whether a path is that of the directory that archives are extracted to, below
/// another.
pub open spec fn lies_in(path: Seq<char>, dir: Seq<char>) -> bool {
    path == joined_path(dir, "extracted"@)
}

/// A source is taken only from a URL of HTTP or HTTPS, and its download is asked for
/// with the checksum that was given.
pub proof fn only_http_archives_are_sources(
    url: SourceUrl,
    sha256: Option<String>,
    base_dir: String,
    staging_name: &str,
    r: Result<HttpSource, String>,
)
    requires
        call_ensures(
            resolve_http_source_download_and_extract,
            (url, sha256, base_dir, staging_name),
            r,
        ),
    ensures
        r is Ok <==> (url.scheme@ == "http"@ || url.scheme@ == "https"@) && is_archive(url.path@),
        r matches Ok(source) ==> source.url == url && source.sha256 == sha256 && source.phase
            == HttpPhase::Base && source.staging_dir@ == joined_path(base_dir@, staging_name@),
        url.scheme@ != "http"@ && url.scheme@ != "https"@ ==> (r matches Err(text) && mentions(
            text@,
            url.scheme@,
        )),
{
    what_is_written_is_mentioned(
        "HTTP source URL must use http or https (got scheme '"@,
        url.scheme@,
        "')"@,
    );
}

/// A download that is asked for a checksum keeps it to the end, and begins only where
/// the checksum has the length of one; nothing has come yet when it begins.
pub proof fn a_download_keeps_its_checksum(
    url: SourceUrl,
    destination: String,
    expected_sha256: Option<&str>,
    reports: bool,
    now: Span,
    r: Result<Download, String>,
)
    requires
        can_decode(expected_sha256),
        call_ensures(
            download_http_bundle,
            (url, destination, expected_sha256, reports, now),
            r,
        ),
    ensures
        r is Err <==> (expected_sha256 matches Some(text) && encode_utf8(text@).len() != 64),
        r matches Ok(download) ==> {
            &&& download.expected is Some <==> expected_sha256 is Some
            &&& download.downloaded == 0 && collected(download.hasher) == Seq::<u8>::empty()
            &&& download.phase == DownloadPhase::Respond
            &&& download.url == url && download.destination == destination
            &&& download.expected matches Some(wanted) ==> (expected_sha256 matches Some(text)
                && wanted.0@ == text@)
        },
        forall|digest: Seq<u8>|
            #![trigger hex(digest)]
            digest.len() == 32 && (expected_sha256 matches Some(text) && text@ == hex(digest)) ==> (
            r matches Ok(download) && (download.expected matches Some(wanted) && wanted.1@
                == digest)),
{
    assert forall|digest: Seq<u8>|
        #![trigger hex(digest)]
        digest.len() == 32 && (expected_sha256 matches Some(text) && text@ == hex(digest)) implies (
    r matches Ok(download) && (download.expected matches Some(wanted) && wanted.1@ == digest)) by {
        decoding_undoes_encoding(digest);
    }
    if let Ok(download) = r {
        assert(collected(download.hasher) =~= Seq::<u8>::empty());
    }
}

} // verus!
