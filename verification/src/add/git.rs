//! Nodes from git repositories: a shallow look at the declaration, and the whole
//! repository once nothing speaks against it.
use crate::archive::{config_path_in, NODE_CONFIG_FILE};
use crate::cache::materialize::parse_failure;
use crate::git_utils::{inner_path, leads_up, sanitize_repo_path};
use crate::paths::{extension, join_path, joined_path, parent, parent_path, path_extension};
use crate::text::{
    copy_opt, lowered, mentions, opt_str, opt_text, str_eq, texts, to_lower,
    what_is_written_is_mentioned,
};
use vstd::prelude::*;
use vstd::string::*;

verus! {

/// What the URL of a repository reads as: with what is no text in it replaced,
/// and in full where all of it is text; nothing for a text that is no URL.
pub uninterp spec fn git_url_texts(text: Seq<char>) -> Option<(Seq<char>, Option<Seq<char>>)>;

/// `gix_url::parse`, and the URL's `to_bstring` as its `Display` writes it and as
/// UTF-8 text: on the Unix systems that daemons run on, functions of the text
/// alone. A URL that is text in full is written as that text.
#[verifier::external_body]
fn parse_git_url(text: &str) -> (r: Option<(String, Option<String>)>)
    ensures
        match r {
            Some(url) => git_url_texts(text@) == Some((url.0@, opt_text(url.1))) && (
            url.1 matches Some(full) ==> full@ == url.0@),
            None => git_url_texts(text@) is None,
        },
{
    match gix_url::parse(text) {
        Ok(url) => Some(
            (url.to_bstring().to_string(), String::from_utf8(url.to_bstring().into()).ok()),
        ),
        Err(_) => None,
    }
}

/// The URL of a repository.
pub struct GitUrl {
    /// The URL for people to read.
    pub shown: String,
    /// The URL, where all of it is text.
    pub text: Option<String>,
}

impl GitUrl {
    /// Reads the URL of a repository; nothing where the text is none.
    pub fn parse(text: &str) -> (r: Option<GitUrl>)
        ensures
            match r {
                Some(url) => git_url_texts(text@) == Some((url.shown@, opt_text(url.text))) && (
                url.text matches Some(full) ==> full@ == url.shown@),
                None => git_url_texts(text@) is None,
            },
    {
        match parse_git_url(text) {
            Some((shown, text)) => Some(GitUrl { shown, text }),
            None => None,
        }
    }
}

/// The names under which the look asks for a ref, in order.
pub open spec fn refspecs_of(repo_ref: Option<Seq<char>>) -> Seq<Seq<char>> {
    match repo_ref {
        Some(name) if name.len() > 0 => seq![name, "refs/heads/"@ + name, "refs/tags/"@ + name],
        _ => seq!["HEAD"@],
    }
}

/// The names under which the look asks for a ref, in order.
pub fn refspecs(repo_ref: Option<&str>) -> (r: Vec<String>)
    ensures
        texts(r@) == refspecs_of(opt_str(repo_ref)),
        r@.len() > 0,
{
    let mut out: Vec<String> = Vec::new();
    if let Some(name) = repo_ref {
        if !name.is_empty() {
            out.push(name.to_owned());
            let mut head: String = "refs/heads/".to_owned();
            head.append(name);
            out.push(head);
            let mut tag: String = "refs/tags/".to_owned();
            tag.append(name);
            out.push(tag);
            proof {
                assert(texts(out@) =~= refspecs_of(opt_str(repo_ref)));
            }
            return out;
        }
    }
    out.push("HEAD".to_owned());
    proof {
        assert(texts(out@) =~= seq!["HEAD"@]);
    }
    out
}

/// Whether a path names a declaration itself, and not the directory that holds
/// one.
pub open spec fn names_config(path: Seq<char>) -> bool {
    path_extension(path) matches Some(ext) && lowered(ext) == "json5"@
}

/// The path of the declaration that a path in a repository means.
pub open spec fn config_path_text(path: Seq<char>) -> Seq<char> {
    if names_config(path) {
        path
    } else {
        joined_path(path, NODE_CONFIG_FILE@)
    }
}

/// The path of the declaration that a path means: the path itself where it names
/// one, else the declaration in the directory.
pub fn config_path_for(path: &str) -> (r: String)
    ensures
        r@ == config_path_text(path@),
{
    let named: bool = match extension(path) {
        Some(ext) => {
            let low = to_lower(ext.as_str());
            proof {
                lemma_json5_is_low();
            }
            str_eq(low.as_str(), "json5")
        },
        None => false,
    };
    if named {
        path.to_owned()
    } else {
        config_path_in(path)
    }
}

/// The extension of a declaration is in small letters already.
proof fn lemma_json5_is_low()
    ensures
        lowered("json5"@) == "json5"@,
{
    reveal_strlit("json5");
    assert(lowered("json5"@) =~= "json5"@);
}

/// What stopped a look.
pub enum ShallowCheckError {
    /// The declaration is there and is no good: the whole repository would be no
    /// better.
    InvalidConfig(String),
    /// The look itself failed: the repository is cloned in full.
    ShallowFetchFailed(String),
}

/// How far a look got.
pub enum ProbeProblem {
    TempDir(String),
    Init(String),
    Remote(String),
    RemoteAgain(String),
    Fetch(String),
    FetchHead(String),
    Peel(String),
    Tree(String),
    NoConfig(String),
    Blob(String),
    NotUtf8,
    Parse(String),
}

/// Whether a problem says something about the declaration.
pub open spec fn is_about_config(problem: ProbeProblem) -> bool {
    problem is NoConfig || problem is NotUtf8 || problem is Parse
}

/// The text of a `ProbeProblem`.
pub open spec fn probe_text(config_path: Seq<char>, problem: ProbeProblem) -> Seq<char> {
    match problem {
        ProbeProblem::TempDir(why) => "Failed to create temp dir: "@ + why@,
        ProbeProblem::Init(why) => "Failed to init bare repo: "@ + why@,
        ProbeProblem::Remote(why) => "Failed to create remote: "@ + why@,
        ProbeProblem::RemoteAgain(why) => "Failed to recreate remote: "@ + why@,
        ProbeProblem::Fetch(why) => "shallow fetch failed: "@ + why@,
        ProbeProblem::FetchHead(why) => "Failed to find FETCH_HEAD: "@ + why@,
        ProbeProblem::Peel(why) => "Failed to peel to commit: "@ + why@,
        ProbeProblem::Tree(why) => "Failed to get tree: "@ + why@,
        ProbeProblem::NoConfig(why) => "Config file '"@ + config_path + "' not found in repository: "@
            + why@,
        ProbeProblem::Blob(why) => "Failed to read config blob: "@ + why@,
        ProbeProblem::NotUtf8 => "peppy.json5 is not valid UTF-8"@,
        ProbeProblem::Parse(why) => "Failed to parse node config at "@ + config_path + ": "@ + why@,
    }
}

/// Two texts in a row.
fn pair(a: &str, b: &str) -> (r: String)
    ensures
        r@ == a@ + b@,
{
    let mut text: String = a.to_owned();
    text.append(b);
    text
}

/// What stopped a look, with its text.
pub fn probe_failure(config_path: &str, problem: &ProbeProblem) -> (r: ShallowCheckError)
    ensures
        match r {
            ShallowCheckError::InvalidConfig(text) => is_about_config(*problem) && text@
                == probe_text(config_path@, *problem),
            ShallowCheckError::ShallowFetchFailed(text) => !is_about_config(*problem) && text@
                == probe_text(config_path@, *problem),
        },
{
    match problem {
        ProbeProblem::NoConfig(why) => {
            let mut text: String = "Config file '".to_owned();
            text.append(config_path);
            text.append("' not found in repository: ");
            text.append(why.as_str());
            ShallowCheckError::InvalidConfig(text)
        },
        ProbeProblem::NotUtf8 => ShallowCheckError::InvalidConfig(
            "peppy.json5 is not valid UTF-8".to_owned(),
        ),
        ProbeProblem::Parse(why) => ShallowCheckError::InvalidConfig(
            parse_failure(config_path, why.as_str()),
        ),
        ProbeProblem::TempDir(why) => ShallowCheckError::ShallowFetchFailed(
            pair("Failed to create temp dir: ", why.as_str()),
        ),
        ProbeProblem::Init(why) => ShallowCheckError::ShallowFetchFailed(
            pair("Failed to init bare repo: ", why.as_str()),
        ),
        ProbeProblem::Remote(why) => ShallowCheckError::ShallowFetchFailed(
            pair("Failed to create remote: ", why.as_str()),
        ),
        ProbeProblem::RemoteAgain(why) => ShallowCheckError::ShallowFetchFailed(
            pair("Failed to recreate remote: ", why.as_str()),
        ),
        ProbeProblem::Fetch(why) => ShallowCheckError::ShallowFetchFailed(
            pair("shallow fetch failed: ", why.as_str()),
        ),
        ProbeProblem::FetchHead(why) => ShallowCheckError::ShallowFetchFailed(
            pair("Failed to find FETCH_HEAD: ", why.as_str()),
        ),
        ProbeProblem::Peel(why) => ShallowCheckError::ShallowFetchFailed(
            pair("Failed to peel to commit: ", why.as_str()),
        ),
        ProbeProblem::Tree(why) => ShallowCheckError::ShallowFetchFailed(
            pair("Failed to get tree: ", why.as_str()),
        ),
        ProbeProblem::Blob(why) => ShallowCheckError::ShallowFetchFailed(
            pair("Failed to read config blob: ", why.as_str()),
        ),
    }
}

/// The tries of a look's fetch.
pub struct ProbeFetch {
    pub refspecs: Vec<String>,
    pub at: usize,
}

/// What follows a try.
pub enum FetchStep {
    /// Ask under this name.
    Try(String),
    /// The ref is here.
    Fetched,
    /// No name worked, and why the last one did not.
    GiveUp(String),
}

impl ProbeFetch {
    /// The tries for a ref, and the first of them.
    pub fn new(repo_ref: Option<&str>) -> (r: (Self, String))
        ensures
            texts(r.0.refspecs@) == refspecs_of(opt_str(repo_ref)),
            r.0.at == 0,
            r.0.refspecs@.len() > 0,
            r.1@ == refspecs_of(opt_str(repo_ref))[0],
    {
        let refspecs = refspecs(repo_ref);
        proof {
            assert(texts(refspecs@)[0] == refspecs@[0]@);
        }
        let first = refspecs[0].clone();
        (ProbeFetch { refspecs, at: 0 }, first)
    }

    /// What follows a try: the next name, as long as there is one.
    pub fn tried(&mut self, result: Result<(), String>) -> (r: FetchStep)
        requires
            old(self).at < old(self).refspecs.len(),
        ensures
            final(self).refspecs == old(self).refspecs,
            match result {
                Ok(_) => r is Fetched && final(self).at == old(self).at,
                Err(why) => if old(self).at + 1 < old(self).refspecs@.len() {
                    final(self).at == old(self).at + 1 && (r matches FetchStep::Try(name) && name@
                        == old(self).refspecs@[old(self).at + 1]@)
                } else {
                    final(self).at == old(self).at && (r matches FetchStep::GiveUp(told) && told@
                        == why@)
                },
            },
    {
        match result {
            Ok(_) => FetchStep::Fetched,
            Err(why) => {
                if self.at + 1 < self.refspecs.len() {
                    self.at = self.at + 1;
                    FetchStep::Try(self.refspecs[self.at].clone())
                } else {
                    FetchStep::GiveUp(why)
                }
            },
        }
    }
}

/// What the resolution of a git source waits for.
#[derive(Clone, Copy, Debug, PartialEq, Eq, Structural)]
pub enum GitPhase {
    Probe,
    TempDir,
    Clone,
    Parse,
    Over,
}

/// What came of the step that a resolution waits for.
pub enum GitEvent {
    /// What the look came to, or why its task did not come back.
    Probed(Result<Result<(), ShallowCheckError>, String>),
    /// The directory for the clone.
    TempDirMade(Result<String, String>),
    /// What the clone came to, or why its task did not come back.
    Cloned(Result<Result<(), String>, String>),
    Parsed(Result<(), String>),
}

/// What a resolution does next.
pub enum GitAction {
    /// Look at the declaration at this path in the repository, at this ref.
    Probe { url: String, repo_ref: Option<String>, config_path: String },
    /// Make a directory for the clone.
    MakeTempDir,
    /// Clone the repository in full into this directory, at this ref.
    Clone { url: String, repo_ref: Option<String>, dir: String },
    /// Parse the declaration at this path.
    Parse(String),
    /// The node is in `root`; `checkout` is removed once it is copied.
    Resolved { root: String, checkout: String },
    /// Remove the clone, where there is one to remove, and refuse; the text goes
    /// to the error stream first where `told` says so.
    Fail { remove: Option<String>, told: bool, text: String },
}

/// What a resolution does next, and the line for the feedback before it.
pub struct GitStep {
    pub line: Option<String>,
    pub action: GitAction,
}

/// The resolution of one git source.
pub struct GitSource {
    pub url: String,
    pub repo_ref: Option<String>,
    /// The path in the repository.
    pub path: String,
    /// The directory of the clone, once there is one.
    pub checkout: Option<String>,
    pub phase: GitPhase,
}

/// The declaration's path in a clone.
pub open spec fn cloned_config(checkout: Seq<char>, path: Seq<char>) -> Seq<char> {
    config_path_text(joined_path(checkout, path))
}

/// Whether a step is a failure with this text, without a line.
pub open spec fn fails(
    step: GitStep,
    remove: Option<Seq<char>>,
    told: bool,
    text: Seq<char>,
) -> bool {
    step.line is None && (step.action matches GitAction::Fail { remove: dir, told: t, text: why }
        && t == told && why@ == text && (match dir {
        Some(path) => remove == Some(path@),
        None => remove is None,
    }))
}

/// Whether an event leads a resolution from one state to another, with this
/// step.
pub open spec fn git_steps(
    before: GitSource,
    event: GitEvent,
    after: GitSource,
    step: Option<GitStep>,
) -> bool {
    &&& after.url == before.url
    &&& after.repo_ref == before.repo_ref
    &&& after.path == before.path
    &&& match (before.phase, event) {
        (GitPhase::Probe, GitEvent::Probed(result)) => step matches Some(s) && after.checkout
            == before.checkout && match result {
            Err(why) => after.phase == GitPhase::Over && fails(
                s,
                None,
                false,
                "Failed to join shallow probe task: "@ + why@,
            ),
            Ok(Err(ShallowCheckError::InvalidConfig(text))) => after.phase == GitPhase::Over
                && fails(s, None, false, text@),
            Ok(Err(ShallowCheckError::ShallowFetchFailed(why))) => after.phase == GitPhase::TempDir
                && s.action == GitAction::MakeTempDir && (s.line matches Some(line) && line@
                == "Shallow probe unavailable ("@ + why@ + "), proceeding with full clone"@),
            Ok(Ok(_)) => after.phase == GitPhase::TempDir && s.action == GitAction::MakeTempDir
                && s.line is None,
        },
        (GitPhase::TempDir, GitEvent::TempDirMade(result)) => step matches Some(s) && match result {
            Err(why) => after.phase == GitPhase::Over && after.checkout == before.checkout && fails(
                s,
                None,
                false,
                "Failed to create temporary directory: "@ + why@,
            ),
            Ok(dir) => after.phase == GitPhase::Clone && (after.checkout matches Some(kept) && kept@
                == dir@) && s.line is None && (s.action matches GitAction::Clone {
                url,
                repo_ref,
                dir: into,
            } && url@ == before.url@ && opt_text(repo_ref) == opt_text(before.repo_ref) && into@
                == dir@),
        },
        (GitPhase::Clone, GitEvent::Cloned(result)) => step matches Some(s) && after.checkout
            == before.checkout && match result {
            Err(why) => after.phase == GitPhase::Over && fails(
                s,
                None,
                false,
                "Failed to join git clone task: "@ + why@,
            ),
            Ok(Err(why)) => after.phase == GitPhase::Over && fails(
                s,
                Some(before.checkout->0@),
                false,
                why@,
            ),
            Ok(Ok(_)) => {
                let config = cloned_config(before.checkout->0@, before.path@);
                if parent_path(config) is Some {
                    after.phase == GitPhase::Parse && s.line is None && (
                    s.action matches GitAction::Parse(at) && at@ == config)
                } else {
                    after.phase == GitPhase::Over && fails(
                        s,
                        None,
                        false,
                        "Invalid repo_path: node config has no parent directory"@,
                    )
                }
            },
        },
        (GitPhase::Parse, GitEvent::Parsed(result)) => step matches Some(s) && after.checkout
            == before.checkout && after.phase == GitPhase::Over && ({
            let config = cloned_config(before.checkout->0@, before.path@);
            match result {
                Err(why) => fails(
                    s,
                    Some(before.checkout->0@),
                    true,
                    "Failed to parse node config at "@ + config + ": "@ + why@,
                ),
                Ok(_) => s.line is None && (s.action matches GitAction::Resolved { root, checkout }
                    && parent_path(config) == Some(root@) && checkout@ == before.checkout->0@),
            }
        }),
        _ => after == before && step is None,
    }
}

/// A step without a line.
fn quietly(action: GitAction) -> (r: Option<GitStep>)
    ensures
        r == Some(GitStep { line: None, action }),
{
    Some(GitStep { line: None, action })
}

impl GitSource {
    /// Whether the clone's directory is known once there is one, and the
    /// declaration in it has a directory once it is parsed.
    pub open spec fn valid(self) -> bool {
        &&& self.phase == GitPhase::Clone || self.phase == GitPhase::Parse
            ==> self.checkout is Some
        &&& self.phase == GitPhase::Parse ==> parent_path(
            cloned_config(self.checkout->0@, self.path@),
        ) is Some
    }

    /// The resolution of a source at its beginning, with its first step: a look
    /// at the declaration; or why the source is refused.
    pub fn new(repo_path: &str, repo_url: &GitUrl, repo_ref: Option<String>) -> (r: Result<
        (Self, GitStep),
        String,
    >)
        ensures
            match r {
                Ok((source, step)) => repo_url.text is Some && source.url@ == repo_url.text->0@
                    && source.repo_ref == repo_ref && source.path@ == inner_path(repo_path@)
                    && source.path@.len() > 0 && !leads_up(source.path@) && source.checkout is None
                    && source.phase == GitPhase::Probe && source.valid() && (
                step.line matches Some(line) && line@ == "Checking node config..."@) && (
                step.action matches GitAction::Probe { url, repo_ref: name, config_path } && url@
                    == repo_url.text->0@ && opt_text(name) == opt_text(repo_ref) && config_path@
                    == config_path_text(inner_path(repo_path@))),
                Err(text) => {
                    let path = inner_path(repo_path@);
                    if path.len() == 0 {
                        text@ == "repo_path must not be empty"@
                    } else if leads_up(path) {
                        text@ == "repo_path must not contain '..'"@
                    } else {
                        repo_url.text is None && text@ == "repo_url must be valid UTF-8"@
                    }
                },
            },
    {
        match sanitize_repo_path(repo_path) {
            Err(text) => Err(text),
            Ok(path) => {
                let url: String = match &repo_url.text {
                    Some(text) => text.clone(),
                    None => {
                        return Err("repo_url must be valid UTF-8".to_owned());
                    },
                };
                let probe = GitAction::Probe {
                    url: url.clone(),
                    repo_ref: copy_opt(&repo_ref),
                    config_path: config_path_for(path.as_str()),
                };
                Ok(
                    (
                        GitSource { url, repo_ref, path, checkout: None, phase: GitPhase::Probe },
                        GitStep { line: Some("Checking node config...".to_owned()), action: probe },
                    ),
                )
            },
        }
    }

    /// Takes what came of the last step and gives the next one; `None`, and no
    /// change, where the resolution waits for something else.
    #[verifier::rlimit(60)]
    pub fn step(&mut self, event: GitEvent) -> (r: Option<GitStep>)
        requires
            old(self).valid(),
        ensures
            final(self).valid(),
            git_steps(*old(self), event, *final(self), r),
    {
        match (self.phase, event) {
            (GitPhase::Probe, GitEvent::Probed(result)) => match result {
                Err(why) => {
                    self.phase = GitPhase::Over;
                    quietly(
                        GitAction::Fail {
                            remove: None,
                            told: false,
                            text: pair("Failed to join shallow probe task: ", why.as_str()),
                        },
                    )
                },
                Ok(looked) => match looked {
                    Err(ShallowCheckError::InvalidConfig(text)) => {
                        self.phase = GitPhase::Over;
                        quietly(GitAction::Fail { remove: None, told: false, text })
                    },
                    Err(ShallowCheckError::ShallowFetchFailed(why)) => {
                        let mut line: String = "Shallow probe unavailable (".to_owned();
                        line.append(why.as_str());
                        line.append("), proceeding with full clone");
                        self.phase = GitPhase::TempDir;
                        Some(GitStep { line: Some(line), action: GitAction::MakeTempDir })
                    },
                    Ok(_) => {
                        self.phase = GitPhase::TempDir;
                        quietly(GitAction::MakeTempDir)
                    },
                },
            },
            (GitPhase::TempDir, GitEvent::TempDirMade(result)) => match result {
                Err(why) => {
                    self.phase = GitPhase::Over;
                    quietly(
                        GitAction::Fail {
                            remove: None,
                            told: false,
                            text: pair("Failed to create temporary directory: ", why.as_str()),
                        },
                    )
                },
                Ok(dir) => {
                    self.checkout = Some(dir.clone());
                    self.phase = GitPhase::Clone;
                    quietly(
                        GitAction::Clone {
                            url: self.url.clone(),
                            repo_ref: copy_opt(&self.repo_ref),
                            dir,
                        },
                    )
                },
            },
            (GitPhase::Clone, GitEvent::Cloned(result)) => {
                let checkout: String = match &self.checkout {
                    Some(dir) => dir.clone(),
                    None => String::new(),
                };
                match result {
                    Err(why) => {
                        self.phase = GitPhase::Over;
                        quietly(
                            GitAction::Fail {
                                remove: None,
                                told: false,
                                text: pair("Failed to join git clone task: ", why.as_str()),
                            },
                        )
                    },
                    Ok(Err(why)) => {
                        self.phase = GitPhase::Over;
                        quietly(
                            GitAction::Fail { remove: Some(checkout), told: false, text: why },
                        )
                    },
                    Ok(Ok(_)) => {
                        let config = config_path_for(
                            join_path(checkout.as_str(), self.path.as_str()).as_str(),
                        );
                        if parent(config.as_str()).is_none() {
                            self.phase = GitPhase::Over;
                            return quietly(
                                GitAction::Fail {
                                    remove: None,
                                    told: false,
                                    text: "Invalid repo_path: node config has no parent directory".to_owned(),
                                },
                            );
                        }
                        self.phase = GitPhase::Parse;
                        quietly(GitAction::Parse(config))
                    },
                }
            },
            (GitPhase::Parse, GitEvent::Parsed(result)) => {
                let checkout: String = match &self.checkout {
                    Some(dir) => dir.clone(),
                    None => String::new(),
                };
                let config = config_path_for(
                    join_path(checkout.as_str(), self.path.as_str()).as_str(),
                );
                self.phase = GitPhase::Over;
                match result {
                    Err(why) => quietly(
                        GitAction::Fail {
                            remove: Some(checkout),
                            told: true,
                            text: parse_failure(config.as_str(), why.as_str()),
                        },
                    ),
                    Ok(_) => {
                        let root: String = match parent(config.as_str()) {
                            Some(dir) => dir,
                            None => String::new(),
                        };
                        quietly(GitAction::Resolved { root, checkout })
                    },
                }
            },
            _ => None,
        }
    }
}

/// A look that fails for reasons of its own never refuses a source: only what it
/// finds wrong with the declaration does.
pub proof fn a_failed_look_refuses_nothing(
    before: GitSource,
    why: String,
    after: GitSource,
    step: Option<GitStep>,
)
    requires
        before.phase == GitPhase::Probe,
        git_steps(
            before,
            GitEvent::Probed(Ok(Err(ShallowCheckError::ShallowFetchFailed(why)))),
            after,
            step,
        ),
    ensures
        step matches Some(s) && s.action == GitAction::MakeTempDir,
{
}

/// A call of `step` leads a resolution as `git_steps` says.
pub proof fn a_call_steps_the_resolution(source: &mut GitSource, event: GitEvent, r: Option<GitStep>)
    requires
        call_ensures(GitSource::step, (source, event), r),
    ensures
        git_steps(*old(source), event, *final(source), r),
        final(source).valid(),
{
}

/// Why an event refuses a source, where it does. A look that failed for reasons of its
/// own does not.
pub open spec fn git_trouble(phase: GitPhase, event: GitEvent) -> Option<Seq<char>> {
    match (phase, event) {
        (GitPhase::Probe, GitEvent::Probed(Err(why))) => Some(why@),
        (GitPhase::Probe, GitEvent::Probed(Ok(Err(ShallowCheckError::InvalidConfig(why))))) => Some(
            why@,
        ),
        (GitPhase::TempDir, GitEvent::TempDirMade(Err(why))) => Some(why@),
        (GitPhase::Clone, GitEvent::Cloned(Err(why))) => Some(why@),
        (GitPhase::Clone, GitEvent::Cloned(Ok(Err(why)))) => Some(why@),
        (GitPhase::Parse, GitEvent::Parsed(Err(why))) => Some(why@),
        _ => None,
    }
}

/// Whatever goes wrong with a git source refuses it, with the reason. A clone that
/// failed or that holds no good declaration is removed.
pub proof fn trouble_refuses_a_git_source(
    before: GitSource,
    event: GitEvent,
    after: GitSource,
    step: Option<GitStep>,
)
    requires
        before.valid(),
        git_steps(before, event, after, step),
        git_trouble(before.phase, event) is Some,
    ensures
        after.phase == GitPhase::Over,
        step matches Some(s) && (s.action matches GitAction::Fail { remove, text, .. } && mentions(
            text@,
            git_trouble(before.phase, event)->0,
        ) && (before.phase == GitPhase::Parse || (event matches GitEvent::Cloned(Ok(_))) ==> (
        remove matches Some(dir) && (before.checkout matches Some(made) && dir@ == made@)))),
{
    let why = git_trouble(before.phase, event)->0;
    what_is_written_is_mentioned("Failed to join shallow probe task: "@, why, ""@);
    what_is_written_is_mentioned("Failed to create temporary directory: "@, why, ""@);
    what_is_written_is_mentioned("Failed to join git clone task: "@, why, ""@);
    let config = cloned_config(before.checkout->0@, before.path@);
    what_is_written_is_mentioned("Failed to parse node config at "@ + config + ": "@, why, ""@);
}

/// Without trouble a git source is looked at, cloned in full at its ref and parsed; it
/// is resolved only once its declaration parsed, to the directory of that declaration
/// in the clone.
pub proof fn a_git_source_is_resolved_once_it_parsed(
    before: GitSource,
    event: GitEvent,
    after: GitSource,
    step: Option<GitStep>,
)
    requires
        before.valid(),
        git_steps(before, event, after, step),
        git_trouble(before.phase, event) is None,
    ensures
        after.url == before.url && after.repo_ref == before.repo_ref && after.path == before.path,
        before.phase == GitPhase::Probe && event is Probed ==> after.phase == GitPhase::TempDir && (
        step matches Some(s) && s.action == GitAction::MakeTempDir),
        before.phase == GitPhase::TempDir ==> (event matches GitEvent::TempDirMade(Ok(made)) ==> (
        after.phase == GitPhase::Clone && opt_text(after.checkout) == Some(made@) && (
        step matches Some(s) && (s.action matches GitAction::Clone { url, repo_ref, dir } && url@
            == before.url@ && opt_text(repo_ref) == opt_text(before.repo_ref) && dir@ == made@)))),
        step matches Some(s) ==> (s.action matches GitAction::Parse(at) ==> before.phase
            == GitPhase::Clone && (event matches GitEvent::Cloned(Ok(Ok(_)))) && after.phase
            == GitPhase::Parse),
        before.phase == GitPhase::Clone && event is Cloned ==> (step matches Some(s) && (
        s.action is Parse || s.action is Fail)),
        step matches Some(s) ==> (s.action matches GitAction::Resolved { root, checkout } ==> {
            &&& before.phase == GitPhase::Parse && (event matches GitEvent::Parsed(Ok(_)))
            &&& after.phase == GitPhase::Over
            &&& before.checkout matches Some(made) && checkout@ == made@
            &&& root@ == parent_path(cloned_config(before.checkout->0@, before.path@))->0
        }),
        before.phase == GitPhase::Parse && event is Parsed ==> (step matches Some(s)
            && s.action is Resolved),
        before.phase == GitPhase::Over ==> after == before && step is None,
{
}

/// A source is refused before anything is done where its path is empty or leads up, or
/// its URL is no text; else the declaration is looked at, at the ref that is asked for.
pub proof fn only_a_path_that_stays_inside_is_looked_at(
    repo_path: &str,
    repo_url: GitUrl,
    repo_ref: Option<String>,
    r: Result<(GitSource, GitStep), String>,
)
    requires
        call_ensures(GitSource::new, (repo_path, &repo_url, repo_ref), r),
    ensures
        r is Ok ==> inner_path(repo_path@).len() > 0 && !leads_up(inner_path(repo_path@))
            && repo_url.text is Some,
        inner_path(repo_path@).len() > 0 && !leads_up(inner_path(repo_path@)) && repo_url.text is Some
            ==> r is Ok,
        r matches Ok((source, step)) ==> source.phase == GitPhase::Probe && opt_text(repo_url.text)
            == Some(source.url@) && (step.action matches GitAction::Probe { url, repo_ref: name, .. }
            && Some(url@) == opt_text(repo_url.text) && opt_text(name) == opt_text(repo_ref)),
{
}

/// A look asks for a ref under its own name first, then as a branch, then as a tag; and
/// for the head where no ref is asked for.
pub proof fn a_ref_is_asked_for_as_branch_and_tag(repo_ref: Option<&str>, r: Vec<String>)
    requires
        call_ensures(refspecs, (repo_ref,), r),
    ensures
        repo_ref matches Some(name) && name@.len() > 0 ==> r@.len() == 3 && (
        repo_ref matches Some(name) && r@[0]@ == name@ && r@[1]@ == "refs/heads/"@ + name@
            && r@[2]@ == "refs/tags/"@ + name@),
        !(repo_ref matches Some(name) && name@.len() > 0) ==> r@.len() == 1 && r@[0]@ == "HEAD"@,
{
    assert(texts(r@).len() == r@.len());
    if repo_ref matches Some(name) && name@.len() > 0 {
        assert(texts(r@)[0] == r@[0]@ && texts(r@)[1] == r@[1]@ && texts(r@)[2] == r@[2]@);
    } else {
        assert(texts(r@)[0] == r@[0]@);
    }
}

/// Every name is tried in turn until one works: a look gives up only at the last one,
/// and is content with the first that works.
pub proof fn every_name_is_tried(fetch: &mut ProbeFetch, result: Result<(), String>, r: FetchStep)
    requires
        old(fetch).at < old(fetch).refspecs@.len(),
        call_ensures(ProbeFetch::tried, (fetch, result), r),
    ensures
        r is Fetched <==> result is Ok,
        r is GiveUp <==> result is Err && old(fetch).at + 1 == old(fetch).refspecs@.len(),
        r matches FetchStep::Try(name) ==> final(fetch).at == old(fetch).at + 1 && name@
            == old(fetch).refspecs@[final(fetch).at as int]@,
        r matches FetchStep::GiveUp(why) ==> (result matches Err(told) && why@ == told@),
{
}

/// What stops a look says why, and refuses the source only where it is about the
/// declaration: one that is missing, no text, or does not parse.
pub proof fn only_a_bad_declaration_refuses(
    config_path: &str,
    problem: ProbeProblem,
    r: ShallowCheckError,
)
    requires
        call_ensures(probe_failure, (config_path, &problem), r),
    ensures
        r is InvalidConfig <==> match problem {
            ProbeProblem::NoConfig(_) | ProbeProblem::NotUtf8 | ProbeProblem::Parse(_) => true,
            _ => false,
        },
        problem matches ProbeProblem::NoConfig(why) ==> (r matches ShallowCheckError::InvalidConfig(
            text,
        ) && mentions(text@, why@) && mentions(text@, config_path@)),
        problem matches ProbeProblem::Parse(why) ==> (r matches ShallowCheckError::InvalidConfig(
            text,
        ) && mentions(text@, why@) && mentions(text@, config_path@)),
        problem matches ProbeProblem::Fetch(why) ==> (
        r matches ShallowCheckError::ShallowFetchFailed(text) && mentions(text@, why@)),
{
    let path = config_path@;
    if let ProbeProblem::NoConfig(why) = problem {
        let mid = "' not found in repository: "@;
        what_is_written_is_mentioned("Config file '"@ + path + mid, why@, ""@);
        what_is_written_is_mentioned("Config file '"@, path, mid + why@);
        assert("Config file '"@ + path + mid + why@ =~= "Config file '"@ + path + (mid + why@));
    }
    if let ProbeProblem::Parse(why) = problem {
        let head = "Failed to parse node config at "@;
        what_is_written_is_mentioned(head + path + ": "@, why@, ""@);
        what_is_written_is_mentioned(head, path, ": "@ + why@);
        assert(head + path + ": "@ + why@ =~= head + path + (": "@ + why@));
    }
    if let ProbeProblem::Fetch(why) = problem {
        what_is_written_is_mentioned("shallow fetch failed: "@, why@, ""@);
    }
}

} // verus!
