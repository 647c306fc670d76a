//! The cache of git checkouts, one for each ref of each repository. A checkout
//! that is there is brought up to date; one that is not is cloned.
use crate::cache::key::{hash_text, hashed_bytes, short_hash, slug, slug_of};
use crate::git_utils::{checkout_failure, clone_failure, fetches_shallowly, is_local};
use crate::paths::{join_path, joined_path, parent, parent_path};
use crate::text::{hex, mentions, opt_str, opt_text, to_hex, what_is_written_is_mentioned};
use crate::digest::sha256;
use vstd::prelude::*;
use vstd::string::*;
use vstd::utf8::*;

verus! {

/// The readable beginning of a checkout's name.
pub fn url_slug(repo_url: &str) -> (r: String)
    ensures
        r@ == slug_of(repo_url@, "repo"@),
{
    slug(repo_url, "repo")
}

/// The hash in a checkout's name: it tells the refs of one repository apart.
pub fn cache_hash(repo_url: &str, repo_ref: Option<&str>) -> (r: String)
    ensures
        r@ == hash_text(repo_url@, opt_str(repo_ref)),
{
    short_hash(repo_url, repo_ref)
}

/// Bytes as hexadecimal digits.
pub fn hex_short(bytes: &[u8]) -> (r: String)
    ensures
        r@ == hex(bytes@),
{
    to_hex(bytes)
}

/// Where the checkout of a ref lives.
pub open spec fn checkout_path(
    checkouts_dir: Seq<char>,
    repo_url: Seq<char>,
    repo_ref: Option<Seq<char>>,
) -> Seq<char> {
    joined_path(
        checkouts_dir,
        slug_of(repo_url, "repo"@) + "-"@ + hash_text(repo_url, repo_ref),
    )
}

/// Where the checkout of a ref lives, whether or not it is there.
pub fn checkout_dir_for(checkouts_dir: &str, repo_url: &str, repo_ref: Option<&str>) -> (r: String)
    ensures
        r@ == checkout_path(checkouts_dir@, repo_url@, opt_str(repo_ref)),
{
    let mut name = url_slug(repo_url);
    name.append("-");
    name.append(cache_hash(repo_url, repo_ref).as_str());
    join_path(checkouts_dir, name.as_str())
}

/// Whether a directory looks like a working tree: whether its `.git` is there.
/// `is_there` tells whether a path is.
pub fn is_populated<F: Fn(&str) -> bool>(dir: &str, is_there: F) -> (r: bool)
    requires
        forall|path: &str| #[trigger] is_there.requires((path,)),
    ensures
        exists|path: &str|
            path@ == joined_path(dir@, ".git"@) && #[trigger] is_there.ensures((path,), r),
{
    let path = join_path(dir, ".git");
    is_there(path.as_str())
}

/// The ref that is fetched for a checkout.
pub open spec fn fetched_text(repo_ref: Option<Seq<char>>) -> Seq<char> {
    match repo_ref {
        Some(name) => name,
        None => "HEAD"@,
    }
}

/// The ref that is fetched for a checkout.
pub fn fetched_ref(repo_ref: Option<&str>) -> (r: String)
    ensures
        r@ == fetched_text(opt_str(repo_ref)),
{
    match repo_ref {
        Some(name) => name.to_owned(),
        None => "HEAD".to_owned(),
    }
}

/// The failure to open a checkout that is there.
pub fn open_failure(dir: &str, why: &str) -> (r: String)
    ensures
        r@ == "Failed to open cached checkout at "@ + dir@ + ": "@ + why@,
{
    let mut text: String = "Failed to open cached checkout at ".to_owned();
    text.append(dir);
    text.append(": ");
    text.append(why);
    text
}

/// The line about a fetch that failed: the working tree that is there is used.
pub fn fetch_line(why: &str) -> (r: String)
    ensures
        r@ == "Fetch for cached checkout failed ("@ + why@ + "); using existing working tree"@,
{
    let mut line: String = "Fetch for cached checkout failed (".to_owned();
    line.append(why);
    line.append("); using existing working tree");
    line
}

/// The failure to make the directory that checkouts are in.
pub fn parent_failure(parent: &str, why: &str) -> (r: String)
    ensures
        r@ == "Failed to create git_checkouts parent "@ + parent@ + ": "@ + why@,
{
    let mut text: String = "Failed to create git_checkouts parent ".to_owned();
    text.append(parent);
    text.append(": ");
    text.append(why);
    text
}

/// What a checkout waits for.
#[derive(Clone, Copy, Debug, PartialEq, Eq, Structural)]
pub enum CheckoutPhase {
    /// The directory that checkouts are in.
    Parent,
    /// The look at what is there.
    Look,
    /// The removal of what is in the way.
    Wipe,
    Clone,
    Open,
    Fetch,
    Checkout,
    Over,
}

/// What came of the step that a checkout waits for.
pub enum CheckoutEvent {
    ParentMade(Result<(), String>),
    /// Whether the directory is a working tree, and whether it is there at all.
    Looked { populated: bool, present: bool },
    Wiped,
    Cloned(Result<(), String>),
    Opened(Result<(), String>),
    Fetched(Result<(), String>),
    CheckedOut(Result<(), String>),
}

/// What a checkout does next.
pub enum CheckoutStep {
    Look,
    /// Remove the directory; that it fails does not matter.
    Wipe,
    /// Announce the clone and clone into the directory.
    Clone { announced: String, shallow: bool },
    /// Announce the reuse and open what is there.
    Open { announced: String },
    Fetch { refspec: String, shallow: bool },
    /// Check this ref out, once the line is told.
    Checkout { line: Option<String>, name: String },
    /// The checkout is there, once the line is told.
    Done { line: Option<String> },
    Fail(String),
}

/// The checkout of a ref into the cache.
pub struct EnsureCheckout {
    pub dir: String,
    pub repo_url: String,
    pub repo_ref: Option<String>,
    pub phase: CheckoutPhase,
}

/// Whether a step checks the ref out, or is done where none is asked for.
pub open spec fn goes_to_ref(
    run: EnsureCheckout,
    after: CheckoutPhase,
    step: Option<CheckoutStep>,
    told: Option<Seq<char>>,
) -> bool {
    match run.repo_ref {
        Some(wanted) => after == CheckoutPhase::Checkout && (step matches Some(
            CheckoutStep::Checkout { line, name },
        ) && name@ == wanted@ && opt_text(line) == told),
        None => after == CheckoutPhase::Over && (step matches Some(CheckoutStep::Done { line })
            && opt_text(line) == told),
    }
}

/// Whether a step is a failure with this text.
pub open spec fn fails(
    after: CheckoutPhase,
    step: Option<CheckoutStep>,
    text: Seq<char>,
) -> bool {
    after == CheckoutPhase::Over && (step matches Some(CheckoutStep::Fail(told)) && told@ == text)
}

/// How a checkout goes on.
pub open spec fn checkout_steps(
    before: EnsureCheckout,
    event: CheckoutEvent,
    after: EnsureCheckout,
    step: Option<CheckoutStep>,
) -> bool {
    &&& after.dir == before.dir
    &&& after.repo_url == before.repo_url
    &&& after.repo_ref == before.repo_ref
    &&& match (before.phase, event) {
        (CheckoutPhase::Parent, CheckoutEvent::ParentMade(Ok(_))) => after.phase
            == CheckoutPhase::Look && step == Some(CheckoutStep::Look),
        (CheckoutPhase::Parent, CheckoutEvent::ParentMade(Err(why))) => fails(
            after.phase,
            step,
            "Failed to create git_checkouts parent "@ + parent_text(before.dir@) + ": "@ + why@,
        ),
        (CheckoutPhase::Look, CheckoutEvent::Looked { populated, present }) => if populated {
            after.phase == CheckoutPhase::Open && (step matches Some(
                CheckoutStep::Open { announced },
            ) && announced@ == "Reusing cached checkout at "@ + before.dir@)
        } else if present {
            after.phase == CheckoutPhase::Wipe && step == Some(CheckoutStep::Wipe)
        } else {
            after.phase == CheckoutPhase::Clone && clones(before, step)
        },
        (CheckoutPhase::Wipe, CheckoutEvent::Wiped) => after.phase == CheckoutPhase::Clone
            && clones(before, step),
        (CheckoutPhase::Clone, CheckoutEvent::Cloned(Ok(_))) => goes_to_ref(
            before,
            after.phase,
            step,
            None,
        ),
        (CheckoutPhase::Clone, CheckoutEvent::Cloned(Err(why))) => fails(
            after.phase,
            step,
            "Failed to clone "@ + before.repo_url@ + ": "@ + why@,
        ),
        (CheckoutPhase::Open, CheckoutEvent::Opened(Ok(_))) => after.phase == CheckoutPhase::Fetch
            && (step matches Some(CheckoutStep::Fetch { refspec, shallow }) && refspec@
            == fetched_text(opt_text(before.repo_ref)) && shallow == !is_local(before.repo_url@)),
        (CheckoutPhase::Open, CheckoutEvent::Opened(Err(why))) => fails(
            after.phase,
            step,
            "Failed to open cached checkout at "@ + before.dir@ + ": "@ + why@,
        ),
        (CheckoutPhase::Fetch, CheckoutEvent::Fetched(fetched)) => goes_to_ref(
            before,
            after.phase,
            step,
            match fetched {
                Ok(_) => None,
                Err(why) => Some(
                    "Fetch for cached checkout failed ("@ + why@
                        + "); using existing working tree"@,
                ),
            },
        ),
        (CheckoutPhase::Checkout, CheckoutEvent::CheckedOut(Ok(_))) => after.phase
            == CheckoutPhase::Over && step == Some(CheckoutStep::Done { line: None }),
        (CheckoutPhase::Checkout, CheckoutEvent::CheckedOut(Err(why))) => fails(
            after.phase,
            step,
            "Failed to checkout ref '"@ + (match before.repo_ref {
                Some(name) => name@,
                None => "HEAD"@,
            }) + "': "@ + why@,
        ),
        _ => after == before && step is None,
    }
}

/// The directory that a checkout is in, as messages write it.
pub open spec fn parent_text(dir: Seq<char>) -> Seq<char> {
    match parent_path(dir) {
        Some(parent) => parent,
        None => ""@,
    }
}

/// Whether a step clones.
pub open spec fn clones(run: EnsureCheckout, step: Option<CheckoutStep>) -> bool {
    step matches Some(CheckoutStep::Clone { announced, shallow }) && announced@ == "Cloning "@
        + run.repo_url@ + " into cache at "@ + run.dir@ && shallow == !is_local(run.repo_url@)
}

/// The checkout of a ref into the cache. It begins with the directory that
/// checkouts are in.
pub fn ensure_checkout(checkouts_dir: &str, repo_url: &str, repo_ref: Option<&str>) -> (r:
    EnsureCheckout)
    ensures
        r.dir@ == checkout_path(checkouts_dir@, repo_url@, opt_str(repo_ref)),
        r.repo_url@ == repo_url@,
        opt_text(r.repo_ref) == opt_str(repo_ref),
        r.phase == CheckoutPhase::Parent,
{
    EnsureCheckout {
        dir: checkout_dir_for(checkouts_dir, repo_url, repo_ref),
        repo_url: repo_url.to_owned(),
        repo_ref: match repo_ref {
            Some(name) => Some(name.to_owned()),
            None => None,
        },
        phase: CheckoutPhase::Parent,
    }
}

impl EnsureCheckout {
    /// Checks the ref out, or is done where none is asked for.
    fn go_to_ref(&mut self, line: Option<String>) -> (r: CheckoutStep)
        ensures
            goes_to_ref(*old(self), final(self).phase, Some(r), opt_text(line)),
            final(self).dir == old(self).dir,
            final(self).repo_url == old(self).repo_url,
            final(self).repo_ref == old(self).repo_ref,
    {
        match &self.repo_ref {
            Some(wanted) => {
                let name: String = wanted.clone();
                self.phase = CheckoutPhase::Checkout;
                CheckoutStep::Checkout { line, name }
            },
            None => {
                self.phase = CheckoutPhase::Over;
                CheckoutStep::Done { line }
            },
        }
    }

    /// The step that clones.
    fn clone_step(&self) -> (r: CheckoutStep)
        ensures
            clones(*self, Some(r)),
    {
        let mut announced: String = "Cloning ".to_owned();
        announced.append(self.repo_url.as_str());
        announced.append(" into cache at ");
        announced.append(self.dir.as_str());
        CheckoutStep::Clone { announced, shallow: fetches_shallowly(self.repo_url.as_str(), true) }
    }

    /// The ref that is asked for, where there is one.
    fn wanted(&self) -> (r: Option<&str>)
        ensures
            opt_str(r) == opt_text(self.repo_ref),
    {
        match &self.repo_ref {
            Some(name) => Some(name.as_str()),
            None => None,
        }
    }

    /// Goes on after an event. An event that does not answer what the checkout
    /// waits for changes nothing.
    pub fn step(&mut self, event: CheckoutEvent) -> (r: Option<CheckoutStep>)
        ensures
            checkout_steps(*old(self), event, *final(self), r),
    {
        match (self.phase, event) {
            (CheckoutPhase::Parent, CheckoutEvent::ParentMade(Ok(_))) => {
                self.phase = CheckoutPhase::Look;
                Some(CheckoutStep::Look)
            },
            (CheckoutPhase::Parent, CheckoutEvent::ParentMade(Err(why))) => {
                self.phase = CheckoutPhase::Over;
                let above = match parent(self.dir.as_str()) {
                    Some(dir) => dir,
                    None => "".to_owned(),
                };
                Some(CheckoutStep::Fail(parent_failure(above.as_str(), why.as_str())))
            },
            (CheckoutPhase::Look, CheckoutEvent::Looked { populated, present }) => {
                if populated {
                    self.phase = CheckoutPhase::Open;
                    let mut announced: String = "Reusing cached checkout at ".to_owned();
                    announced.append(self.dir.as_str());
                    return Some(CheckoutStep::Open { announced });
                }
                if present {
                    self.phase = CheckoutPhase::Wipe;
                    return Some(CheckoutStep::Wipe);
                }
                self.phase = CheckoutPhase::Clone;
                Some(self.clone_step())
            },
            (CheckoutPhase::Wipe, CheckoutEvent::Wiped) => {
                self.phase = CheckoutPhase::Clone;
                Some(self.clone_step())
            },
            (CheckoutPhase::Clone, CheckoutEvent::Cloned(Ok(_))) => Some(self.go_to_ref(None)),
            (CheckoutPhase::Clone, CheckoutEvent::Cloned(Err(why))) => {
                self.phase = CheckoutPhase::Over;
                Some(CheckoutStep::Fail(clone_failure(self.repo_url.as_str(), why.as_str())))
            },
            (CheckoutPhase::Open, CheckoutEvent::Opened(Ok(_))) => {
                self.phase = CheckoutPhase::Fetch;
                let refspec = fetched_ref(self.wanted());
                let shallow = fetches_shallowly(self.repo_url.as_str(), true);
                Some(CheckoutStep::Fetch { refspec, shallow })
            },
            (CheckoutPhase::Open, CheckoutEvent::Opened(Err(why))) => {
                self.phase = CheckoutPhase::Over;
                Some(CheckoutStep::Fail(open_failure(self.dir.as_str(), why.as_str())))
            },
            (CheckoutPhase::Fetch, CheckoutEvent::Fetched(Ok(_))) => Some(self.go_to_ref(None)),
            (CheckoutPhase::Fetch, CheckoutEvent::Fetched(Err(why))) => {
                let line = fetch_line(why.as_str());
                Some(self.go_to_ref(Some(line)))
            },
            (CheckoutPhase::Checkout, CheckoutEvent::CheckedOut(Ok(_))) => {
                self.phase = CheckoutPhase::Over;
                Some(CheckoutStep::Done { line: None })
            },
            (CheckoutPhase::Checkout, CheckoutEvent::CheckedOut(Err(why))) => {
                self.phase = CheckoutPhase::Over;
                let name = fetched_ref(self.wanted());
                Some(CheckoutStep::Fail(checkout_failure(name.as_str(), why.as_str())))
            },
            _ => None,
        }
    }
}

/// A fetch that fails fails no checkout: whatever it came to, the checkout goes
/// on to its ref with the working tree that is there.
pub proof fn a_failed_fetch_is_survived(
    before: EnsureCheckout,
    fetched: Result<(), String>,
    after: EnsureCheckout,
    step: Option<CheckoutStep>,
)
    requires
        before.phase == CheckoutPhase::Fetch,
        checkout_steps(before, CheckoutEvent::Fetched(fetched), after, step),
    ensures
        !(step->0 is Fail),
        before.repo_ref is Some ==> step->0 is Checkout,
        before.repo_ref is None ==> step->0 is Done,
{
}

/// A call of `step` leads a checkout as `checkout_steps` says.
pub proof fn a_call_steps_the_checkout(
    run: &mut EnsureCheckout,
    event: CheckoutEvent,
    r: Option<CheckoutStep>,
)
    requires
        call_ensures(EnsureCheckout::step, (run, event), r),
    ensures
        checkout_steps(*old(run), event, *final(run), r),
{
}

/// Why an event ends a checkout, where it does. A fetch that failed does not.
pub open spec fn checkout_trouble(phase: CheckoutPhase, event: CheckoutEvent) -> Option<Seq<char>> {
    match (phase, event) {
        (CheckoutPhase::Parent, CheckoutEvent::ParentMade(Err(why))) => Some(why@),
        (CheckoutPhase::Clone, CheckoutEvent::Cloned(Err(why))) => Some(why@),
        (CheckoutPhase::Open, CheckoutEvent::Opened(Err(why))) => Some(why@),
        (CheckoutPhase::Checkout, CheckoutEvent::CheckedOut(Err(why))) => Some(why@),
        _ => None,
    }
}

/// Whatever goes wrong with a checkout but its fetch ends it, with a failure that says
/// what went wrong.
pub proof fn trouble_ends_a_checkout(
    before: EnsureCheckout,
    event: CheckoutEvent,
    after: EnsureCheckout,
    step: Option<CheckoutStep>,
)
    requires
        checkout_steps(before, event, after, step),
        checkout_trouble(before.phase, event) is Some,
    ensures
        after.phase == CheckoutPhase::Over,
        step matches Some(CheckoutStep::Fail(text)) && mentions(
            text@,
            checkout_trouble(before.phase, event)->0,
        ),
{
    let why = checkout_trouble(before.phase, event)->0;
    let name = match before.repo_ref {
        Some(name) => name@,
        None => "HEAD"@,
    };
    what_is_written_is_mentioned(
        "Failed to create git_checkouts parent "@ + parent_text(before.dir@) + ": "@,
        why,
        ""@,
    );
    what_is_written_is_mentioned("Failed to clone "@ + before.repo_url@ + ": "@, why, ""@);
    what_is_written_is_mentioned(
        "Failed to open cached checkout at "@ + before.dir@ + ": "@,
        why,
        ""@,
    );
    what_is_written_is_mentioned("Failed to checkout ref '"@ + name + "': "@, why, ""@);
}

/// Without trouble a checkout goes on: a working tree is opened and fetched into, and
/// anything else is removed and cloned anew; then the ref that is asked for is checked
/// out, and only then is the checkout done.
pub proof fn a_checkout_ends_at_its_ref(
    before: EnsureCheckout,
    event: CheckoutEvent,
    after: EnsureCheckout,
    step: Option<CheckoutStep>,
)
    requires
        checkout_steps(before, event, after, step),
        checkout_trouble(before.phase, event) is None,
    ensures
        !(step matches Some(CheckoutStep::Fail(_))),
        after.dir == before.dir && after.repo_url == before.repo_url && after.repo_ref
            == before.repo_ref,
        before.phase == CheckoutPhase::Parent && event is ParentMade ==> after.phase
            == CheckoutPhase::Look && step == Some(CheckoutStep::Look),
        before.phase == CheckoutPhase::Look ==> (event matches CheckoutEvent::Looked {
            populated,
            present,
        } ==> if populated {
            after.phase == CheckoutPhase::Open && (step matches Some(CheckoutStep::Open { .. }))
        } else if present {
            after.phase == CheckoutPhase::Wipe && step == Some(CheckoutStep::Wipe)
        } else {
            after.phase == CheckoutPhase::Clone && (step matches Some(CheckoutStep::Clone { .. }))
        }),
        step matches Some(CheckoutStep::Wipe) ==> (event matches CheckoutEvent::Looked {
            populated,
            ..
        } && !populated),
        before.phase == CheckoutPhase::Wipe && event is Wiped ==> after.phase
            == CheckoutPhase::Clone && (step matches Some(CheckoutStep::Clone { .. })),
        before.phase == CheckoutPhase::Open && event is Opened ==> after.phase
            == CheckoutPhase::Fetch && (step matches Some(CheckoutStep::Fetch { refspec, .. }) && (
        before.repo_ref matches Some(name) ==> refspec@ == name@) && (before.repo_ref is None
            ==> refspec@ == "HEAD"@)),
        (before.phase == CheckoutPhase::Clone && event is Cloned) || (before.phase
            == CheckoutPhase::Fetch && event is Fetched) ==> match before.repo_ref {
            Some(wanted) => after.phase == CheckoutPhase::Checkout && (step matches Some(
                CheckoutStep::Checkout { name, .. },
            ) && name@ == wanted@),
            None => after.phase == CheckoutPhase::Over && (step matches Some(
                CheckoutStep::Done { .. },
            )),
        },
        before.phase == CheckoutPhase::Checkout && event is CheckedOut ==> after.phase
            == CheckoutPhase::Over && (step matches Some(CheckoutStep::Done { .. })),
        step matches Some(CheckoutStep::Done { .. }) ==> before.repo_ref is None || before.phase
            == CheckoutPhase::Checkout,
        before.phase == CheckoutPhase::Over ==> after == before && step is None,
        step matches Some(CheckoutStep::Clone { shallow, .. }) ==> shallow == !is_local(
            before.repo_url@,
        ),
        step matches Some(CheckoutStep::Fetch { shallow, .. }) ==> shallow == !is_local(
            before.repo_url@,
        ),
{
}

/// The checkout of a ref lives in the directory of checkouts, under the slug of its URL
/// and a hash of the URL and the ref together.
pub proof fn a_checkout_lives_under_its_ref(
    checkouts_dir: &str,
    repo_url: &str,
    repo_ref: Option<&str>,
    r: EnsureCheckout,
)
    requires
        call_ensures(ensure_checkout, (checkouts_dir, repo_url, repo_ref), r),
    ensures
        ({
            let told = match repo_ref {
                Some(name) => encode_utf8(name@),
                None => encode_utf8(""@),
            };
            r.dir@ == joined_path(
                checkouts_dir@,
                slug_of(repo_url@, "repo"@) + "-"@ + hex(
                    sha256(encode_utf8(repo_url@) + seq![0u8] + told).take(8),
                ),
            )
        }),
        r.repo_url@ == repo_url@ && opt_text(r.repo_ref) == opt_str(repo_ref) && r.phase
            == CheckoutPhase::Parent,
{
    let told = match repo_ref {
        Some(name) => encode_utf8(name@),
        None => encode_utf8(""@),
    };
    assert(hashed_bytes(repo_url@, opt_str(repo_ref)) =~= encode_utf8(repo_url@) + seq![0u8]
        + told);
}

} // verus!
