//! What the node commands know about git repositories: paths inside them, refs
//! that are tried, how a transfer is announced.
pub mod credentials;

use crate::text::{
    decimal, has_prefix, pieces, split, start_trimmed, starts_with, str_eq, texts, to_decimal,
    trim, trim_start_of, trimmed,
};
use crate::time::Span;
use vstd::prelude::*;
use vstd::string::*;

verus! {

/// How many milliseconds pass between two reports of a transfer's progress.
pub const PROGRESS_REPORT_INTERVAL_MILLIS: u64 = 500;

/// Whether a URL names a repository on this machine, which cannot be fetched
/// shallowly.
pub open spec fn is_local(url: Seq<char>) -> bool {
    has_prefix(url, "/"@) || has_prefix(url, "file://"@)
}

/// Whether a URL names a repository on this machine, which cannot be fetched
/// shallowly.
pub fn is_local_url(repo_url: &str) -> (r: bool)
    ensures
        r == is_local(repo_url@),
{
    starts_with(repo_url, "/") || starts_with(repo_url, "file://")
}

/// Whether a fetch asks for the last commit only.
pub fn fetches_shallowly(repo_url: &str, shallow: bool) -> (r: bool)
    ensures
        r == (shallow && !is_local(repo_url@)),
{
    shallow && !is_local_url(repo_url)
}

/// A path inside a repository, as given: without white space around it and
/// without slashes before it.
pub open spec fn inner_path(repo_path: Seq<char>) -> Seq<char> {
    start_trimmed(trimmed(repo_path), seq!['/', '\\'])
}

/// Whether a path leads up somewhere.
pub open spec fn leads_up(path: Seq<char>) -> bool {
    pieces(path, '/').contains(".."@)
}

/// A path inside a repository, or why it is none.
pub fn sanitize_repo_path(repo_path: &str) -> (r: Result<String, String>)
    ensures
        match r {
            Ok(path) => path@ == inner_path(repo_path@) && path@.len() > 0 && !leads_up(path@),
            Err(text) => {
                let path = inner_path(repo_path@);
                if path.len() == 0 {
                    text@ == "repo_path must not be empty"@
                } else {
                    leads_up(path) && text@ == "repo_path must not contain '..'"@
                }
            },
        },
{
    let solid = trim(repo_path);
    let mut slashes: Vec<char> = Vec::new();
    slashes.push('/');
    slashes.push('\\');
    proof {
        assert(slashes@ =~= seq!['/', '\\']);
    }
    let path = trim_start_of(solid.as_str(), &slashes);
    if path.as_str().is_empty() {
        return Err("repo_path must not be empty".to_owned());
    }
    let parts = split(path.as_str(), '/');
    let mut i: usize = 0;
    while i < parts.len()
        invariant
            i <= parts@.len(),
            path@ == inner_path(repo_path@),
            path@.len() > 0,
            texts(parts@) == pieces(path@, '/'),
            forall|k: int| 0 <= k < i ==> (#[trigger] parts@[k])@ != ".."@,
        decreases parts.len() - i,
    {
        if str_eq(parts[i].as_str(), "..") {
            proof {
                assert(texts(parts@)[i as int] == ".."@);
            }
            return Err("repo_path must not contain '..'".to_owned());
        }
        i += 1;
    }
    proof {
        if leads_up(path@) {
            let k = choose|k: int|
                0 <= k < pieces(path@, '/').len() && pieces(path@, '/')[k] == ".."@;
            assert(texts(parts@)[k] == parts@[k]@);
        }
    }
    Ok(path)
}

/// A path inside a repository never begins at a root.
pub proof fn a_sanitized_path_stays_inside(repo_path: Seq<char>)
    requires
        inner_path(repo_path).len() > 0,
    ensures
        !seq!['/', '\\'].contains(inner_path(repo_path)[0]),
{
    let solid = trimmed(repo_path);
    let set = seq!['/', '\\'];
    lemma_leading_stops(solid, set, 0);
}

/// The character after the leading ones is not one of them.
proof fn lemma_leading_stops(s: Seq<char>, set: Seq<char>, from: int)
    requires
        0 <= from <= s.len(),
    ensures
        leading_end(s, set, from) <= s.len(),
        leading_end(s, set, from) >= from,
        leading_end(s, set, from) < s.len() ==> !set.contains(s[leading_end(s, set, from)]),
    decreases s.len() - from,
{
    if from < s.len() && set.contains(s[from]) {
        lemma_leading_stops(s, set, from + 1);
    }
}

/// Where the leading characters of `set` end, counted from `from`.
pub open spec fn leading_end(s: Seq<char>, set: Seq<char>, from: int) -> int {
    from + crate::text::leading(s, set, from)
}

/// The names under which a ref is looked for, in order; none for a blank ref.
pub open spec fn candidates(repo_ref: Seq<char>) -> Seq<Seq<char>> {
    let name = trimmed(repo_ref);
    if name.len() == 0 {
        Seq::empty()
    } else {
        seq![name, "refs/tags/"@ + name, "refs/heads/"@ + name, "refs/remotes/origin/"@ + name]
    }
}

/// A prefix and a name.
fn prefixed(prefix: &str, name: &str) -> (r: String)
    ensures
        r@ == prefix@ + name@,
{
    let mut text: String = prefix.to_owned();
    text.append(name);
    text
}

/// The names under which a ref is looked for before it is checked out, in order;
/// none for a blank ref, which leaves the working tree where it is.
pub fn checkout_candidates(repo_ref: &str) -> (r: Vec<String>)
    ensures
        texts(r@) == candidates(repo_ref@),
{
    let name = trim(repo_ref);
    let mut out: Vec<String> = Vec::new();
    if !name.as_str().is_empty() {
        out.push(name.clone());
        out.push(prefixed("refs/tags/", name.as_str()));
        out.push(prefixed("refs/heads/", name.as_str()));
        out.push(prefixed("refs/remotes/origin/", name.as_str()));
        proof {
            assert(texts(out@) =~= candidates(repo_ref@));
        }
    } else {
        proof {
            assert(texts(out@) =~= Seq::<Seq<char>>::empty());
        }
    }
    out
}

/// The failure of a clone.
pub fn clone_failure(repo_url: &str, why: &str) -> (r: String)
    ensures
        r@ == "Failed to clone "@ + repo_url@ + ": "@ + why@,
{
    let mut text: String = "Failed to clone ".to_owned();
    text.append(repo_url);
    text.append(": ");
    text.append(why);
    text
}

/// The failure of a checkout.
pub fn checkout_failure(repo_ref: &str, why: &str) -> (r: String)
    ensures
        r@ == "Failed to checkout ref '"@ + repo_ref@ + "': "@ + why@,
{
    let mut text: String = "Failed to checkout ref '".to_owned();
    text.append(repo_ref);
    text.append("': ");
    text.append(why);
    text
}

/// Why a repository's commit could not be read.
pub enum HeadProblem {
    NoHead(String),
    NoCommit(String),
    Unusable(String),
}

/// The text of a `HeadProblem`.
pub fn head_failure(problem: &HeadProblem) -> (r: String)
    ensures
        r@ == match *problem {
            HeadProblem::NoHead(why) => "the repository has no HEAD to read a commit from: "@
                + why@,
            HeadProblem::NoCommit(why) => "the repository's HEAD does not name a commit: "@ + why@,
            HeadProblem::Unusable(why) => "the repository's HEAD is not a usable commit: "@ + why@,
        },
{
    match problem {
        HeadProblem::NoHead(why) => prefixed(
            "the repository has no HEAD to read a commit from: ",
            why.as_str(),
        ),
        HeadProblem::NoCommit(why) => prefixed(
            "the repository's HEAD does not name a commit: ",
            why.as_str(),
        ),
        HeadProblem::Unusable(why) => prefixed(
            "the repository's HEAD is not a usable commit: ",
            why.as_str(),
        ),
    }
}

/// What a transfer is called.
#[derive(Clone, Copy, Debug, PartialEq, Eq, Structural)]
pub enum TransferVerb {
    Cloning,
    Fetching,
}

/// The word for a transfer.
pub open spec fn verb_text(verb: TransferVerb) -> Seq<char> {
    match verb {
        TransferVerb::Cloning => "Cloning"@,
        TransferVerb::Fetching => "Fetching"@,
    }
}

/// A line about a transfer's progress. `bytes` is the size in words.
pub fn progress_line(
    verb: TransferVerb,
    repo_url: &str,
    received: u64,
    total: u64,
    bytes: &str,
) -> (r: String)
    ensures
        r@ == verb_text(verb) + " "@ + repo_url@ + ": received "@ + decimal(received as nat)
            + "/"@ + decimal(total as nat) + " objects ("@ + bytes@ + ")"@,
{
    let mut line: String = match verb {
        TransferVerb::Cloning => "Cloning".to_owned(),
        TransferVerb::Fetching => "Fetching".to_owned(),
    };
    line.append(" ");
    line.append(repo_url);
    line.append(": received ");
    line.append(to_decimal(received).as_str());
    line.append("/");
    line.append(to_decimal(total).as_str());
    line.append(" objects (");
    line.append(bytes);
    line.append(")");
    line
}

/// When a transfer's progress was last reported.
pub struct ProgressThrottle {
    pub last: Option<Span>,
}

impl ProgressThrottle {
    /// A throttle that lets the first report through at once.
    pub fn new() -> (r: Self)
        ensures
            r.last is None,
    {
        ProgressThrottle { last: None }
    }

    /// Whether a report is due at `now`; one that is due is counted as made.
    pub fn is_due(&mut self, now: Span) -> (r: bool)
        ensures
            r == match old(self).last {
                None => true,
                Some(last) => now.nanos >= last.nanos && now.nanos - last.nanos
                    >= PROGRESS_REPORT_INTERVAL_MILLIS * 1_000_000,
            },
            final(self).last == if r {
                Some(now)
            } else {
                old(self).last
            },
    {
        let due: bool = match self.last {
            None => true,
            Some(last) => now.saturating_sub(last).nanos >= Span::from_millis(
                PROGRESS_REPORT_INTERVAL_MILLIS,
            ).nanos,
        };
        if due {
            self.last = Some(now);
        }
        due
    }
}

/// A repository is on this machine exactly where its URL is a path from the root or one
/// of `file://`; only others are fetched shallowly, and only where that is asked for.
pub proof fn only_remote_repositories_are_fetched_shallowly(
    repo_url: &str,
    shallow: bool,
    local: bool,
    r: bool,
)
    requires
        call_ensures(is_local_url, (repo_url,), local),
        call_ensures(fetches_shallowly, (repo_url, shallow), r),
    ensures
        local <==> (exists|rest: Seq<char>| repo_url@ == #[trigger] ("/"@ + rest)) || (exists|
            rest: Seq<char>,
        |
            repo_url@ == #[trigger] ("file://"@ + rest)),
        r <==> shallow && !local,
{
    let url = repo_url@;
    if has_prefix(url, "/"@) {
        let rest = url.skip("/"@.len() as int);
        assert(url =~= "/"@ + rest);
    }
    if has_prefix(url, "file://"@) {
        let rest = url.skip("file://"@.len() as int);
        assert(url =~= "file://"@ + rest);
    }
    if exists|rest: Seq<char>| url == #[trigger] ("/"@ + rest) {
        let rest = choose|rest: Seq<char>| url == #[trigger] ("/"@ + rest);
        assert(url.take("/"@.len() as int) =~= "/"@);
    }
    if exists|rest: Seq<char>| url == #[trigger] ("file://"@ + rest) {
        let rest = choose|rest: Seq<char>| url == #[trigger] ("file://"@ + rest);
        assert(url.take("file://"@.len() as int) =~= "file://"@);
    }
}

/// A path in a repository is what is given without the white space around it and the
/// slashes before it. It is refused exactly where nothing is left of it, or one of its
/// components is `..`.
pub proof fn a_path_stays_in_its_repository(repo_path: &str, r: Result<String, String>)
    requires
        call_ensures(sanitize_repo_path, (repo_path,), r),
    ensures
        r matches Ok(path) ==> path@.len() > 0 && path@[0] != '/' && path@[0] != '\\' && (forall|
            k: int,
        |
            0 <= k < pieces(path@, '/').len() ==> #[trigger] pieces(path@, '/')[k] != ".."@)
            && exists|cut: Seq<char>|
            trimmed(repo_path@) == #[trigger] (cut + path@) && forall|k: int|
                0 <= k < cut.len() ==> #[trigger] cut[k] == '/' || cut[k] == '\\',
        r is Err ==> (forall|k: int|
            0 <= k < trimmed(repo_path@).len() ==> #[trigger] trimmed(repo_path@)[k] == '/'
                || trimmed(repo_path@)[k] == '\\') || pieces(inner_path(repo_path@), '/').contains(
            ".."@,
        ),
{
    let solid = trimmed(repo_path@);
    let set = seq!['/', '\\'];
    let path = inner_path(repo_path@);
    lemma_leading_stops(solid, set, 0);
    lemma_leading_all(solid, set, 0);
    let end = leading_end(solid, set, 0);
    assert(path =~= solid.skip(end));
    let cut = solid.take(end);
    assert(solid =~= cut + path);
    assert forall|k: int| 0 <= k < cut.len() implies #[trigger] cut[k] == '/' || cut[k]
        == '\\' by {
        assert(set.contains(solid[k]));
        let i = choose|i: int| 0 <= i < set.len() && set[i] == solid[k];
        assert(i == 0 || i == 1);
    }
    assert(set[0] == '/' && set[1] == '\\');
    match r {
        Ok(told) => {
            assert(!set.contains(solid[end]));
            assert(path[0] == solid[end]);
            assert forall|k: int| 0 <= k < pieces(told@, '/').len() implies #[trigger] pieces(
                told@,
                '/',
            )[k] != ".."@ by {
                if pieces(told@, '/')[k] == ".."@ {
                    assert(pieces(told@, '/').contains(".."@));
                }
            }
        },
        Err(_) => {
            if path.len() == 0 {
                assert(cut =~= solid);
                assert forall|k: int| 0 <= k < solid.len() implies #[trigger] solid[k] == '/'
                    || solid[k] == '\\' by {
                    assert(cut[k] == solid[k]);
                }
            }
        },
    }
}

/// The leading characters are all of the set.
proof fn lemma_leading_all(s: Seq<char>, set: Seq<char>, from: int)
    requires
        0 <= from <= s.len(),
    ensures
        forall|k: int| from <= k < leading_end(s, set, from) ==> set.contains(#[trigger] s[k]),
    decreases s.len() - from,
{
    if from < s.len() && set.contains(s[from]) {
        lemma_leading_all(s, set, from + 1);
    }
}

/// A ref is looked for under its own name first, then as a tag, as a branch, and as a
/// branch of the remote; a blank one is not looked for.
pub proof fn a_ref_is_looked_for_under_four_names(repo_ref: &str, r: Vec<String>)
    requires
        call_ensures(checkout_candidates, (repo_ref,), r),
    ensures
        trimmed(repo_ref@).len() == 0 ==> r@.len() == 0,
        trimmed(repo_ref@).len() > 0 ==> r@.len() == 4 && r@[0]@ == trimmed(repo_ref@) && r@[1]@
            == "refs/tags/"@ + trimmed(repo_ref@) && r@[2]@ == "refs/heads/"@ + trimmed(repo_ref@)
            && r@[3]@ == "refs/remotes/origin/"@ + trimmed(repo_ref@),
{
    assert(texts(r@).len() == r@.len());
    if trimmed(repo_ref@).len() > 0 {
        assert(texts(r@)[0] == r@[0]@ && texts(r@)[1] == r@[1]@);
        assert(texts(r@)[2] == r@[2]@ && texts(r@)[3] == r@[3]@);
    }
}

/// A report is due at first, and half a second after the last one that was; only one that
/// was due is counted.
pub proof fn a_report_is_due_twice_a_second(throttle: &mut ProgressThrottle, now: Span, r: bool)
    requires
        call_ensures(ProgressThrottle::is_due, (throttle, now), r),
    ensures
        old(throttle).last is None ==> r,
        old(throttle).last matches Some(last) ==> (r <==> now.nanos >= last.nanos + 500_000_000),
        r ==> final(throttle).last == Some(now),
        !r ==> final(throttle).last == old(throttle).last,
{
}

} // verus!
