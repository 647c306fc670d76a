//! What is offered to a remote that asks for credentials.
//!
//! Over ssh, what `ssh` itself would try for the host: the agent's keys, and
//! the identity files after them. Each is offered once; a request that comes
//! again means that the remote refused it.
use crate::order::{has_text, lemma_picked_next, lemma_picked_none, picked};
use crate::paths::{is_same_path, join_path, joined_path, same_path};
use crate::text::{a_longer_text_mentions_as_much, join, joined, mentions, opt_str, opt_text, texts, what_is_written_is_mentioned};
use vstd::prelude::*;
use vstd::string::*;

verus! {

/// The answer to one request for credentials.
#[derive(Debug, PartialEq, Eq)]
pub enum CredentialAnswer {
    /// The ssh agent's keys, for this user.
    AgentKey(String),
    /// An identity file, for this user.
    KeyFile { user: String, key: String },
    /// A user name alone.
    Username(String),
    /// Nothing is left to offer, and why.
    Refuse(String),
}

/// A `CredentialAnswer`, its texts as sequences.
pub enum AnswerView {
    AgentKey(Seq<char>),
    KeyFile { user: Seq<char>, key: Seq<char> },
    Username(Seq<char>),
    Refuse(Seq<char>),
}

impl View for CredentialAnswer {
    type V = AnswerView;

    open spec fn view(&self) -> AnswerView {
        match *self {
            CredentialAnswer::AgentKey(user) => AnswerView::AgentKey(user@),
            CredentialAnswer::KeyFile { user, key } => AnswerView::KeyFile {
                user: user@,
                key: key@,
            },
            CredentialAnswer::Username(user) => AnswerView::Username(user@),
            CredentialAnswer::Refuse(why) => AnswerView::Refuse(why@),
        }
    }
}

/// The agent that opens a connection, or why none does.
#[derive(Debug, PartialEq, Eq)]
pub enum OfferedAgent {
    /// The agent at this socket, which is the one that this process is bound to.
    Socket(String),
    /// The process is bound to none, and the host's configuration names none.
    Unset,
    /// The host's configuration disables the agent.
    Disabled,
}

/// What a host's configuration says about the agent.
#[derive(Debug, PartialEq, Eq)]
pub enum IdentityAgent {
    FromEnvironment,
    Disabled,
    Socket(String),
}

/// What `ssh` selects for a host.
pub struct SshHostConfig {
    pub identity_agent: IdentityAgent,
    pub identity_files: Vec<String>,
}

/// Where an ssh connection goes.
pub struct SshTarget {
    pub user: Option<String>,
    pub host: String,
    pub port: Option<u16>,
}

/// The names of the identity files that are tried where none is configured.
pub open spec fn default_names() -> Seq<Seq<char>> {
    seq!["id_ed25519"@, "id_ecdsa"@, "id_rsa"@]
}

/// A file in a home directory's `.ssh`.
pub open spec fn ssh_path(home: Seq<char>, name: Seq<char>) -> Seq<char> {
    joined_path(joined_path(home, ".ssh"@), name)
}

/// The path of a file in a home directory's `.ssh`.
fn in_ssh_dir(home: &str, name: &str) -> (r: String)
    ensures
        r@ == ssh_path(home@, name@),
{
    join_path(join_path(home, ".ssh").as_str(), name)
}

/// The identity files that are tried where none is configured; none without a
/// home directory.
pub open spec fn default_files(home: Option<String>) -> Seq<Seq<char>> {
    match home {
        None => Seq::empty(),
        Some(dir) => default_names().map_values(|name: Seq<char>| ssh_path(dir@, name)),
    }
}

/// The identity files that are tried where none is configured; none without a
/// home directory.
pub fn default_identity_files(home: Option<&str>) -> (r: Vec<String>)
    ensures
        texts(r@) == match home {
            None => Seq::empty(),
            Some(dir) => default_names().map_values(|name: Seq<char>| ssh_path(dir@, name)),
        },
{
    let mut files: Vec<String> = Vec::new();
    match home {
        None => {
            proof {
                assert(texts(files@) =~= Seq::<Seq<char>>::empty());
            }
        },
        Some(dir) => {
            files.push(in_ssh_dir(dir, "id_ed25519"));
            files.push(in_ssh_dir(dir, "id_ecdsa"));
            files.push(in_ssh_dir(dir, "id_rsa"));
            proof {
                assert(texts(files@) =~= default_names().map_values(
                    |name: Seq<char>| ssh_path(dir@, name),
                ));
            }
        },
    }
    files
}

/// The credentials that one ssh connection is offered.
#[derive(Debug, PartialEq, Eq)]
pub struct SshCredentialPlan {
    pub user: String,
    pub host: String,
    pub agent: OfferedAgent,
    /// The identity files that exist, offered after the agent.
    pub key_files: Vec<String>,
    /// The identity files that are configured and are not there.
    pub absent_key_files: Vec<String>,
}

/// A list of paths in one line.
pub fn list_paths(paths: &Vec<String>) -> (r: String)
    ensures
        r@ == joined(texts(paths@), ", "@),
{
    join(paths, ", ")
}

/// The paths that are in `present`, or those that are not, in order.
pub open spec fn parted(
    paths: Seq<Seq<char>>,
    present: Seq<Seq<char>>,
    there: bool,
) -> Seq<Seq<char>>
    decreases paths.len(),
{
    if paths.len() == 0 {
        Seq::empty()
    } else {
        let before = parted(paths.drop_last(), present, there);
        if present.contains(paths.last()) == there {
            before.push(paths.last())
        } else {
            before
        }
    }
}

/// The offers of a plan, in order.
pub open spec fn offers_of(plan: SshCredentialPlan) -> Seq<AnswerView> {
    let agent = if plan.agent is Socket {
        seq![AnswerView::AgentKey(plan.user@)]
    } else {
        Seq::empty()
    };
    agent + texts(plan.key_files@).map_values(
        |key: Seq<char>| AnswerView::KeyFile { user: plan.user@, key },
    )
}

/// What a plan says about its agent.
pub open spec fn agent_text(plan: SshCredentialPlan, socket_exists: bool) -> Seq<char> {
    match plan.agent {
        OfferedAgent::Socket(socket) => if socket_exists {
            "the keys in the ssh agent at "@ + socket@
        } else {
            "the ssh agent at "@ + socket@ + ", whose socket does not exist"@
        },
        OfferedAgent::Unset => "no ssh agent (SSH_AUTH_SOCK is unset)"@,
        OfferedAgent::Disabled => "no ssh agent (IdentityAgent none)"@,
    }
}

/// What a plan says about the identity files that are not there.
pub open spec fn absent_text(plan: SshCredentialPlan) -> Seq<char> {
    joined(texts(plan.absent_key_files@), ", "@) + " do not exist as files"@
}

/// What a plan says about its identity files.
pub open spec fn files_text(plan: SshCredentialPlan) -> Seq<char> {
    if plan.key_files@.len() > 0 {
        if plan.absent_key_files@.len() == 0 {
            "the identity files "@ + joined(texts(plan.key_files@), ", "@)
        } else {
            "the identity files "@ + joined(texts(plan.key_files@), ", "@) + " ("@ + absent_text(
                plan,
            ) + ")"@
        }
    } else if plan.absent_key_files@.len() > 0 {
        "no identity file ("@ + absent_text(plan) + ")"@
    } else {
        "no identity file (the configuration names none)"@
    }
}

/// The refusal of a plan that has nothing left.
pub open spec fn refusal_text(plan: SshCredentialPlan, socket_exists: bool) -> Seq<char> {
    (if offers_of(plan).len() > 0 {
        "the remote refused every credential peppy holds for"@
    } else {
        "peppy holds no credential for"@
    }) + " "@ + plan.user@ + "@"@ + plan.host@ + ": "@ + agent_text(plan, socket_exists)
        + ", and "@ + files_text(plan)
        + "; load a key the remote accepts into the agent, or keep an unencrypted identity file at one of those paths"@
}

impl SshCredentialPlan {
    /// The credentials in the order in which they are offered.
    pub fn offers(&self) -> (r: Vec<CredentialAnswer>)
        ensures
            r@.len() == offers_of(*self).len(),
            forall|k: int| 0 <= k < r@.len() ==> (#[trigger] r@[k])@ == offers_of(*self)[k],
    {
        let mut out: Vec<CredentialAnswer> = Vec::new();
        if let OfferedAgent::Socket(_) = &self.agent {
            out.push(CredentialAnswer::AgentKey(self.user.clone()));
        }
        let ghost first = out@.len() as int;
        let mut i: usize = 0;
        while i < self.key_files.len()
            invariant
                i <= self.key_files@.len(),
                first == (if self.agent is Socket {
                    1int
                } else {
                    0int
                }),
                out@.len() == first + i,
                forall|k: int| 0 <= k < out@.len() ==> (#[trigger] out@[k])@ == offers_of(*self)[k],
            decreases self.key_files.len() - i,
        {
            out.push(
                CredentialAnswer::KeyFile { user: self.user.clone(), key: self.key_files[i].clone() },
            );
            proof {
                assert(texts(self.key_files@)[i as int] == self.key_files@[i as int]@);
            }
            i += 1;
        }
        out
    }

    /// What the plan says about its agent.
    pub fn agent_description(&self, socket_exists: bool) -> (r: String)
        ensures
            r@ == agent_text(*self, socket_exists),
    {
        match &self.agent {
            OfferedAgent::Socket(socket) => {
                if socket_exists {
                    let mut text: String = "the keys in the ssh agent at ".to_owned();
                    text.append(socket.as_str());
                    text
                } else {
                    let mut text: String = "the ssh agent at ".to_owned();
                    text.append(socket.as_str());
                    text.append(", whose socket does not exist");
                    text
                }
            },
            OfferedAgent::Unset => "no ssh agent (SSH_AUTH_SOCK is unset)".to_owned(),
            OfferedAgent::Disabled => "no ssh agent (IdentityAgent none)".to_owned(),
        }
    }

    /// What the plan says about the identity files that are not there.
    fn absent_description(&self) -> (r: String)
        ensures
            r@ == absent_text(*self),
    {
        let mut text = list_paths(&self.absent_key_files);
        text.append(" do not exist as files");
        text
    }

    /// What the plan says about its identity files.
    pub fn identity_files_description(&self) -> (r: String)
        ensures
            r@ == files_text(*self),
    {
        if self.key_files.len() > 0 {
            let mut text: String = "the identity files ".to_owned();
            text.append(list_paths(&self.key_files).as_str());
            if self.absent_key_files.len() > 0 {
                text.append(" (");
                text.append(self.absent_description().as_str());
                text.append(")");
            }
            text
        } else if self.absent_key_files.len() > 0 {
            let mut text: String = "no identity file (".to_owned();
            text.append(self.absent_description().as_str());
            text.append(")");
            text
        } else {
            "no identity file (the configuration names none)".to_owned()
        }
    }

    /// The refusal of a plan that has nothing left, naming everything that it
    /// had. `socket_exists` tells whether the agent's socket is there.
    pub fn refusal(&self, socket_exists: bool) -> (r: String)
        ensures
            r@ == refusal_text(*self, socket_exists),
    {
        let mut text: String = if self.offers().len() > 0 {
            "the remote refused every credential peppy holds for".to_owned()
        } else {
            "peppy holds no credential for".to_owned()
        };
        text.append(" ");
        text.append(self.user.as_str());
        text.append("@");
        text.append(self.host.as_str());
        text.append(": ");
        text.append(self.agent_description(socket_exists).as_str());
        text.append(", and ");
        text.append(self.identity_files_description().as_str());
        text.append(
            "; load a key the remote accepts into the agent, or keep an unencrypted identity file at one of those paths",
        );
        text
    }

    /// The answer to the request with this number: each offer once, a refusal
    /// after that.
    pub fn answer(&self, attempt: usize, socket_exists: bool) -> (r: CredentialAnswer)
        ensures
            r@ == answer_of(*self, attempt as int, socket_exists),
            !(r@ is Refuse) ==> attempt < usize::MAX,
    {
        let mut offers = self.offers();
        if attempt < offers.len() {
            return offers.swap_remove(attempt);
        }
        CredentialAnswer::Refuse(self.refusal(socket_exists))
    }
}

/// The answer to the request with this number.
pub open spec fn answer_of(plan: SshCredentialPlan, attempt: int, socket_exists: bool) -> AnswerView {
    if 0 <= attempt < offers_of(plan).len() {
        offers_of(plan)[attempt]
    } else {
        AnswerView::Refuse(refusal_text(plan, socket_exists))
    }
}

/// The refusal of a host whose configuration selects another agent than the one
/// that this process is bound to.
pub open spec fn mismatch_text(
    host: Seq<char>,
    selected: Seq<char>,
    bound: Option<Seq<char>>,
) -> Seq<char> {
    "~/.ssh/config selects the ssh agent at "@ + selected + " for "@ + host
        + " (IdentityAgent), but this daemon is bound to "@ + (match bound {
        Some(socket) => "the agent at "@ + socket,
        None => "no agent (SSH_AUTH_SOCK is unset)"@,
    })
        + " for its lifetime: when it starts it binds the agent ssh selects for a host with no host-specific configuration. Give every host that IdentityAgent (a `Host *` block) and restart the daemon"@
}

/// The refusal of a host whose configuration selects another agent than the one
/// that this process is bound to.
pub fn agent_mismatch(target: &SshTarget, selected: &str, bound: &Option<String>) -> (r: String)
    ensures
        r@ == mismatch_text(target.host@, selected@, opt_text(*bound)),
{
    let mut bound_text: String = String::new();
    match bound {
        Some(socket) => {
            bound_text = "the agent at ".to_owned();
            bound_text.append(socket.as_str());
        },
        None => {
            bound_text = "no agent (SSH_AUTH_SOCK is unset)".to_owned();
        },
    }
    let mut text: String = "~/.ssh/config selects the ssh agent at ".to_owned();
    text.append(selected);
    text.append(" for ");
    text.append(target.host.as_str());
    text.append(" (IdentityAgent), but this daemon is bound to ");
    text.append(bound_text.as_str());
    text.append(
        " for its lifetime: when it starts it binds the agent ssh selects for a host with no host-specific configuration. Give every host that IdentityAgent (a `Host *` block) and restart the daemon",
    );
    text
}

/// The agent that a process bound to `bound` offers of its own.
pub open spec fn is_process_agent(agent: OfferedAgent, bound: Option<Seq<char>>) -> bool {
    match bound {
        Some(socket) => agent matches OfferedAgent::Socket(offered) && offered@ == socket,
        None => agent is Unset,
    }
}

/// Whether a process bound to `bound` is bound to the agent at this path.
pub open spec fn is_bound_to(bound: Option<Seq<char>>, selected: Seq<char>) -> bool {
    bound matches Some(socket) && same_path(socket, selected)
}

/// The identity files that a connection has: the configured ones, or the default
/// ones where there is no configuration.
pub open spec fn wanted_files(
    host_config: Option<SshHostConfig>,
    defaults: Seq<Seq<char>>,
) -> Seq<Seq<char>> {
    match host_config {
        Some(config) => texts(config.identity_files@),
        None => defaults,
    }
}

/// Whether a plan is the one for a connection: its agent is the one that the
/// configuration selects, and its identity files are those wanted, parted into
/// the ones that are there and the ones that are not.
pub open spec fn is_plan(
    plan: SshCredentialPlan,
    user: Seq<char>,
    target: SshTarget,
    host_config: Option<SshHostConfig>,
    bound: Option<Seq<char>>,
    defaults: Seq<Seq<char>>,
    present: Seq<Seq<char>>,
) -> bool {
    &&& plan.user@ == user
    &&& plan.host@ == target.host@
    &&& match host_config {
        None => is_process_agent(plan.agent, bound),
        Some(config) => match config.identity_agent {
            IdentityAgent::FromEnvironment => is_process_agent(plan.agent, bound),
            IdentityAgent::Disabled => plan.agent is Disabled,
            IdentityAgent::Socket(selected) => is_bound_to(bound, selected@) && (
            plan.agent matches OfferedAgent::Socket(offered) && offered@ == selected@),
        },
    }
    &&& texts(plan.key_files@) == parted(wanted_files(host_config, defaults), present, true)
    &&& texts(plan.absent_key_files@) == parted(wanted_files(host_config, defaults), present, false)
}

/// Whether a connection is refused with this text: its configuration selects an
/// agent that the process is not bound to.
pub open spec fn is_refused(
    target: SshTarget,
    host_config: Option<SshHostConfig>,
    bound: Option<Seq<char>>,
    text: Seq<char>,
) -> bool {
    host_config matches Some(config) && config.identity_agent matches IdentityAgent::Socket(
        selected,
    ) && !is_bound_to(bound, selected@) && text == mismatch_text(
        target.host@,
        selected@,
        bound,
    )
}

/// The agent that the process offers of its own.
fn process_offer(process_agent: &Option<String>) -> (r: OfferedAgent)
    ensures
        is_process_agent(r, opt_text(*process_agent)),
{
    match process_agent {
        Some(socket) => OfferedAgent::Socket(socket.clone()),
        None => OfferedAgent::Unset,
    }
}

/// Parts paths into those that are in `present` and those that are not.
fn part(paths: Vec<String>, present: &Vec<String>) -> (r: (Vec<String>, Vec<String>))
    ensures
        texts(r.0@) == parted(texts(paths@), texts(present@), true),
        texts(r.1@) == parted(texts(paths@), texts(present@), false),
{
    let mut there: Vec<String> = Vec::new();
    let mut absent: Vec<String> = Vec::new();
    let ghost all = texts(paths@);
    proof {
        assert(texts(there@) =~= Seq::<Seq<char>>::empty());
        assert(texts(absent@) =~= Seq::<Seq<char>>::empty());
    }
    for path in it: paths
        invariant
            it.seq() == paths@,
            all == texts(paths@),
            texts(there@) == parted(all.take(it.index() as int), texts(present@), true),
            texts(absent@) == parted(all.take(it.index() as int), texts(present@), false),
    {
        let ghost n = it.index() as int;
        let ghost found = path@;
        proof {
            assert(all[n] == found);
            assert(all.take(n + 1).drop_last() =~= all.take(n));
            assert(all.take(n + 1).last() == found);
        }
        if has_text(present, path.as_str()) {
            let ghost before = texts(there@);
            there.push(path);
            proof {
                assert(texts(there@) =~= before.push(found));
            }
        } else {
            let ghost before = texts(absent@);
            absent.push(path);
            proof {
                assert(texts(absent@) =~= before.push(found));
            }
        }
    }
    proof {
        assert(all.take(paths@.len() as int) =~= all);
    }
    (there, absent)
}

/// The plan for one connection, from what `ssh` selects for the host; nothing
/// where no `ssh` is installed to ask. A host whose configuration selects
/// another agent than the one that this process is bound to is refused by name.
/// `present` are the paths that are files on this machine.
pub fn plan_ssh_credentials(
    user: String,
    target: &SshTarget,
    host_config: Option<SshHostConfig>,
    process_agent: &Option<String>,
    default_identity_files: Vec<String>,
    present: &Vec<String>,
) -> (r: Result<SshCredentialPlan, String>)
    ensures
        match r {
            Ok(plan) => is_plan(
                plan,
                user@,
                *target,
                host_config,
                opt_text(*process_agent),
                texts(default_identity_files@),
                texts(present@),
            ),
            Err(text) => is_refused(*target, host_config, opt_text(*process_agent), text@),
        },
{
    let (agent, identity_files) = match host_config {
        None => (process_offer(process_agent), default_identity_files),
        Some(config) => {
            let agent = match config.identity_agent {
                IdentityAgent::FromEnvironment => process_offer(process_agent),
                IdentityAgent::Disabled => OfferedAgent::Disabled,
                IdentityAgent::Socket(selected) => {
                    let bound: bool = match process_agent {
                        Some(socket) => is_same_path(socket.as_str(), selected.as_str()),
                        None => false,
                    };
                    if !bound {
                        return Err(agent_mismatch(target, selected.as_str(), process_agent));
                    }
                    OfferedAgent::Socket(selected)
                },
            };
            (agent, config.identity_files)
        },
    };
    let (key_files, absent_key_files) = part(identity_files, present);
    Ok(
        SshCredentialPlan {
            user,
            host: target.host.clone(),
            agent,
            key_files,
            absent_key_files,
        },
    )
}

/// What is known of a connection before its plan is made.
pub struct ConnectionFacts {
    /// Where the URL leads, where it is one of ssh.
    pub target: Option<SshTarget>,
    /// What `ssh` selects for the host, or why it could not be asked.
    pub host_config: Result<Option<SshHostConfig>, String>,
    /// The value of the variable that names the agent's socket.
    pub auth_sock: Option<String>,
    pub home: Option<String>,
    /// The paths that are files on this machine.
    pub present: Vec<String>,
}

/// The agent that the process is bound to: a blank variable names none.
pub open spec fn bound_agent(auth_sock: Option<String>) -> Option<Seq<char>> {
    match auth_sock {
        Some(socket) if socket@.len() > 0 => Some(socket@),
        _ => None,
    }
}

/// The plan for a connection to `url`, for this user.
pub fn plan_for_url(url: &str, user: String, facts: ConnectionFacts) -> (r: Result<
    SshCredentialPlan,
    String,
>)
    ensures
        match facts.target {
            None => r matches Err(text) && text@ == url@
                + " is not an ssh URL peppy can read a host from"@,
            Some(target) => match facts.host_config {
                Err(why) => r matches Err(text) && text@ == why@,
                Ok(host_config) => match r {
                    Ok(plan) => is_plan(
                        plan,
                        user@,
                        target,
                        host_config,
                        bound_agent(facts.auth_sock),
                        default_files(facts.home),
                        texts(facts.present@),
                    ),
                    Err(text) => is_refused(
                        target,
                        host_config,
                        bound_agent(facts.auth_sock),
                        text@,
                    ),
                },
            },
        },
{
    let target = match facts.target {
        Some(target) => target,
        None => {
            let mut text: String = url.to_owned();
            text.append(" is not an ssh URL peppy can read a host from");
            return Err(text);
        },
    };
    let host_config = match facts.host_config {
        Ok(config) => config,
        Err(why) => {
            return Err(why);
        },
    };
    let process_agent: Option<String> = match facts.auth_sock {
        Some(socket) => if socket.as_str().is_empty() {
            None
        } else {
            Some(socket)
        },
        None => None,
    };
    let defaults = match &facts.home {
        Some(dir) => default_identity_files(Some(dir.as_str())),
        None => default_identity_files(None),
    };
    plan_ssh_credentials(user, &target, host_config, &process_agent, defaults, &facts.present)
}

/// What kinds of credentials a remote takes.
#[derive(Clone, Copy, Debug, PartialEq, Eq, Structural)]
pub struct AllowedCredentials {
    pub ssh_key: bool,
    pub username: bool,
    pub password: bool,
}

/// The answer to a request for something else than an ssh key: a user name
/// where that alone is asked for, and no password ever.
pub open spec fn other_answer(username: Option<Seq<char>>, allowed: AllowedCredentials) -> AnswerView {
    if allowed.username && !allowed.password {
        AnswerView::Username(
            match username {
                Some(name) => name,
                None => "git"@,
            },
        )
    } else {
        AnswerView::Refuse(
            "peppy authenticates git over ssh through the ssh agent and identity files, and offers no other credentials; embed them in the repository URL instead"@,
        )
    }
}

/// The answer to a request for something else than an ssh key.
pub fn non_ssh_answer(username: Option<&str>, allowed: AllowedCredentials) -> (r: CredentialAnswer)
    ensures
        r@ == other_answer(opt_str(username), allowed),
{
    if allowed.username && !allowed.password {
        let name: String = match username {
            Some(name) => name.to_owned(),
            None => "git".to_owned(),
        };
        return CredentialAnswer::Username(name);
    }
    CredentialAnswer::Refuse(
        "peppy authenticates git over ssh through the ssh agent and identity files, and offers no other credentials; embed them in the repository URL instead".to_owned(),
    )
}

/// The requests for credentials on one connection.
pub struct CredentialSession {
    /// How many credentials were offered.
    pub attempt: usize,
    /// The plan, once a request asked for an ssh key.
    pub plan: Option<Result<SshCredentialPlan, String>>,
}

/// The answer of a session to a request.
pub open spec fn session_answer(
    session: CredentialSession,
    username: Option<Seq<char>>,
    allowed: AllowedCredentials,
    socket_exists: bool,
) -> AnswerView {
    if allowed.ssh_key {
        match session.plan {
            Some(Ok(plan)) => answer_of(plan, session.attempt as int, socket_exists),
            Some(Err(why)) => AnswerView::Refuse(why@),
            None => other_answer(username, allowed),
        }
    } else {
        other_answer(username, allowed)
    }
}

impl CredentialSession {
    /// A session without requests.
    pub fn new() -> (r: Self)
        ensures
            r.attempt == 0,
            r.plan is None,
    {
        CredentialSession { attempt: 0, plan: None }
    }

    /// Whether a request needs the plan made first.
    pub fn needs_plan(&self, allowed: AllowedCredentials) -> (r: bool)
        ensures
            r == (allowed.ssh_key && self.plan is None),
    {
        allowed.ssh_key && self.plan.is_none()
    }

    /// Keeps the plan; the first one stays.
    pub fn set_plan(&mut self, plan: Result<SshCredentialPlan, String>)
        ensures
            final(self).attempt == old(self).attempt,
            final(self).plan == (if old(self).plan is None {
                Some(plan)
            } else {
                old(self).plan
            }),
    {
        if self.plan.is_none() {
            self.plan = Some(plan);
        }
    }

    /// The answer to a request. An offer counts as made, so that it is not made
    /// again: not when the remote refuses it, nor when it cannot be loaded.
    pub fn next(
        &mut self,
        username: Option<&str>,
        allowed: AllowedCredentials,
        socket_exists: bool,
    ) -> (r: CredentialAnswer)
        requires
            allowed.ssh_key ==> old(self).plan is Some,
        ensures
            r@ == session_answer(*old(self), opt_str(username), allowed, socket_exists),
            final(self).plan == old(self).plan,
            final(self).attempt == (if r@ is AgentKey || r@ is KeyFile {
                old(self).attempt + 1
            } else {
                old(self).attempt as int
            }),
    {
        if !allowed.ssh_key {
            return non_ssh_answer(username, allowed);
        }
        let answer = match &self.plan {
            Some(Ok(plan)) => plan.answer(self.attempt, socket_exists),
            Some(Err(why)) => CredentialAnswer::Refuse(why.clone()),
            None => non_ssh_answer(username, allowed),
        };
        let offered: bool = match &answer {
            CredentialAnswer::AgentKey(_) => true,
            CredentialAnswer::KeyFile { .. } => true,
            _ => false,
        };
        if offered {
            self.attempt = self.attempt + 1;
        }
        answer
    }
}

/// A plan offers the agent first, if it has one, and each identity file that is
/// there once, in order; every request after that is refused.
pub proof fn every_credential_is_offered_once(
    plan: SshCredentialPlan,
    attempt: int,
    socket_exists: bool,
)
    requires
        attempt >= 0,
    ensures
        answer_of(plan, attempt, socket_exists) is Refuse <==> attempt >= offers_of(plan).len(),
        answer_of(plan, attempt, socket_exists) is AgentKey <==> attempt == 0 && plan.agent is Socket,
        offers_of(plan).len() == plan.key_files@.len() + (if plan.agent is Socket {
            1int
        } else {
            0int
        }),
{
    let n = if plan.agent is Socket {
        1int
    } else {
        0int
    };
    if n <= attempt < offers_of(plan).len() {
        assert(offers_of(plan)[attempt] is KeyFile);
    }
}

/// Whether the path at a place is there.
pub open spec fn is_there_at(
    paths: Seq<Seq<char>>,
    present: Seq<Seq<char>>,
    there: bool,
) -> spec_fn(int) -> bool {
    |k: int| 0 <= k < paths.len() && present.contains(paths[k]) == there
}

/// The path at a place.
pub open spec fn path_at(paths: Seq<Seq<char>>) -> spec_fn(int) -> Seq<char> {
    |k: int| paths[k]
}

/// The parted paths are picked in order.
proof fn lemma_parted(paths: Seq<Seq<char>>, present: Seq<Seq<char>>, there: bool, n: int)
    requires
        0 <= n <= paths.len(),
    ensures
        picked(
            n,
            is_there_at(paths, present, there),
            path_at(paths),
            parted(paths.take(n), present, there),
        ),
    decreases n,
{
    let wanted = is_there_at(paths, present, there);
    if n == 0 {
        lemma_picked_none(wanted, path_at(paths));
        assert(parted(paths.take(0), present, there) =~= Seq::<Seq<char>>::empty());
    } else {
        lemma_parted(paths, present, there, n - 1);
        lemma_picked_next(n - 1, wanted, path_at(paths), parted(paths.take(n - 1), present, there));
        assert(paths.take(n).drop_last() =~= paths.take(n - 1));
    }
}

/// A connection is refused exactly where its configuration selects an agent that this
/// process is not bound to, and the refusal names that agent and the host. Else it offers
/// the agent that is selected, none where it is disabled, and of the identity files that
/// are configured (or the default ones, without a configuration) those that are there.
pub proof fn a_plan_offers_what_is_selected(
    user: String,
    target: SshTarget,
    host_config: Option<SshHostConfig>,
    process_agent: Option<String>,
    default_identity_files: Vec<String>,
    present: Vec<String>,
    r: Result<SshCredentialPlan, String>,
)
    requires
        call_ensures(
            plan_ssh_credentials,
            (user, &target, host_config, &process_agent, default_identity_files, &present),
            r,
        ),
    ensures
        r is Err <==> (host_config matches Some(config) && (
        config.identity_agent matches IdentityAgent::Socket(selected) && !(
        process_agent matches Some(socket) && same_path(socket@, selected@)))),
        r matches Err(text) ==> mentions(text@, target.host@) && (host_config matches Some(config)
            && (config.identity_agent matches IdentityAgent::Socket(selected) && mentions(
            text@,
            selected@,
        ))),
        r matches Ok(plan) ==> {
            let files = match host_config {
                Some(config) => texts(config.identity_files@),
                None => texts(default_identity_files@),
            };
            &&& plan.user@ == user@ && plan.host@ == target.host@
            &&& picked(
                files.len() as int,
                is_there_at(files, texts(present@), true),
                path_at(files),
                texts(plan.key_files@),
            )
            &&& picked(
                files.len() as int,
                is_there_at(files, texts(present@), false),
                path_at(files),
                texts(plan.absent_key_files@),
            )
            &&& host_config matches Some(config) ==> match config.identity_agent {
                IdentityAgent::Disabled => plan.agent is Disabled,
                IdentityAgent::Socket(selected) => plan.agent matches OfferedAgent::Socket(offered)
                    && offered@ == selected@,
                IdentityAgent::FromEnvironment => true,
            }
            &&& host_config is None || host_config->0.identity_agent is FromEnvironment
                ==> match process_agent {
                Some(socket) => plan.agent matches OfferedAgent::Socket(offered) && offered@
                    == socket@,
                None => plan.agent is Unset,
            }
        },
{
    let files = wanted_files(host_config, texts(default_identity_files@));
    lemma_parted(files, texts(present@), true, files.len() as int);
    lemma_parted(files, texts(present@), false, files.len() as int);
    assert(files.take(files.len() as int) =~= files);
    if let Err(text) = r {
        if let Some(config) = host_config {
            if let IdentityAgent::Socket(selected) = config.identity_agent {
                lemma_mismatch_text(target.host@, selected@, opt_text(process_agent));
            }
        }
    }
}

/// The refusal names the agent and the host.
proof fn lemma_mismatch_text(host: Seq<char>, selected: Seq<char>, bound: Option<Seq<char>>)
    ensures
        mentions(mismatch_text(host, selected, bound), host),
        mentions(mismatch_text(host, selected, bound), selected),
{
    let a = "~/.ssh/config selects the ssh agent at "@;
    let b = " (IdentityAgent), but this daemon is bound to "@;
    let c = match bound {
        Some(socket) => "the agent at "@ + socket,
        None => "no agent (SSH_AUTH_SOCK is unset)"@,
    };
    let d = " for its lifetime: when it starts it binds the agent ssh selects for a host with no host-specific configuration. Give every host that IdentityAgent (a `Host *` block) and restart the daemon"@;
    let start = a + selected + " for "@;
    what_is_written_is_mentioned(a, selected, " for "@);
    a_longer_text_mentions_as_much(start, selected, host);
    a_longer_text_mentions_as_much(start + host, selected, b);
    a_longer_text_mentions_as_much(start + host + b, selected, c);
    a_longer_text_mentions_as_much(start + host + b + c, selected, d);
    what_is_written_is_mentioned(start, host, b);
    a_longer_text_mentions_as_much(start + host + b, host, c);
    a_longer_text_mentions_as_much(start + host + b + c, host, d);
}

/// The requests of a connection are answered with the agent first, where there is one,
/// and with each identity file that is there in its turn, for the plan's user; after that
/// they are refused.
pub proof fn an_attempt_has_its_own_credential(
    plan: SshCredentialPlan,
    attempt: usize,
    socket_exists: bool,
    r: CredentialAnswer,
)
    requires
        call_ensures(SshCredentialPlan::answer, (&plan, attempt, socket_exists), r),
    ensures
        ({
            let first = if plan.agent is Socket {
                1int
            } else {
                0int
            };
            &&& attempt < first ==> (r matches CredentialAnswer::AgentKey(user) && user@
                == plan.user@)
            &&& first <= attempt < first + plan.key_files@.len() ==> (
            r matches CredentialAnswer::KeyFile { user, key } && user@ == plan.user@ && key@
                == plan.key_files@[attempt - first]@)
            &&& attempt >= first + plan.key_files@.len() ==> r is Refuse
        }),
{
    let first = if plan.agent is Socket {
        1int
    } else {
        0int
    };
    let offers = offers_of(plan);
    assert(texts(plan.key_files@).len() == plan.key_files@.len());
    assert(offers.len() == first + plan.key_files@.len());
    if attempt < first {
        assert(offers[attempt as int] == AnswerView::AgentKey(plan.user@));
    }
    if first <= attempt < first + plan.key_files@.len() {
        assert(texts(plan.key_files@)[attempt - first] == plan.key_files@[attempt - first]@);
        assert(offers[attempt as int] == (AnswerView::KeyFile {
            user: plan.user@,
            key: plan.key_files@[attempt - first]@,
        }));
    }
}

/// Whoever does not ask for an ssh key is given a name, where a name alone is asked for,
/// and nothing else; no password is ever offered.
pub proof fn no_password_is_offered(
    username: Option<&str>,
    allowed: AllowedCredentials,
    r: CredentialAnswer,
)
    requires
        call_ensures(non_ssh_answer, (username, allowed), r),
    ensures
        r is Username <==> allowed.username && !allowed.password,
        r is Username || r is Refuse,
        r matches CredentialAnswer::Username(name) ==> (username matches Some(given) ==> name@
            == given@) && (username is None ==> name@ == "git"@),
{
}

/// A session offers its plan's credentials one after the other: a request for a key is
/// answered from the plan, an offer counts as made, and a plan that failed refuses with
/// its reason.
pub proof fn a_session_goes_through_its_plan(
    session: &mut CredentialSession,
    username: Option<&str>,
    allowed: AllowedCredentials,
    socket_exists: bool,
    r: CredentialAnswer,
)
    requires
        allowed.ssh_key ==> old(session).plan is Some,
        call_ensures(CredentialSession::next, (session, username, allowed, socket_exists), r),
    ensures
        final(session).plan == old(session).plan,
        r is AgentKey || r is KeyFile <==> final(session).attempt == old(session).attempt + 1,
        !(r is AgentKey || r is KeyFile) ==> final(session).attempt == old(session).attempt,
        !allowed.ssh_key ==> r is Username || r is Refuse,
        allowed.ssh_key ==> (old(session).plan matches Some(Err(why)) ==> (
        r matches CredentialAnswer::Refuse(text) && text@ == why@)),
        allowed.ssh_key ==> (old(session).plan matches Some(Ok(plan)) ==> (r is Refuse <==> old(
            session,
        ).attempt >= plan.key_files@.len() + (if plan.agent is Socket {
            1int
        } else {
            0int
        }))),
{
    if allowed.ssh_key {
        if let Some(Ok(plan)) = old(session).plan {
            every_credential_is_offered_once(plan, old(session).attempt as int, socket_exists);
            let n = if plan.agent is Socket {
                1int
            } else {
                0int
            };
            if n <= old(session).attempt < offers_of(plan).len() {
                assert(offers_of(plan)[old(session).attempt as int] is KeyFile);
            }
        }
    }
}

/// A connection has a plan only where its URL leads somewhere over ssh and `ssh` could be
/// asked about the host; a blank variable names no agent.
pub proof fn only_ssh_urls_have_a_plan(
    url: &str,
    user: String,
    facts: ConnectionFacts,
    r: Result<SshCredentialPlan, String>,
)
    requires
        call_ensures(plan_for_url, (url, user, facts), r),
    ensures
        r is Ok ==> facts.target is Some && facts.host_config is Ok,
        facts.target is None ==> (r matches Err(text) && mentions(text@, url@)),
        facts.target is Some ==> (facts.host_config matches Err(why) ==> (r matches Err(text)
            && text@ == why@)),
        r matches Ok(plan) ==> plan.user@ == user@ && (facts.target matches Some(target)
            && plan.host@ == target.host@),
        r matches Ok(plan) ==> (facts.host_config matches Ok(config) && (config is None && !(
        facts.auth_sock matches Some(socket) && socket@.len() > 0) ==> plan.agent is Unset)),
{
    what_is_written_is_mentioned(""@, url@, " is not an ssh URL peppy can read a host from"@);
}

} // verus!
