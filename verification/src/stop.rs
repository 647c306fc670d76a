//! Stopping instances: a cooperative request first, a bounded wait, and then
//! the kill of whatever process group is left.
use crate::order::{lemma_picked_next, lemma_picked_none, picked};
use crate::text::{a_longer_text_mentions_as_much, decimal, mentions, str_eq, texts, to_decimal, what_is_written_is_mentioned};
use crate::time::Span;
use vstd::prelude::*;
use vstd::string::*;

pub mod machine;

verus! {

/// How long killed process groups are waited for, in seconds.
pub const TEARDOWN_REAP_BUDGET_SECS: u64 = 2;

/// How long a cooperative shutdown request may take, in seconds.
pub const SHUTDOWN_TIMEOUT_SECS: u64 = 5;

/// How often the processes are looked at, in milliseconds.
pub const PROCESS_POLL_INTERVAL_MILLIS: u64 = 100;

/// How long the kill inside a container's virtual machine is waited for, in
/// seconds.
pub const GUEST_FORCE_KILL_BUDGET_SECS: u64 = 30;

/// One past the longest span that a number of seconds and nanoseconds can
/// hold.
pub open spec fn span_limit() -> int {
    (u64::MAX + 1) * 1_000_000_000
}

/// What a node's cooperative exit may cost, in nanoseconds: its hooks' grace,
/// then the end of its event loop, then that of its interpreter.
pub open spec fn exit_cost(grace_nanos: int, join_secs: int, finalize_secs: int) -> int {
    grace_nanos + (join_secs + finalize_secs) * 1_000_000_000
}

/// How long a stopping node's process is waited for before its group is
/// killed.
pub fn force_kill_deadline(
    shutdown_grace: Span,
    event_loop_join_secs: u64,
    runtime_finalize_secs: u64,
) -> (r: Span)
    requires
        event_loop_join_secs + runtime_finalize_secs <= u64::MAX,
        shutdown_grace.nanos + (event_loop_join_secs + runtime_finalize_secs) * 1_000_000_000
            < span_limit(),
    ensures
        r.nanos == exit_cost(
            shutdown_grace.nanos as int,
            event_loop_join_secs as int,
            runtime_finalize_secs as int,
        ),
{
    let more = Span::from_secs(event_loop_join_secs + runtime_finalize_secs);
    Span { nanos: shutdown_grace.nanos + more.nanos }
}

/// A node that needs its whole grace, and ends its event loop and its
/// interpreter in time, is gone before its deadline.
pub proof fn a_cooperative_node_is_not_killed(
    grace: int,
    join: int,
    finalize: int,
    hooks_took: int,
    join_took: int,
    finalize_took: int,
)
    requires
        0 <= hooks_took <= grace,
        0 <= join_took <= join * 1_000_000_000,
        0 <= finalize_took <= finalize * 1_000_000_000,
    ensures
        hooks_took + join_took + finalize_took <= exit_cost(grace, join, finalize),
{
}

/// An instance to stop: its identity, and its process where one is known.
pub struct DoomedInstance {
    pub node_name: String,
    pub node_tag: String,
    pub instance_id: String,
    pub pid: Option<u32>,
    pub is_container: bool,
}

/// How an instance ended.
#[derive(Clone, Copy, Debug, PartialEq, Eq, Structural)]
pub enum StopOutcome {
    /// It exited of its own in time.
    Graceful,
    /// It did not, and its process group was killed.
    ForceKilled,
    /// It has no known process.
    NoProcess,
}

/// How an instance ends whose process runs, or does not, once the wait is
/// over.
pub open spec fn outcome_of(pid: Option<u32>, running: bool) -> StopOutcome {
    if pid is None {
        StopOutcome::NoProcess
    } else if running {
        StopOutcome::ForceKilled
    } else {
        StopOutcome::Graceful
    }
}

/// What the forced part of a stop does: the process groups to kill, the
/// instances whose groups inside a virtual machine are killed too, and how
/// each instance ended.
pub struct ForcePlan {
    pub kill: Vec<u32>,
    pub guest_keys: Vec<String>,
    pub outcomes: Vec<StopOutcome>,
}

/// The known processes of the first `n` instances, in order.
pub open spec fn known_pids(doomed: Seq<DoomedInstance>, n: int) -> Seq<u32>
    decreases n,
{
    if n <= 0 || n > doomed.len() {
        Seq::empty()
    } else {
        match doomed[n - 1].pid {
            Some(pid) => known_pids(doomed, n - 1).push(pid),
            None => known_pids(doomed, n - 1),
        }
    }
}

/// The ids of the first `n` instances that are containers with a known
/// process, in order.
pub open spec fn container_keys(doomed: Seq<DoomedInstance>, n: int) -> Seq<Seq<char>>
    decreases n,
{
    if n <= 0 || n > doomed.len() {
        Seq::empty()
    } else if doomed[n - 1].pid is Some && doomed[n - 1].is_container {
        container_keys(doomed, n - 1).push(doomed[n - 1].instance_id@)
    } else {
        container_keys(doomed, n - 1)
    }
}

/// The known processes of instances, in order.
pub fn doomed_pids(doomed: &Vec<DoomedInstance>) -> (r: Vec<u32>)
    ensures
        r@ == known_pids(doomed@, doomed@.len() as int),
{
    let mut out: Vec<u32> = Vec::new();
    let mut i: usize = 0;
    while i < doomed.len()
        invariant
            i <= doomed@.len(),
            out@ == known_pids(doomed@, i as int),
        decreases doomed.len() - i,
    {
        if let Some(pid) = doomed[i].pid {
            out.push(pid);
        }
        i += 1;
    }
    out
}

/// Whether a process counts as running: it is there and no zombie.
pub fn pid_running(present: bool, zombie: bool) -> (r: bool)
    ensures
        r == (present && !zombie),
{
    present && !zombie
}

/// Whether the wait for instances is over: none of their processes runs.
pub fn all_gone(running: &Vec<bool>) -> (r: bool)
    ensures
        r == !running@.contains(true),
{
    let mut i: usize = 0;
    while i < running.len()
        invariant
            i <= running@.len(),
            forall|k: int| 0 <= k < i ==> !(#[trigger] running@[k]),
        decreases running.len() - i,
    {
        if running[i] {
            proof {
                assert(running@[i as int]);
            }
            return false;
        }
        i += 1;
    }
    true
}

/// What the forced part of a stop does, once the wait is over: every known
/// process group is killed, whether its leader still runs or not, since a
/// group can outlive its leader. `running` says of each instance whether its
/// process still runs.
pub fn force_plan(doomed: &Vec<DoomedInstance>, running: &Vec<bool>) -> (r: ForcePlan)
    requires
        running@.len() == doomed@.len(),
    ensures
        r.kill@ == known_pids(doomed@, doomed@.len() as int),
        texts(r.guest_keys@) == container_keys(doomed@, doomed@.len() as int),
        r.outcomes@.len() == doomed@.len(),
        forall|k: int|
            0 <= k < doomed@.len() ==> #[trigger] r.outcomes@[k] == outcome_of(
                doomed@[k].pid,
                running@[k],
            ),
{
    let mut kill: Vec<u32> = Vec::new();
    let mut guest_keys: Vec<String> = Vec::new();
    let mut outcomes: Vec<StopOutcome> = Vec::new();
    let mut i: usize = 0;
    proof {
        assert(texts(guest_keys@) =~= Seq::<Seq<char>>::empty());
    }
    while i < doomed.len()
        invariant
            i <= doomed@.len(),
            running@.len() == doomed@.len(),
            kill@ == known_pids(doomed@, i as int),
            texts(guest_keys@) == container_keys(doomed@, i as int),
            outcomes@.len() == i,
            forall|k: int|
                0 <= k < i ==> #[trigger] outcomes@[k] == outcome_of(doomed@[k].pid, running@[k]),
        decreases doomed.len() - i,
    {
        let ghost before = texts(guest_keys@);
        match doomed[i].pid {
            None => {
                outcomes.push(StopOutcome::NoProcess);
            },
            Some(pid) => {
                if running[i] {
                    outcomes.push(StopOutcome::ForceKilled);
                } else {
                    outcomes.push(StopOutcome::Graceful);
                }
                kill.push(pid);
                if doomed[i].is_container {
                    guest_keys.push(doomed[i].instance_id.clone());
                    proof {
                        assert(texts(guest_keys@) =~= before.push(doomed@[i as int].instance_id@));
                    }
                }
            },
        }
        i += 1;
    }
    ForcePlan { kill, guest_keys, outcomes }
}

/// Every known process group is killed: the plan names it.
pub proof fn every_known_group_is_killed(doomed: Seq<DoomedInstance>, n: int, k: int)
    requires
        0 <= k < n <= doomed.len(),
        doomed[k].pid is Some,
    ensures
        known_pids(doomed, n).contains(doomed[k].pid->0),
    decreases n,
{
    let last = known_pids(doomed, n);
    if k == n - 1 {
        assert(last[last.len() - 1] == doomed[k].pid->0);
    } else {
        every_known_group_is_killed(doomed, n - 1, k);
        let before = known_pids(doomed, n - 1);
        let j = choose|j: int| 0 <= j < before.len() && before[j] == doomed[k].pid->0;
        assert(last[j] == before[j]);
    }
}

/// The instances that are signalled before the wait: containers with a known
/// process whose shutdown request failed. `failed` says that of each.
pub open spec fn unreached_containers(doomed: Seq<DoomedInstance>, failed: Seq<bool>, n: int) -> Seq<
    int,
>
    decreases n,
{
    if n <= 0 || n > doomed.len() {
        Seq::empty()
    } else if failed[n - 1] && doomed[n - 1].is_container && doomed[n - 1].pid is Some {
        unreached_containers(doomed, failed, n - 1).push(n - 1)
    } else {
        unreached_containers(doomed, failed, n - 1)
    }
}

/// The instances that are signalled before the wait, by their places.
pub fn failed_containers(doomed: &Vec<DoomedInstance>, failed: &Vec<bool>) -> (r: Vec<usize>)
    requires
        failed@.len() == doomed@.len(),
    ensures
        r@.len() == unreached_containers(doomed@, failed@, doomed@.len() as int).len(),
        forall|k: int|
            0 <= k < r@.len() ==> #[trigger] r@[k] == unreached_containers(
                doomed@,
                failed@,
                doomed@.len() as int,
            )[k] && r@[k] < doomed@.len() && doomed@[r@[k] as int].pid is Some,
{
    let mut out: Vec<usize> = Vec::new();
    let mut i: usize = 0;
    while i < doomed.len()
        invariant
            i <= doomed@.len(),
            failed@.len() == doomed@.len(),
            out@.len() == unreached_containers(doomed@, failed@, i as int).len(),
            forall|k: int|
                0 <= k < out@.len() ==> #[trigger] out@[k] == unreached_containers(
                    doomed@,
                    failed@,
                    i as int,
                )[k] && out@[k] < i && doomed@[out@[k] as int].pid is Some,
        decreases doomed.len() - i,
    {
        if failed[i] && doomed[i].is_container && doomed[i].pid.is_some() {
            out.push(i);
        }
        i += 1;
    }
    out
}

/// A signal for a whole process group.
#[derive(Clone, Copy, Debug, PartialEq, Eq, Structural)]
pub enum GroupSignal {
    Kill,
    Terminate,
}

/// What is sent to the process group that a process leads.
#[derive(Clone, Copy, Debug, PartialEq, Eq, Structural)]
pub struct SignalRequest {
    pub group: i32,
    pub signal: GroupSignal,
}

/// The request that kills the process group led by `pid`.
pub fn kill_process_group(pid: u32) -> (r: SignalRequest)
    ensures
        r == (SignalRequest { group: pid as i32, signal: GroupSignal::Kill }),
{
    SignalRequest { group: pid as i32, signal: GroupSignal::Kill }
}

/// The request that terminates the process group led by `pid`.
pub fn terminate_process_group(pid: u32) -> (r: SignalRequest)
    ensures
        r == (SignalRequest { group: pid as i32, signal: GroupSignal::Terminate }),
{
    SignalRequest { group: pid as i32, signal: GroupSignal::Terminate }
}

/// What came of a signal.
pub enum SignalResult {
    Sent,
    /// The group is already gone.
    NoSuchGroup,
    Failed(String),
}

/// The name of a signal.
pub open spec fn signal_name(signal: GroupSignal) -> Seq<char> {
    match signal {
        GroupSignal::Kill => "SIGKILL"@,
        GroupSignal::Terminate => "SIGTERM"@,
    }
}

/// What is reported of a signal, where anything is: a group that is already
/// gone is what was wanted.
pub fn signal_report(signal: GroupSignal, pid: u32, result: &SignalResult) -> (r: Option<String>)
    ensures
        match *result {
            SignalResult::Sent | SignalResult::NoSuchGroup => r is None,
            SignalResult::Failed(why) => r matches Some(text) && text@ == "Failed to "@
                + signal_name(signal) + " node process group (pid "@ + decimal(pid as nat)
                + "): "@ + why@,
        },
{
    match result {
        SignalResult::Sent | SignalResult::NoSuchGroup => None,
        SignalResult::Failed(why) => {
            let mut text: String = "Failed to ".to_owned();
            match signal {
                GroupSignal::Kill => text.append("SIGKILL"),
                GroupSignal::Terminate => text.append("SIGTERM"),
            }
            text.append(" node process group (pid ");
            text.append(to_decimal(pid as u64).as_str());
            text.append("): ");
            text.append(why.as_str());
            Some(text)
        },
    }
}

/// A node of the stack with its instances, each with its process where one is
/// known.
pub struct StackEntry {
    pub is_root: bool,
    pub node_name: String,
    pub node_tag: String,
    pub is_container: bool,
    pub instances: Vec<(String, Option<u32>)>,
}

/// An instance to stop, its texts as sequences.
pub struct DoomedView {
    pub node_name: Seq<char>,
    pub node_tag: Seq<char>,
    pub instance_id: Seq<char>,
    pub pid: Option<u32>,
    pub is_container: bool,
}

impl View for DoomedInstance {
    type V = DoomedView;

    open spec fn view(&self) -> DoomedView {
        DoomedView {
            node_name: self.node_name@,
            node_tag: self.node_tag@,
            instance_id: self.instance_id@,
            pid: self.pid,
            is_container: self.is_container,
        }
    }
}

/// The instances of a list, their texts as sequences.
pub open spec fn doomed_views(list: Seq<DoomedInstance>) -> Seq<DoomedView> {
    list.map_values(|doomed: DoomedInstance| doomed@)
}

/// The first `n` instances of one node, to be stopped.
pub open spec fn entry_doomed(entry: StackEntry, n: int) -> Seq<DoomedView>
    decreases n,
{
    if n <= 0 || n > entry.instances@.len() {
        Seq::empty()
    } else {
        entry_doomed(entry, n - 1).push(
            DoomedView {
                node_name: entry.node_name@,
                node_tag: entry.node_tag@,
                instance_id: entry.instances@[n - 1].0@,
                pid: entry.instances@[n - 1].1,
                is_container: entry.is_container,
            },
        )
    }
}

/// The instances of the first `n` nodes, without the core node's.
pub open spec fn stack_doomed(entries: Seq<StackEntry>, n: int) -> Seq<DoomedView>
    decreases n,
{
    if n <= 0 || n > entries.len() {
        Seq::empty()
    } else if entries[n - 1].is_root {
        stack_doomed(entries, n - 1)
    } else {
        stack_doomed(entries, n - 1) + entry_doomed(
            entries[n - 1],
            entries[n - 1].instances@.len() as int,
        )
    }
}

/// Every instance of the stack but the core node's, in order, to be stopped:
/// those that are starting too, since they have a process already.
pub fn collect_doomed_instances(entries: &Vec<StackEntry>) -> (r: Vec<DoomedInstance>)
    ensures
        doomed_views(r@) == stack_doomed(entries@, entries@.len() as int),
{
    let mut out: Vec<DoomedInstance> = Vec::new();
    let mut i: usize = 0;
    proof {
        assert(doomed_views(out@) =~= Seq::<DoomedView>::empty());
    }
    while i < entries.len()
        invariant
            i <= entries@.len(),
            doomed_views(out@) == stack_doomed(entries@, i as int),
        decreases entries.len() - i,
    {
        let entry = &entries[i];
        if !entry.is_root {
            let ghost before = doomed_views(out@);
            let mut j: usize = 0;
            proof {
                assert(before + entry_doomed(*entry, 0) =~= before);
            }
            while j < entry.instances.len()
                invariant
                    j <= entry.instances@.len(),
                    doomed_views(out@) == before + entry_doomed(*entry, j as int),
                decreases entry.instances.len() - j,
            {
                let ghost inner = doomed_views(out@);
                out.push(
                    DoomedInstance {
                        node_name: entry.node_name.clone(),
                        node_tag: entry.node_tag.clone(),
                        instance_id: entry.instances[j].0.clone(),
                        pid: entry.instances[j].1,
                        is_container: entry.is_container,
                    },
                );
                proof {
                    let added = entry_doomed(*entry, j + 1).last();
                    assert(out@[out@.len() - 1]@ == added);
                    assert(doomed_views(out@) =~= inner.push(added));
                    assert(inner.push(added) =~= before + entry_doomed(*entry, j + 1));
                }
                j += 1;
            }
        }
        i += 1;
    }
    out
}

/// What a stop request finds.
pub struct StopLookup {
    /// Why the instance id is no valid name.
    pub name_problem: Option<String>,
    /// The running instance of that id.
    pub found: Option<DoomedInstance>,
    /// Whether an instance of that id is starting.
    pub starting: bool,
    pub root_name: String,
    pub root_tag: String,
}

/// The refusal of a stop request, where it is refused.
pub open spec fn stop_refusal(raw_id: Seq<char>, looked: StopLookup) -> Option<Seq<char>> {
    match (looked.name_problem, looked.found) {
        (Some(why), _) => Some("Invalid instance_id: "@ + why@),
        (None, None) => if looked.starting {
            Some(
                "Node instance '"@ + raw_id
                    + "' is in Starting state; retry after the start completes"@,
            )
        } else {
            Some("Node instance '"@ + raw_id + "' not found in node stack"@)
        },
        (None, Some(doomed)) => if doomed.node_name@ == looked.root_name@ && doomed.node_tag@
            == looked.root_tag@ {
            Some("Cannot stop the core node"@)
        } else {
            None
        },
    }
}

/// The failure of a stop whose instance is not running: one that is starting
/// can be tried again.
pub fn stop_lookup_failure(raw_id: &str, starting: bool) -> (r: String)
    ensures
        r@ == if starting {
            "Node instance '"@ + raw_id@ + "' is in Starting state; retry after the start completes"@
        } else {
            "Node instance '"@ + raw_id@ + "' not found in node stack"@
        },
{
    let mut text: String = "Node instance '".to_owned();
    text.append(raw_id);
    if starting {
        text.append("' is in Starting state; retry after the start completes");
    } else {
        text.append("' not found in node stack");
    }
    text
}

/// Whom a stop request stops, or why it is refused.
pub fn check_stop(raw_id: &str, looked: StopLookup) -> (r: Result<DoomedInstance, String>)
    ensures
        match r {
            Ok(doomed) => stop_refusal(raw_id@, looked) is None && looked.found == Some(doomed),
            Err(text) => stop_refusal(raw_id@, looked) == Some(text@),
        },
{
    if let Some(why) = looked.name_problem {
        let mut text: String = "Invalid instance_id: ".to_owned();
        text.append(why.as_str());
        return Err(text);
    }
    match looked.found {
        None => Err(stop_lookup_failure(raw_id, looked.starting)),
        Some(doomed) => {
            if str_eq(doomed.node_name.as_str(), looked.root_name.as_str()) && str_eq(
                doomed.node_tag.as_str(),
                looked.root_tag.as_str(),
            ) {
                return Err("Cannot stop the core node".to_owned());
            }
            Ok(doomed)
        },
    }
}

/// Whom the replacement of a node stops: these instances of it, each with its
/// process where it is still known. A node that is gone has none.
pub fn stop_instances(node: Option<&StackEntry>, instance_ids: &Vec<String>) -> (r: Vec<
    DoomedInstance,
>)
    ensures
        match node {
            None => r@.len() == 0,
            Some(entry) => r@.len() == instance_ids@.len() && forall|k: int|
                0 <= k < r@.len() ==> (#[trigger] r@[k])@ == (DoomedView {
                    node_name: entry.node_name@,
                    node_tag: entry.node_tag@,
                    instance_id: instance_ids@[k]@,
                    pid: pid_of(entry.instances@, instance_ids@[k]@, 0),
                    is_container: entry.is_container,
                }),
        },
{
    let mut out: Vec<DoomedInstance> = Vec::new();
    let entry = match node {
        None => {
            return out;
        },
        Some(entry) => entry,
    };
    let mut i: usize = 0;
    while i < instance_ids.len()
        invariant
            i <= instance_ids@.len(),
            out@.len() == i,
            forall|k: int|
                0 <= k < i ==> (#[trigger] out@[k])@ == (DoomedView {
                    node_name: entry.node_name@,
                    node_tag: entry.node_tag@,
                    instance_id: instance_ids@[k]@,
                    pid: pid_of(entry.instances@, instance_ids@[k]@, 0),
                    is_container: entry.is_container,
                }),
        decreases instance_ids.len() - i,
    {
        out.push(
            DoomedInstance {
                node_name: entry.node_name.clone(),
                node_tag: entry.node_tag.clone(),
                instance_id: instance_ids[i].clone(),
                pid: find_pid(&entry.instances, instance_ids[i].as_str()),
                is_container: entry.is_container,
            },
        );
        i += 1;
    }
    out
}

/// Whether an instance of this id is among those that are starting.
pub open spec fn is_starting(instances: Seq<(String, bool)>, id: Seq<char>) -> bool {
    exists|k: int| 0 <= k < instances.len() && (#[trigger] instances[k]).0@ == id && instances[k].1
}

/// Whether an instance of this id is starting, where `instances` holds those of
/// the whole stack, each with whether it is starting.
pub fn instance_is_in_starting(instances: &Vec<(String, bool)>, id: &str) -> (r: bool)
    ensures
        r == exists|k: int|
            0 <= k < instances@.len() && (#[trigger] instances@[k]).0@ == id@ && instances@[k].1,
        r == is_starting(instances@, id@),
{
    let mut i: usize = 0;
    while i < instances.len()
        invariant
            i <= instances@.len(),
            forall|k: int|
                0 <= k < i ==> !((#[trigger] instances@[k]).0@ == id@ && instances@[k].1),
        decreases instances.len() - i,
    {
        if instances[i].1 && str_eq(instances[i].0.as_str(), id) {
            return true;
        }
        i += 1;
    }
    false
}

/// The process of the first instance of this id, looking from entry `from` on.
pub open spec fn pid_of(
    instances: Seq<(String, Option<u32>)>,
    id: Seq<char>,
    from: int,
) -> Option<u32>
    decreases instances.len() - from,
{
    if from < 0 || from >= instances.len() {
        None
    } else if instances[from].0@ == id {
        instances[from].1
    } else {
        pid_of(instances, id, from + 1)
    }
}

/// The process of the first instance of this id.
fn find_pid(instances: &Vec<(String, Option<u32>)>, id: &str) -> (r: Option<u32>)
    ensures
        r == pid_of(instances@, id@, 0),
{
    let mut i: usize = 0;
    while i < instances.len()
        invariant
            i <= instances@.len(),
            pid_of(instances@, id@, 0) == pid_of(instances@, id@, i as int),
        decreases instances.len() - i,
    {
        if str_eq(instances[i].0.as_str(), id) {
            return instances[i].1;
        }
        i += 1;
    }
    None
}

/// The core node's instances are never among those that a teardown stops.
pub proof fn a_teardown_spares_the_core_node(entries: Seq<StackEntry>, n: int, k: int)
    requires
        0 <= n <= entries.len(),
        0 <= k < stack_doomed(entries, n).len(),
    ensures
        exists|i: int|
            0 <= i < n && !(#[trigger] entries[i]).is_root && entries[i].node_name@ == stack_doomed(
                entries,
                n,
            )[k].node_name && entries[i].node_tag@ == stack_doomed(entries, n)[k].node_tag,
    decreases n,
{
    let last = entries[n - 1];
    let before = stack_doomed(entries, n - 1);
    if last.is_root {
        a_teardown_spares_the_core_node(entries, n - 1, k);
    } else if k < before.len() {
        a_teardown_spares_the_core_node(entries, n - 1, k);
    } else {
        lemma_entry_doomed(last, last.instances@.len() as int, k - before.len());
        assert(!entries[n - 1].is_root);
    }
}

/// The instances of a node are stopped under its name and tag.
proof fn lemma_entry_doomed(entry: StackEntry, n: int, k: int)
    requires
        0 <= k < entry_doomed(entry, n).len(),
    ensures
        entry_doomed(entry, n)[k].node_name == entry.node_name@,
        entry_doomed(entry, n)[k].node_tag == entry.node_tag@,
    decreases n,
{
    if k < entry_doomed(entry, n - 1).len() {
        lemma_entry_doomed(entry, n - 1, k);
    }
}

/// How many instances the first `n` nodes have, without the core node's.
pub open spec fn instance_count(entries: Seq<StackEntry>, n: int) -> nat
    decreases n,
{
    if n <= 0 || n > entries.len() {
        0
    } else {
        instance_count(entries, n - 1) + if entries[n - 1].is_root {
            0nat
        } else {
            entries[n - 1].instances@.len()
        }
    }
}

/// An instance of a node, as it is stopped.
pub open spec fn doomed_at(entry: StackEntry, j: int) -> DoomedView {
    DoomedView {
        node_name: entry.node_name@,
        node_tag: entry.node_tag@,
        instance_id: entry.instances@[j].0@,
        pid: entry.instances@[j].1,
        is_container: entry.is_container,
    }
}

/// The instances of a node are stopped one by one.
proof fn lemma_entry_at(entry: StackEntry, n: int, j: int)
    requires
        0 <= j < n <= entry.instances@.len(),
    ensures
        entry_doomed(entry, n).len() == n,
        entry_doomed(entry, n)[j] == doomed_at(entry, j),
    decreases n,
{
    if n > 1 {
        lemma_entry_at(entry, n - 1, if j < n - 1 {
            j
        } else {
            0
        });
    } else {
        assert(entry_doomed(entry, 0).len() == 0);
    }
}

/// The stack's instances stand in the list of those that are stopped, each node's
/// behind those of the nodes before it.
proof fn lemma_stack_at(entries: Seq<StackEntry>, n: int, i: int, j: int)
    requires
        0 <= n <= entries.len(),
    ensures
        stack_doomed(entries, n).len() == instance_count(entries, n),
        0 <= i < n && !entries[i].is_root && 0 <= j < entries[i].instances@.len()
            ==> instance_count(entries, i) + j < instance_count(entries, n) && stack_doomed(
            entries,
            n,
        )[instance_count(entries, i) + j] == doomed_at(entries[i], j),
    decreases n,
{
    if n > 0 {
        let last = entries[n - 1];
        let count = last.instances@.len() as int;
        lemma_stack_at(entries, n - 1, i, j);
        if !last.is_root {
            if count > 0 {
                lemma_entry_at(last, count, if i == n - 1 && 0 <= j < count {
                    j
                } else {
                    0
                });
            } else {
                assert(entry_doomed(last, count).len() == 0);
            }
        }
    }
}

/// A teardown stops everything but the core node: every instance of every other
/// node is listed, in the order of the stack, under its node's name and tag with
/// its process, and the list is as long as those instances are many.
pub proof fn a_teardown_stops_everything_but_the_core_node(
    entries: Vec<StackEntry>,
    r: Vec<DoomedInstance>,
    i: int,
    j: int,
)
    requires
        call_ensures(collect_doomed_instances, (&entries,), r),
        0 <= i < entries@.len(),
        !entries@[i].is_root,
        0 <= j < entries@[i].instances@.len(),
    ensures
        r@.len() == instance_count(entries@, entries@.len() as int),
        instance_count(entries@, i) + j < r@.len(),
        r@[instance_count(entries@, i) + j]@ == (DoomedView {
            node_name: entries@[i].node_name@,
            node_tag: entries@[i].node_tag@,
            instance_id: entries@[i].instances@[j].0@,
            pid: entries@[i].instances@[j].1,
            is_container: entries@[i].is_container,
        }),
{
    lemma_stack_at(entries@, entries@.len() as int, i, j);
    assert(doomed_views(r@).len() == r@.len());
    assert(doomed_views(r@)[instance_count(entries@, i) + j] == r@[instance_count(entries@, i) + j]@);
}

/// A teardown lists no more instances than the nodes other than the core node
/// have.
pub proof fn a_teardown_stops_nothing_else(entries: Vec<StackEntry>, r: Vec<DoomedInstance>)
    requires
        call_ensures(collect_doomed_instances, (&entries,), r),
    ensures
        r@.len() == instance_count(entries@, entries@.len() as int),
{
    lemma_stack_at(entries@, entries@.len() as int, 0, 0);
    assert(doomed_views(r@).len() == r@.len());
}

/// Whether the process of the instance at a place is known.
pub open spec fn has_pid(doomed: Seq<DoomedInstance>) -> spec_fn(int) -> bool {
    |k: int| doomed[k].pid is Some
}

/// The process of the instance at a place.
pub open spec fn pid_at(doomed: Seq<DoomedInstance>) -> spec_fn(int) -> u32 {
    |k: int| doomed[k].pid->0
}

/// Whether the instance at a place is a container with a known process.
pub open spec fn is_guest(doomed: Seq<DoomedInstance>) -> spec_fn(int) -> bool {
    |k: int| doomed[k].is_container && doomed[k].pid is Some
}

/// The id of the instance at a place.
pub open spec fn key_at(doomed: Seq<DoomedInstance>) -> spec_fn(int) -> Seq<char> {
    |k: int| doomed[k].instance_id@
}

/// Whether the instance at a place is a container with a known process that could
/// not be asked.
pub open spec fn is_unreached(doomed: Seq<DoomedInstance>, failed: Seq<bool>) -> spec_fn(
    int,
) -> bool {
    |k: int| failed[k] && doomed[k].is_container && doomed[k].pid is Some
}

/// A place itself.
pub open spec fn the_place() -> spec_fn(int) -> int {
    |k: int| k
}

/// The known processes are those of the instances that have one.
pub proof fn lemma_known_pids(doomed: Seq<DoomedInstance>, n: int)
    requires
        0 <= n <= doomed.len(),
    ensures
        picked(n, has_pid(doomed), pid_at(doomed), known_pids(doomed, n)),
    decreases n,
{
    if n == 0 {
        lemma_picked_none(has_pid(doomed), pid_at(doomed));
    } else {
        lemma_known_pids(doomed, n - 1);
        lemma_picked_next(n - 1, has_pid(doomed), pid_at(doomed), known_pids(doomed, n - 1));
    }
}

/// The container keys are the ids of the containers with a known process.
pub proof fn lemma_container_keys(doomed: Seq<DoomedInstance>, n: int)
    requires
        0 <= n <= doomed.len(),
    ensures
        picked(n, is_guest(doomed), key_at(doomed), container_keys(doomed, n)),
    decreases n,
{
    if n == 0 {
        lemma_picked_none(is_guest(doomed), key_at(doomed));
    } else {
        lemma_container_keys(doomed, n - 1);
        lemma_picked_next(n - 1, is_guest(doomed), key_at(doomed), container_keys(doomed, n - 1));
    }
}

/// The unreached containers are those that could not be asked.
pub proof fn lemma_unreached(doomed: Seq<DoomedInstance>, failed: Seq<bool>, n: int)
    requires
        0 <= n <= doomed.len(),
    ensures
        picked(
            n,
            is_unreached(doomed, failed),
            the_place(),
            unreached_containers(doomed, failed, n),
        ),
    decreases n,
{
    let wanted = is_unreached(doomed, failed);
    if n == 0 {
        lemma_picked_none(wanted, the_place());
    } else {
        lemma_unreached(doomed, failed, n - 1);
        lemma_picked_next(n - 1, wanted, the_place(), unreached_containers(doomed, failed, n - 1));
    }
}

/// The processes that are waited for are all that are known, in order.
pub proof fn every_known_process_is_waited_for(doomed: Vec<DoomedInstance>, r: Vec<u32>)
    requires
        call_ensures(doomed_pids, (&doomed,), r),
    ensures
        picked(doomed@.len() as int, has_pid(doomed@), pid_at(doomed@), r@),
{
    lemma_known_pids(doomed@, doomed@.len() as int);
}

/// The forced part kills every known process group, whether its leader runs or
/// not, kills every container inside its virtual machine too, and says of each
/// instance how it ended: killed exactly where its process still ran.
pub proof fn the_forced_part_spares_no_group(
    doomed: Vec<DoomedInstance>,
    running: Vec<bool>,
    r: ForcePlan,
)
    requires
        running@.len() == doomed@.len(),
        call_ensures(force_plan, (&doomed, &running), r),
    ensures
        picked(doomed@.len() as int, has_pid(doomed@), pid_at(doomed@), r.kill@),
        picked(doomed@.len() as int, is_guest(doomed@), key_at(doomed@), texts(r.guest_keys@)),
        r.outcomes@.len() == doomed@.len(),
        forall|k: int|
            0 <= k < doomed@.len() ==> {
                &&& #[trigger] r.outcomes@[k] == StopOutcome::NoProcess <==> doomed@[k].pid is None
                &&& r.outcomes@[k] == StopOutcome::ForceKilled <==> doomed@[k].pid is Some
                    && running@[k]
            },
{
    lemma_known_pids(doomed@, doomed@.len() as int);
    lemma_container_keys(doomed@, doomed@.len() as int);
}

/// A stop request is granted exactly for a running instance under a valid name
/// that is not the core node's, and it is that instance which is stopped. A
/// refusal for want of an instance names the id, and tells a starting one apart.
pub proof fn a_stop_request_stops_the_instance_it_names(
    raw_id: &str,
    looked: StopLookup,
    r: Result<DoomedInstance, String>,
)
    requires
        call_ensures(check_stop, (raw_id, looked), r),
    ensures
        r is Ok <==> looked.name_problem is None && (looked.found matches Some(doomed) && !(
        doomed.node_name@ == looked.root_name@ && doomed.node_tag@ == looked.root_tag@)),
        r matches Ok(doomed) ==> looked.found == Some(doomed),
        r matches Err(text) ==> {
            &&& looked.name_problem matches Some(why) ==> mentions(text@, why@)
            &&& looked.name_problem is None && looked.found is None ==> mentions(text@, raw_id@)
            &&& looked.name_problem is None && looked.found is None && looked.starting
                ==> mentions(text@, "Starting state; retry"@)
        },
{
    if let Some(why) = looked.name_problem {
        what_is_written_is_mentioned("Invalid instance_id: "@, why@, ""@);
    } else {
        let first = "Node instance '"@;
        let starting = "' is in Starting state; retry after the start completes"@;
        let missing = "' not found in node stack"@;
        what_is_written_is_mentioned(first, raw_id@, starting);
        what_is_written_is_mentioned(first, raw_id@, missing);
        reveal_strlit("' is in Starting state; retry after the start completes");
        reveal_strlit("' is in ");
        reveal_strlit("Starting state; retry");
        reveal_strlit(" after the start completes");
        let told = "Starting state; retry"@;
        what_is_written_is_mentioned(
            first + raw_id@ + "' is in "@,
            told,
            " after the start completes"@,
        );
        assert(first + raw_id@ + starting =~= first + raw_id@ + "' is in "@ + told
            + " after the start completes"@);
    }
}

/// The process of an id is that of the first instance which has it.
proof fn lemma_pid_of(instances: Seq<(String, Option<u32>)>, id: Seq<char>, from: int, at: int)
    requires
        0 <= from <= at <= instances.len(),
        forall|k: int| from <= k < at ==> (#[trigger] instances[k]).0@ != id,
        at < instances.len() ==> instances[at].0@ == id,
    ensures
        pid_of(instances, id, from) == if at < instances.len() {
            instances[at].1
        } else {
            None
        },
    decreases at - from,
{
    if from < at {
        assert(instances[from].0@ != id);
        lemma_pid_of(instances, id, from + 1, at);
    }
}

/// The instances of a replaced node are stopped as they are asked for: all of
/// them, in that order, under the node's name and tag, each with the process that
/// the node's first instance of that id has, and without one where there is no
/// such instance. A node that is gone stops nothing.
pub proof fn a_replaced_node_stops_what_is_asked_for(
    entry: StackEntry,
    ids: Vec<String>,
    r: Vec<DoomedInstance>,
    gone: Vec<DoomedInstance>,
    k: int,
    at: int,
)
    requires
        call_ensures(stop_instances, (Some(&entry), &ids), r),
        call_ensures(stop_instances, (None::<&StackEntry>, &ids), gone),
        0 <= k < ids@.len(),
        0 <= at <= entry.instances@.len(),
        forall|j: int| 0 <= j < at ==> (#[trigger] entry.instances@[j]).0@ != ids@[k]@,
        at < entry.instances@.len() ==> entry.instances@[at].0@ == ids@[k]@,
    ensures
        gone@.len() == 0,
        r@.len() == ids@.len(),
        r@[k].instance_id@ == ids@[k]@,
        r@[k].node_name@ == entry.node_name@,
        r@[k].node_tag@ == entry.node_tag@,
        r@[k].is_container == entry.is_container,
        at < entry.instances@.len() ==> r@[k].pid == entry.instances@[at].1,
        at == entry.instances@.len() ==> r@[k].pid is None,
{
    lemma_pid_of(entry.instances@, ids@[k]@, 0, at);
    let told = r@[k]@;
    assert(told.instance_id == ids@[k]@);
}

/// A stop waits as long as a cooperative exit may take in all its parts, and no
/// longer.
pub proof fn the_deadline_is_what_an_exit_may_take(
    grace: Span,
    join_secs: u64,
    finalize_secs: u64,
    r: Span,
    hooks_took: int,
    join_took: int,
    finalize_took: int,
)
    requires
        join_secs + finalize_secs <= u64::MAX,
        grace.nanos + (join_secs + finalize_secs) * 1_000_000_000 < span_limit(),
        call_ensures(force_kill_deadline, (grace, join_secs, finalize_secs), r),
        0 <= hooks_took <= grace.nanos,
        0 <= join_took <= join_secs * 1_000_000_000,
        0 <= finalize_took <= finalize_secs * 1_000_000_000,
    ensures
        hooks_took + join_took + finalize_took <= r.nanos,
        hooks_took == grace.nanos && join_took == join_secs * 1_000_000_000 && finalize_took
            == finalize_secs * 1_000_000_000 ==> hooks_took + join_took + finalize_took == r.nanos,
{
}

/// What is signalled before the wait is exactly the containers with a known process whose
/// request failed.
pub proof fn only_unreached_containers_are_signalled_early(
    doomed: Vec<DoomedInstance>,
    failed: Vec<bool>,
    r: Vec<usize>,
    k: int,
)
    requires
        failed@.len() == doomed@.len(),
        call_ensures(failed_containers, (&doomed, &failed), r),
        0 <= k < doomed@.len(),
    ensures
        (exists|i: int| 0 <= i < r@.len() && #[trigger] r@[i] == k) <==> failed@[k]
            && doomed@[k].is_container && doomed@[k].pid is Some,
{
    let n = doomed@.len() as int;
    let all = unreached_containers(doomed@, failed@, n);
    lemma_unreached_containers(doomed@, failed@, n, k);
    if exists|i: int| 0 <= i < r@.len() && #[trigger] r@[i] == k {
        let i = choose|i: int| 0 <= i < r@.len() && #[trigger] r@[i] == k;
        assert(all[i] == k);
        assert(all.contains(k));
    }
    if all.contains(k) {
        let i = choose|i: int| 0 <= i < all.len() && all[i] == k;
        assert(r@[i] == all[i]);
    }
}

/// The unreached containers are all of them.
proof fn lemma_unreached_containers(
    doomed: Seq<DoomedInstance>,
    failed: Seq<bool>,
    n: int,
    k: int,
)
    requires
        0 <= n <= doomed.len(),
    ensures
        unreached_containers(doomed, failed, n).contains(k) <==> 0 <= k < n && failed[k]
            && doomed[k].is_container && doomed[k].pid is Some,
    decreases n,
{
    if n > 0 {
        lemma_unreached_containers(doomed, failed, n - 1, k);
        let before = unreached_containers(doomed, failed, n - 1);
        let all = unreached_containers(doomed, failed, n);
        if all.contains(k) {
            let i = choose|i: int| 0 <= i < all.len() && all[i] == k;
            if i < before.len() {
                assert(before[i] == k);
            }
        }
        if before.contains(k) {
            let i = choose|i: int| 0 <= i < before.len() && before[i] == k;
            assert(all[i] == k);
        }
        if failed[n - 1] && doomed[n - 1].is_container && doomed[n - 1].pid is Some {
            assert(all[before.len() as int] == n - 1);
        }
    }
}

/// A signal is reported only where it failed, with the process and the reason.
pub proof fn only_a_failed_signal_is_reported(
    signal: GroupSignal,
    pid: u32,
    result: SignalResult,
    r: Option<String>,
)
    requires
        call_ensures(signal_report, (signal, pid, &result), r),
    ensures
        r is Some <==> result is Failed,
        r matches Some(text) ==> mentions(text@, decimal(pid as nat)) && (
        result matches SignalResult::Failed(why) && mentions(text@, why@)),
{
    if let SignalResult::Failed(why) = result {
        let head = "Failed to "@ + signal_name(signal) + " node process group (pid "@;
        let count = decimal(pid as nat);
        what_is_written_is_mentioned(head, count, "): "@);
        a_longer_text_mentions_as_much(head + count + "): "@, count, why@);
        what_is_written_is_mentioned(head + count + "): "@, why@, ""@);
    }
}

/// The wait is over exactly where not one of the processes runs; a zombie does not run.
pub proof fn the_wait_is_over_once_nothing_runs(
    running: Vec<bool>,
    r: bool,
    present: bool,
    zombie: bool,
    runs: bool,
)
    requires
        call_ensures(all_gone, (&running,), r),
        call_ensures(pid_running, (present, zombie), runs),
    ensures
        r <==> forall|k: int| 0 <= k < running@.len() ==> !(#[trigger] running@[k]),
        runs <==> present && !zombie,
{
    if r {
        assert forall|k: int| 0 <= k < running@.len() implies !(#[trigger] running@[k]) by {
            if running@[k] {
                assert(running@.contains(true));
            }
        }
    } else {
        let k = choose|k: int| 0 <= k < running@.len() && running@[k] == true;
        assert(running@[k]);
    }
}

/// Killing and terminating are different signals to the same group.
pub proof fn a_group_is_killed_or_terminated(pid: u32, kill: SignalRequest, end: SignalRequest)
    requires
        call_ensures(kill_process_group, (pid,), kill),
        call_ensures(terminate_process_group, (pid,), end),
    ensures
        kill.signal == GroupSignal::Kill && end.signal == GroupSignal::Terminate,
        kill.group == end.group,
        pid <= i32::MAX ==> kill.group == pid,
{
}

/// An instance counts as starting only where the stack has one of its id that is.
pub proof fn only_a_starting_instance_of_the_id_counts(
    instances: Vec<(String, bool)>,
    id: &str,
    r: bool,
    k: int,
)
    requires
        call_ensures(instance_is_in_starting, (&instances, id), r),
    ensures
        0 <= k < instances@.len() && instances@[k].0@ == id@ && instances@[k].1 ==> r,
        (forall|j: int|
            0 <= j < instances@.len() ==> (#[trigger] instances@[j]).0@ != id@
                || !instances@[j].1) ==> !r,
{
    assert(r == is_starting(instances@, id@));
    if 0 <= k < instances@.len() && instances@[k].0@ == id@ && instances@[k].1 {
        assert(is_starting(instances@, id@));
    }
}

} // verus!
