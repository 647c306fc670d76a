//! The endpoints of a started instance: what it bound, as the URLs that somebody
//! opens to reach it.
//!
//! A socket on an unspecified address answers on every address of its machine,
//! so it has one URL for each of them.
use crate::order::{Side, ascending, in_order, lemma_picked_next, lemma_picked_none, picked, side_of, sorted_set, text_lt};
use crate::text::{decimal, join, joined, str_eq, texts, to_decimal};
use vstd::prelude::*;
use vstd::string::*;

verus! {

/// An IP address, as the number that its bits are.
#[derive(Clone, Copy, Debug, PartialEq, Eq, Structural)]
pub enum HostIp {
    V4(u32),
    V6(u128),
}

/// The text of an IPv6 address.
pub uninterp spec fn ipv6_text(bits: u128) -> Seq<char>;

/// The `Display` of `core::net::Ipv6Addr`: a function of the address alone.
#[verifier::external_body]
fn ipv6_words(bits: u128) -> (r: String)
    ensures
        r@ == ipv6_text(bits),
{
    format!("{}", core::net::Ipv6Addr::from(bits))
}

/// The text of an IPv4 address: its four bytes, with dots between them.
pub open spec fn ipv4_text(bits: u32) -> Seq<char> {
    decimal((bits / 0x1000000) as nat) + "."@ + decimal((bits / 0x10000 % 0x100) as nat) + "."@
        + decimal((bits / 0x100 % 0x100) as nat) + "."@ + decimal((bits % 0x100) as nat)
}

/// The text of an IPv4 address.
fn ipv4_words(bits: u32) -> (r: String)
    ensures
        r@ == ipv4_text(bits),
{
    let mut text = to_decimal((bits / 0x1000000) as u64);
    text.append(".");
    text.append(to_decimal((bits / 0x10000 % 0x100) as u64).as_str());
    text.append(".");
    text.append(to_decimal((bits / 0x100 % 0x100) as u64).as_str());
    text.append(".");
    text.append(to_decimal((bits % 0x100) as u64).as_str());
    text
}

/// Whether an address is of the machine itself: `127.0.0.0/8` or `::1`.
pub open spec fn loops_back(ip: HostIp) -> bool {
    match ip {
        HostIp::V4(bits) => bits / 0x1000000 == 127,
        HostIp::V6(bits) => bits == 1,
    }
}

/// Whether an address holds for one link only: `fe80::/10`.
pub open spec fn link_local(bits: u128) -> bool {
    bits / 0x40_0000_0000_0000_0000_0000_0000_0000 == 0x3fa
}

/// Whether an address holds for one link only: `fe80::/10`.
pub fn is_link_local(bits: u128) -> (r: bool)
    ensures
        r == link_local(bits),
{
    bits / 0x40_0000_0000_0000_0000_0000_0000_0000 == 0x3fa
}

impl HostIp {
    /// Whether an address is of the machine itself.
    pub fn is_loopback(self) -> (r: bool)
        ensures
            r == loops_back(self),
    {
        match self {
            HostIp::V4(bits) => bits / 0x1000000 == 127,
            HostIp::V6(bits) => bits == 1,
        }
    }
}

/// Whether an interface's address is offered: the interface is up, and the
/// address is one that can be typed into a browser.
pub fn keep_interface(is_up: bool, ip: HostIp) -> (r: bool)
    ensures
        r == (is_up && match ip {
            HostIp::V4(_) => true,
            HostIp::V6(bits) => !link_local(bits),
        }),
{
    is_up && match ip {
        HostIp::V4(_) => true,
        HostIp::V6(bits) => !is_link_local(bits),
    }
}

/// The addresses of a list, each where it comes first.
pub open spec fn firsts(list: Seq<HostIp>) -> Seq<HostIp>
    decreases list.len(),
{
    if list.len() == 0 {
        Seq::empty()
    } else {
        let before = firsts(list.drop_last());
        if before.contains(list.last()) {
            before
        } else {
            before.push(list.last())
        }
    }
}

/// The addresses of a list that are of the machine itself, or those that are
/// not, in order.
pub open spec fn on_side(list: Seq<HostIp>, loopback: bool) -> Seq<HostIp>
    decreases list.len(),
{
    if list.len() == 0 {
        Seq::empty()
    } else {
        let before = on_side(list.drop_last(), loopback);
        if loops_back(list.last()) == loopback {
            before.push(list.last())
        } else {
            before
        }
    }
}

/// Whether an address is in a list.
fn has_ip(list: &Vec<HostIp>, ip: HostIp) -> (r: bool)
    ensures
        r == list@.contains(ip),
{
    let mut i: usize = 0;
    while i < list.len()
        invariant
            i <= list@.len(),
            forall|k: int| 0 <= k < i ==> list@[k] != ip,
        decreases list.len() - i,
    {
        if list[i] == ip {
            return true;
        }
        i += 1;
    }
    false
}

/// The addresses of a machine as they are offered: those of the machine itself
/// first, the others in the order in which they were read, each once.
pub fn order_host_addresses(addresses: &Vec<HostIp>) -> (r: Vec<HostIp>)
    ensures
        r@ == on_side(firsts(addresses@), true) + on_side(firsts(addresses@), false),
{
    let mut once: Vec<HostIp> = Vec::new();
    let mut i: usize = 0;
    proof {
        assert(once@ =~= firsts(addresses@.take(0)));
    }
    while i < addresses.len()
        invariant
            i <= addresses@.len(),
            once@ == firsts(addresses@.take(i as int)),
        decreases addresses.len() - i,
    {
        let ip = addresses[i];
        proof {
            assert(addresses@.take(i + 1).drop_last() =~= addresses@.take(i as int));
        }
        if !has_ip(&once, ip) {
            once.push(ip);
        }
        i += 1;
    }
    proof {
        assert(addresses@.take(addresses@.len() as int) =~= addresses@);
    }
    let mut out: Vec<HostIp> = Vec::new();
    let mut others: Vec<HostIp> = Vec::new();
    let mut j: usize = 0;
    proof {
        assert(out@ =~= on_side(once@.take(0), true));
        assert(others@ =~= on_side(once@.take(0), false));
    }
    while j < once.len()
        invariant
            j <= once@.len(),
            out@ == on_side(once@.take(j as int), true),
            others@ == on_side(once@.take(j as int), false),
        decreases once.len() - j,
    {
        proof {
            assert(once@.take(j + 1).drop_last() =~= once@.take(j as int));
        }
        if once[j].is_loopback() {
            out.push(once[j]);
        } else {
            others.push(once[j]);
        }
        j += 1;
    }
    proof {
        assert(once@.take(once@.len() as int) =~= once@);
    }
    out.append(&mut others);
    out
}

/// The addresses that an instance's endpoints expand against: those that were
/// read, or a fixed list in their place.
pub fn host_addresses(source: &Option<Vec<HostIp>>, read: &Vec<HostIp>) -> (r: Vec<HostIp>)
    ensures
        r@ == match *source {
            Some(fixed) => fixed@,
            None => on_side(firsts(read@), true) + on_side(firsts(read@), false),
        },
{
    match source {
        Some(fixed) => {
            let mut out: Vec<HostIp> = Vec::new();
            let mut i: usize = 0;
            while i < fixed.len()
                invariant
                    i <= fixed@.len(),
                    out@ == fixed@.take(i as int),
                decreases fixed.len() - i,
            {
                out.push(fixed[i]);
                proof {
                    assert(fixed@.take(i + 1) =~= fixed@.take(i as int).push(fixed@[i as int]));
                }
                i += 1;
            }
            proof {
                assert(fixed@.take(fixed@.len() as int) =~= fixed@);
            }
            out
        },
        None => order_host_addresses(read),
    }
}

/// The fixed addresses that expectations are written against: one of the machine
/// itself, one of a local network and one of a private one.
pub fn test_host_addresses() -> (r: Vec<HostIp>)
    ensures
        r@ == seq![HostIp::V4(0x7f000001), HostIp::V4(0xc0a80105), HostIp::V4(0x647b3a74)],
{
    let mut out: Vec<HostIp> = Vec::new();
    out.push(HostIp::V4(0x7f000001));
    out.push(HostIp::V4(0xc0a80105));
    out.push(HostIp::V4(0x647b3a74));
    out
}

/// What an instance bound.
pub struct EndpointBinding {
    pub scheme: String,
    pub ip: HostIp,
    pub port: u16,
    pub path: String,
}

/// The IPv4 addresses of a list, in order.
pub open spec fn ipv4_only(list: Seq<HostIp>) -> Seq<HostIp>
    decreases list.len(),
{
    if list.len() == 0 {
        Seq::empty()
    } else {
        let before = ipv4_only(list.drop_last());
        if list.last() is V4 {
            before.push(list.last())
        } else {
            before
        }
    }
}

/// The addresses at which a binding answers: for an unspecified one those of its
/// machine, as far as its kind reaches, and for any other itself.
pub open spec fn reachable(ip: HostIp, host: Seq<HostIp>) -> Seq<HostIp> {
    match ip {
        HostIp::V4(bits) => if bits == 0 {
            ipv4_only(host)
        } else {
            seq![ip]
        },
        HostIp::V6(bits) => if bits == 0 {
            host
        } else {
            seq![ip]
        },
    }
}

/// A URL. An IPv6 address stands in brackets.
pub open spec fn url_text(
    scheme: Seq<char>,
    ip: HostIp,
    port: u16,
    path: Seq<char>,
) -> Seq<char> {
    match ip {
        HostIp::V4(bits) => scheme + "://"@ + ipv4_text(bits) + ":"@ + decimal(port as nat) + path,
        HostIp::V6(bits) => scheme + "://["@ + ipv6_text(bits) + "]:"@ + decimal(port as nat)
            + path,
    }
}

/// A URL. An IPv6 address stands in brackets.
pub fn render_url(scheme: &str, ip: HostIp, port: u16, path: &str) -> (r: String)
    ensures
        r@ == url_text(scheme@, ip, port, path@),
{
    let mut text: String = scheme.to_owned();
    match ip {
        HostIp::V4(bits) => {
            text.append("://");
            text.append(ipv4_words(bits).as_str());
            text.append(":");
        },
        HostIp::V6(bits) => {
            text.append("://[");
            text.append(ipv6_words(bits).as_str());
            text.append("]:");
        },
    }
    text.append(to_decimal(port as u64).as_str());
    text.append(path);
    text
}

/// The URLs of a binding on a machine with these addresses.
pub open spec fn urls_of(binding: EndpointBinding, host: Seq<HostIp>) -> Seq<Seq<char>> {
    reachable(binding.ip, host).map_values(
        |ip: HostIp| url_text(binding.scheme@, ip, binding.port, binding.path@),
    )
}

/// The URLs of a binding on a machine with these addresses.
pub fn expand_binding(binding: &EndpointBinding, host: &Vec<HostIp>) -> (r: Vec<String>)
    ensures
        texts(r@) == urls_of(*binding, host@),
{
    let mut ips: Vec<HostIp> = Vec::new();
    let unspecified: bool = match binding.ip {
        HostIp::V4(bits) => bits == 0,
        HostIp::V6(bits) => bits == 0,
    };
    if unspecified {
        let only_v4: bool = match binding.ip {
            HostIp::V4(_) => true,
            HostIp::V6(_) => false,
        };
        let mut i: usize = 0;
        proof {
            assert(ips@ =~= ipv4_only(host@.take(0)));
            assert(ips@ =~= host@.take(0));
        }
        while i < host.len()
            invariant
                i <= host@.len(),
                ips@ == if only_v4 {
                    ipv4_only(host@.take(i as int))
                } else {
                    host@.take(i as int)
                },
            decreases host.len() - i,
        {
            proof {
                assert(host@.take(i + 1).drop_last() =~= host@.take(i as int));
                assert(host@.take(i + 1) =~= host@.take(i as int).push(host@[i as int]));
            }
            let keep: bool = match host[i] {
                HostIp::V4(_) => true,
                HostIp::V6(_) => !only_v4,
            };
            if keep {
                ips.push(host[i]);
            }
            i += 1;
        }
        proof {
            assert(host@.take(host@.len() as int) =~= host@);
        }
    } else {
        ips.push(binding.ip);
        proof {
            assert(ips@ =~= seq![binding.ip]);
        }
    }
    proof {
        assert(ips@ == reachable(binding.ip, host@));
    }
    let mut out: Vec<String> = Vec::new();
    let mut j: usize = 0;
    while j < ips.len()
        invariant
            j <= ips@.len(),
            out@.len() == j,
            forall|k: int|
                0 <= k < j ==> (#[trigger] out@[k])@ == url_text(
                    binding.scheme@,
                    ips@[k],
                    binding.port,
                    binding.path@,
                ),
        decreases ips.len() - j,
    {
        out.push(
            render_url(binding.scheme.as_str(), ips[j], binding.port, binding.path.as_str()),
        );
        j += 1;
    }
    proof {
        assert(texts(out@) =~= urls_of(*binding, host@));
    }
    out
}

/// What an endpoint is.
#[derive(Clone, Copy, Debug, PartialEq, Eq, Structural)]
pub enum EndpointKind {
    Page,
    Mcp,
}

/// What an instance announces.
pub struct AnnouncedEndpoint {
    pub label: String,
    pub binding: EndpointBinding,
}

/// What the daemon reports.
#[derive(Debug, PartialEq, Eq)]
pub struct InstanceEndpoint {
    pub label: String,
    pub kind: EndpointKind,
    pub urls: Vec<String>,
}

/// An `InstanceEndpoint`, its texts as sequences.
pub struct EndpointText {
    pub label: Seq<char>,
    pub kind: EndpointKind,
    pub urls: Seq<Seq<char>>,
}

impl View for InstanceEndpoint {
    type V = EndpointText;

    open spec fn view(&self) -> EndpointText {
        EndpointText { label: self.label@, kind: self.kind, urls: texts(self.urls@) }
    }
}

/// The contents of a list of endpoints.
pub open spec fn endpoint_texts(list: Seq<InstanceEndpoint>) -> Seq<EndpointText> {
    list.map_values(|endpoint: InstanceEndpoint| endpoint@)
}

/// The labels of a list of endpoints.
pub open spec fn labels_of(list: Seq<EndpointText>) -> Seq<Seq<char>> {
    list.map_values(|endpoint: EndpointText| endpoint.label)
}

/// The endpoints of one label, in order.
pub open spec fn with_label(list: Seq<EndpointText>, label: Seq<char>) -> Seq<EndpointText>
    decreases list.len(),
{
    if list.len() == 0 {
        Seq::empty()
    } else {
        let before = with_label(list.drop_last(), label);
        if list.last().label == label {
            before.push(list.last())
        } else {
            before
        }
    }
}

/// The declared labels.
pub open spec fn declared_labels(declared: Seq<(String, EndpointKind)>) -> Seq<Seq<char>> {
    declared.map_values(|entry: (String, EndpointKind)| entry.0@)
}

/// The announced labels.
pub open spec fn announced_labels(announced: Seq<AnnouncedEndpoint>) -> Seq<Seq<char>> {
    announced.map_values(|endpoint: AnnouncedEndpoint| endpoint.label@)
}

/// The kind that is declared for a label.
pub open spec fn declared_kind(declared: Seq<(String, EndpointKind)>, label: Seq<char>) -> EndpointKind
    decreases declared.len(),
{
    if declared.len() <= 1 {
        declared[0].1
    } else if declared[0].0@ == label {
        declared[0].1
    } else {
        declared_kind(declared.drop_first(), label)
    }
}

/// The endpoints that announcements make, in the order of the announcements.
pub open spec fn made(
    declared: Seq<(String, EndpointKind)>,
    announced: Seq<AnnouncedEndpoint>,
    host: Seq<HostIp>,
) -> Seq<EndpointText> {
    announced.map_values(
        |endpoint: AnnouncedEndpoint|
            EndpointText {
                label: endpoint.label@,
                kind: declared_kind(declared, endpoint.label@),
                urls: urls_of(endpoint.binding, host),
            },
    )
}

/// Whether a list of endpoints is another one in the order of its labels, those
/// of one label as they were.
pub open spec fn is_sorted_from(sorted: Seq<EndpointText>, list: Seq<EndpointText>) -> bool {
    &&& sorted.len() == list.len()
    &&& in_order(labels_of(sorted))
    &&& forall|label: Seq<char>| #[trigger] with_label(sorted, label) == with_label(list, label)
}

/// The refusal of announcements with other labels than the declared ones.
pub open spec fn labels_differ_text(
    instance_id: Seq<char>,
    announced: Seq<Seq<char>>,
    declared: Seq<Seq<char>>,
) -> Seq<char> {
    "instance '"@ + instance_id + "' announced endpoints ["@ + joined(announced, ", "@)
        + "] but its manifest declares ["@ + joined(declared, ", "@) + "]"@
}

/// The endpoints of one label, with one more put in.
proof fn lemma_with_label_insert(list: Seq<EndpointText>, at: int, x: EndpointText, label: Seq<char>)
    requires
        0 <= at <= list.len(),
        forall|k: int| at <= k < list.len() ==> (#[trigger] list[k]).label != x.label,
    ensures
        with_label(list.insert(at, x), label) == (if x.label == label {
            with_label(list, label).push(x)
        } else {
            with_label(list, label)
        }),
    decreases list.len() - at,
{
    let after = list.insert(at, x);
    if at == list.len() {
        assert(after.drop_last() =~= list);
        assert(after.last() == x);
    } else {
        let rest = list.drop_last();
        assert(after.drop_last() =~= rest.insert(at, x));
        assert(after.last() == list.last());
        assert forall|k: int| at <= k < rest.len() implies (#[trigger] rest[k]).label != x.label by {
            assert(rest[k] == list[k]);
        }
        lemma_with_label_insert(rest, at, x, label);
        assert(list[list.len() - 1].label != x.label);
    }
}

/// Puts an endpoint behind all that do not come after it.
fn insert_endpoint(list: &mut Vec<InstanceEndpoint>, x: InstanceEndpoint)
    requires
        in_order(labels_of(endpoint_texts(old(list)@))),
    ensures
        in_order(labels_of(endpoint_texts(final(list)@))),
        final(list)@.len() == old(list)@.len() + 1,
        forall|label: Seq<char>| #[trigger]
            with_label(endpoint_texts(final(list)@), label) == (if x.label@ == label {
                with_label(endpoint_texts(old(list)@), label).push(x@)
            } else {
                with_label(endpoint_texts(old(list)@), label)
            }),
{
    let ghost before = endpoint_texts(list@);
    let ghost labels = labels_of(before);
    let ghost added = x@;
    let mut at: usize = list.len();
    while at > 0 && side_of(x.label.as_str(), list[at - 1].label.as_str()) == Side::Before
        invariant
            at <= list@.len(),
            before == endpoint_texts(list@),
            labels == labels_of(before),
            added == x@,
            forall|k: int| at <= k < list@.len() ==> text_lt(x.label@, #[trigger] labels[k]),
        decreases at,
    {
        proof {
            assert(labels[at - 1] == list@[at - 1].label@);
        }
        at -= 1;
    }
    proof {
        if at > 0 {
            assert(labels[at - 1] == list@[at - 1].label@);
            assert(!text_lt(x.label@, labels[at - 1]));
        }
    }
    list.insert(at, x);
    proof {
        let after = endpoint_texts(list@);
        assert(after =~= before.insert(at as int, added));
        assert forall|k: int| at <= k < before.len() implies (#[trigger] before[k]).label
            != added.label by {
            assert(labels[k] == before[k].label);
            crate::order::lemma_lt_irreflexive(added.label);
        }
        assert forall|label: Seq<char>| #[trigger] with_label(after, label) == (if added.label
            == label {
            with_label(before, label).push(added)
        } else {
            with_label(before, label)
        }) by {
            lemma_with_label_insert(before, at as int, added, label);
        }
        let now = labels_of(after);
        assert forall|i: int, j: int| 0 <= i < j < now.len() implies !text_lt(
            #[trigger] now[j],
            #[trigger] now[i],
        ) by {
            let old_i = if i < at {
                i
            } else {
                i - 1
            };
            let old_j = if j < at {
                j
            } else {
                j - 1
            };
            if i != at {
                assert(now[i] == labels[old_i]);
            } else {
                assert(now[i] == added.label);
            }
            if j != at {
                assert(now[j] == labels[old_j]);
            } else {
                assert(now[j] == added.label);
            }
            if i == at {
                assert(text_lt(added.label, labels[old_j]));
                crate::order::lemma_lt_total(added.label, labels[old_j]);
            } else if j == at {
                let last = labels[at - 1];
                assert(!text_lt(added.label, last));
                if i < at - 1 {
                    assert(!text_lt(last, labels[i]));
                    if text_lt(added.label, labels[i]) {
                        crate::order::lemma_lt_total(labels[i], last);
                        if labels[i] != last {
                            crate::order::lemma_lt_transitive(added.label, labels[i], last);
                        }
                    }
                }
            }
        }
    }
}

/// The kind that is declared for a label.
fn kind_for(declared: &Vec<(String, EndpointKind)>, label: &str) -> (r: EndpointKind)
    requires
        declared_labels(declared@).contains(label@),
    ensures
        r == declared_kind(declared@, label@),
{
    let mut i: usize = 0;
    proof {
        assert(declared@.skip(0) =~= declared@);
        assert(declared@.len() > 0);
    }
    while i + 1 < declared.len()
        invariant
            i < declared.len(),
            declared_kind(declared@, label@) == declared_kind(declared@.skip(i as int), label@),
        decreases declared.len() - i,
    {
        proof {
            assert(declared@.skip(i as int)[0] == declared@[i as int]);
            assert(declared@.skip(i as int).drop_first() =~= declared@.skip(i + 1));
        }
        if str_eq(declared[i].0.as_str(), label) {
            return declared[i].1;
        }
        i += 1;
    }
    proof {
        assert(declared@.skip(i as int)[0] == declared@[i as int]);
    }
    declared[i].1
}

/// The declared labels.
fn declared_names(declared: &Vec<(String, EndpointKind)>) -> (r: Vec<String>)
    ensures
        texts(r@) == declared_labels(declared@),
{
    let mut out: Vec<String> = Vec::new();
    let mut i: usize = 0;
    while i < declared.len()
        invariant
            i <= declared@.len(),
            out@.len() == i,
            forall|k: int| 0 <= k < i ==> (#[trigger] out@[k])@ == declared@[k].0@,
        decreases declared.len() - i,
    {
        out.push(declared[i].0.clone());
        i += 1;
    }
    proof {
        assert(texts(out@) =~= declared_labels(declared@));
    }
    out
}

/// The announced labels.
fn announced_names(announced: &Vec<AnnouncedEndpoint>) -> (r: Vec<String>)
    ensures
        texts(r@) == announced_labels(announced@),
{
    let mut out: Vec<String> = Vec::new();
    let mut i: usize = 0;
    while i < announced.len()
        invariant
            i <= announced@.len(),
            out@.len() == i,
            forall|k: int| 0 <= k < i ==> (#[trigger] out@[k])@ == announced@[k].label@,
        decreases announced.len() - i,
    {
        out.push(announced[i].label.clone());
        i += 1;
    }
    proof {
        assert(texts(out@) =~= announced_labels(announced@));
    }
    out
}

/// Whether two lists hold the same texts in the same order.
fn same_texts(a: &Vec<String>, b: &Vec<String>) -> (r: bool)
    ensures
        r == (texts(a@) == texts(b@)),
{
    proof {
        assert(texts(a@).len() == a@.len());
        assert(texts(b@).len() == b@.len());
    }
    if a.len() != b.len() {
        return false;
    }
    let mut i: usize = 0;
    while i < a.len()
        invariant
            i <= a@.len(),
            a@.len() == b@.len(),
            forall|k: int| 0 <= k < i ==> texts(a@)[k] == texts(b@)[k],
        decreases a.len() - i,
    {
        if !str_eq(a[i].as_str(), b[i].as_str()) {
            proof {
                assert(texts(a@)[i as int] != texts(b@)[i as int]);
            }
            return false;
        }
        i += 1;
    }
    proof {
        assert(texts(a@) =~= texts(b@));
    }
    true
}

/// The endpoints that announcements make: every announced label must be declared
/// and every declared one announced. They come in the order of their labels.
pub fn expand_announcements(
    instance_id: &str,
    declared: &Vec<(String, EndpointKind)>,
    announced: &Vec<AnnouncedEndpoint>,
    host: &Vec<HostIp>,
) -> (r: Result<Vec<InstanceEndpoint>, String>)
    ensures
        match r {
            Ok(endpoints) => announced_labels(announced@).to_set() == declared_labels(
                declared@,
            ).to_set() && is_sorted_from(
                endpoint_texts(endpoints@),
                made(declared@, announced@, host@),
            ),
            Err(text) => announced_labels(announced@).to_set() != declared_labels(
                declared@,
            ).to_set() && exists|a: Seq<Seq<char>>, d: Seq<Seq<char>>|
                #[trigger] ascending(a) && #[trigger] ascending(d) && a.to_set()
                    == announced_labels(announced@).to_set() && d.to_set() == declared_labels(
                    declared@,
                ).to_set() && text@ == labels_differ_text(instance_id@, a, d),
        },
{
    let named = sorted_set(&announced_names(announced));
    let wanted = sorted_set(&declared_names(declared));
    if !same_texts(&named, &wanted) {
        let mut text: String = "instance '".to_owned();
        text.append(instance_id);
        text.append("' announced endpoints [");
        text.append(join(&named, ", ").as_str());
        text.append("] but its manifest declares [");
        text.append(join(&wanted, ", ").as_str());
        text.append("]");
        proof {
            if texts(named@).to_set() == texts(wanted@).to_set() {
                crate::order::ascending_lists_are_fixed_by_their_texts(
                    texts(named@),
                    texts(wanted@),
                );
            }
            assert(ascending(texts(named@)) && ascending(texts(wanted@)));
        }
        return Err(text);
    }
    let ghost all = made(declared@, announced@, host@);
    let mut out: Vec<InstanceEndpoint> = Vec::new();
    let mut i: usize = 0;
    proof {
        assert(endpoint_texts(out@) =~= all.take(0));
    }
    while i < announced.len()
        invariant
            i <= announced@.len(),
            all == made(declared@, announced@, host@),
            announced_labels(announced@).to_set() == declared_labels(declared@).to_set(),
            is_sorted_from(endpoint_texts(out@), all.take(i as int)),
        decreases announced.len() - i,
    {
        let endpoint = &announced[i];
        proof {
            assert(announced_labels(announced@)[i as int] == endpoint.label@);
            assert(announced_labels(announced@).contains(endpoint.label@));
            assert(announced_labels(announced@).to_set().contains(endpoint.label@));
            assert(declared_labels(declared@).to_set().contains(endpoint.label@));
        }
        let kind = kind_for(declared, endpoint.label.as_str());
        let urls = expand_binding(&endpoint.binding, host);
        let fresh = InstanceEndpoint { label: endpoint.label.clone(), kind, urls };
        let ghost added = fresh@;
        let ghost before = endpoint_texts(out@);
        insert_endpoint(&mut out, fresh);
        proof {
            assert(all[i as int] == added);
            let now = all.take(i + 1);
            assert(now.drop_last() =~= all.take(i as int));
            assert(now.last() == added);
            let after = endpoint_texts(out@);
            assert forall|label: Seq<char>| #[trigger] with_label(after, label) == with_label(
                now,
                label,
            ) by {
                assert(with_label(before, label) == with_label(all.take(i as int), label));
            }
        }
        i += 1;
    }
    proof {
        assert(all.take(announced@.len() as int) =~= all);
    }
    Ok(out)
}

/// An unspecified IPv6 binding answers on every address of its machine, and an
/// unspecified IPv4 binding on no more than that.
pub proof fn a_binding_answers_only_on_its_machine(host: Seq<HostIp>, ip: HostIp)
    ensures
        reachable(HostIp::V6(0), host) == host,
        ipv4_only(host).contains(ip) <==> host.contains(ip) && ip is V4,
    decreases host.len(),
{
    if host.len() > 0 {
        let rest = host.drop_last();
        a_binding_answers_only_on_its_machine(rest, ip);
        let before = ipv4_only(rest);
        let all = ipv4_only(host);
        assert(host =~= rest.push(host.last()));
        if rest.contains(ip) {
            let k = choose|k: int| 0 <= k < rest.len() && rest[k] == ip;
            assert(host[k] == ip);
        }
        if host.contains(ip) && ip != host.last() {
            let k = choose|k: int| 0 <= k < host.len() && host[k] == ip;
            assert(rest[k] == ip);
        }
        if host.last() is V4 {
            assert(all == before.push(host.last()));
            assert(all[before.len() as int] == host.last());
            if before.contains(ip) {
                let k = choose|k: int| 0 <= k < before.len() && before[k] == ip;
                assert(all[k] == ip);
            }
            if all.contains(ip) {
                let k = choose|k: int| 0 <= k < all.len() && all[k] == ip;
                if k < before.len() {
                    assert(before[k] == ip);
                } else {
                    assert(host[host.len() - 1] == ip);
                }
            }
        }
    }
}

/// An IPv4 address is of the machine itself exactly where its first byte is 127, and an
/// IPv6 address only where it is `::1`; an address is offered where its interface is up,
/// unless it is one from `fe80::` to `febf:ffff:..`.
pub proof fn loopback_and_link_local_are_ranges(ip: HostIp, is_up: bool, looped: bool, kept: bool)
    requires
        call_ensures(HostIp::is_loopback, (ip,), looped),
        call_ensures(keep_interface, (is_up, ip), kept),
    ensures
        ip matches HostIp::V4(bits) ==> (looped <==> 0x7f00_0000 <= bits <= 0x7fff_ffff),
        ip matches HostIp::V6(bits) ==> (looped <==> bits == 1),
        ip is V4 ==> (kept <==> is_up),
        ip matches HostIp::V6(bits) ==> (kept <==> is_up && !(
        0xfe80_0000_0000_0000_0000_0000_0000_0000 <= bits
            <= 0xfebf_ffff_ffff_ffff_ffff_ffff_ffff_ffff)),
{
}

/// The firsts of a list are all its addresses, each once.
proof fn lemma_firsts(list: Seq<HostIp>)
    ensures
        forall|ip: HostIp|
            #![trigger firsts(list).contains(ip)]
            #![trigger list.contains(ip)]
            firsts(list).contains(ip) <==> list.contains(ip),
        firsts(list).no_duplicates(),
    decreases list.len(),
{
    if list.len() > 0 {
        let less = list.drop_last();
        lemma_firsts(less);
        let before = firsts(less);
        let all = firsts(list);
        let last = list.last();
        assert forall|ip: HostIp|
            #![trigger all.contains(ip)]
            #![trigger list.contains(ip)]
            all.contains(ip) <==> list.contains(ip) by {
            if all.contains(ip) {
                let k = choose|k: int| 0 <= k < all.len() && all[k] == ip;
                if k < before.len() {
                    assert(before[k] == ip);
                    assert(before.contains(ip));
                    let j = choose|j: int| 0 <= j < less.len() && less[j] == ip;
                    assert(list[j] == ip);
                } else {
                    assert(list[list.len() - 1] == ip);
                }
            }
            if list.contains(ip) {
                let j = choose|j: int| 0 <= j < list.len() && list[j] == ip;
                if j < less.len() {
                    assert(less[j] == ip);
                    assert(less.contains(ip));
                    let k = choose|k: int| 0 <= k < before.len() && before[k] == ip;
                    assert(all[k] == ip);
                } else if before.contains(last) {
                    let k = choose|k: int| 0 <= k < before.len() && before[k] == ip;
                    assert(all[k] == ip);
                } else {
                    assert(all[all.len() - 1] == ip);
                }
            }
        }
    }
}

/// One side of a list is all its addresses of that side, each as often as before.
proof fn lemma_on_side(list: Seq<HostIp>, loopback: bool)
    ensures
        forall|ip: HostIp|
            #![trigger on_side(list, loopback).contains(ip)]
            #![trigger list.contains(ip)]
            on_side(list, loopback).contains(ip) <==> list.contains(ip) && loops_back(ip)
                == loopback,
        list.no_duplicates() ==> on_side(list, loopback).no_duplicates(),
    decreases list.len(),
{
    if list.len() > 0 {
        let less = list.drop_last();
        lemma_on_side(less, loopback);
        let before = on_side(less, loopback);
        let all = on_side(list, loopback);
        assert forall|ip: HostIp|
            #![trigger all.contains(ip)]
            #![trigger list.contains(ip)]
            all.contains(ip) <==> list.contains(ip) && loops_back(ip) == loopback by {
            if all.contains(ip) {
                let k = choose|k: int| 0 <= k < all.len() && all[k] == ip;
                if k < before.len() {
                    assert(before[k] == ip);
                    assert(before.contains(ip));
                    let j = choose|j: int| 0 <= j < less.len() && less[j] == ip;
                    assert(list[j] == ip);
                } else {
                    assert(list[list.len() - 1] == ip);
                }
            }
            if list.contains(ip) && loops_back(ip) == loopback {
                let j = choose|j: int| 0 <= j < list.len() && list[j] == ip;
                if j < less.len() {
                    assert(less[j] == ip);
                    assert(less.contains(ip));
                    let k = choose|k: int| 0 <= k < before.len() && before[k] == ip;
                    assert(all[k] == ip);
                } else {
                    assert(all[all.len() - 1] == ip);
                }
            }
        }
        if list.no_duplicates() {
            assert(less.no_duplicates());
            if before.contains(list.last()) {
                assert(less.contains(list.last()));
                let j = choose|j: int| 0 <= j < less.len() && less[j] == list.last();
                assert(list[j] == list[list.len() - 1]);
            }
            assert forall|i: int, j: int| 0 <= i < j < all.len() implies all[i] != all[j] by {
                if j == before.len() {
                    assert(before[i] == all[i]);
                    assert(before.contains(all[i]));
                } else {
                    assert(before[i] != before[j]);
                }
            }
        }
    }
}

/// The addresses that are offered are those that were read, each once, those of the
/// machine itself before all others.
pub proof fn every_address_is_offered_once(
    addresses: Vec<HostIp>,
    r: Vec<HostIp>,
    ip: HostIp,
    i: int,
    j: int,
)
    requires
        call_ensures(order_host_addresses, (&addresses,), r),
    ensures
        r@.contains(ip) <==> addresses@.contains(ip),
        0 <= i < j < r@.len() ==> r@[i] != r@[j],
        0 <= i < j < r@.len() && loops_back(r@[j]) ==> loops_back(r@[i]),
{
    let once = firsts(addresses@);
    lemma_firsts(addresses@);
    lemma_on_side(once, true);
    lemma_on_side(once, false);
    let own = on_side(once, true);
    let others = on_side(once, false);
    assert(r@ == own + others);
    if r@.contains(ip) {
        let k = choose|k: int| 0 <= k < r@.len() && r@[k] == ip;
        if k < own.len() {
            assert(own[k] == ip);
            assert(own.contains(ip));
        } else {
            assert(others[k - own.len()] == ip);
            assert(others.contains(ip));
        }
    }
    if once.contains(ip) {
        if loops_back(ip) {
            assert(own.contains(ip));
            let k = choose|k: int| 0 <= k < own.len() && own[k] == ip;
            assert(r@[k] == ip);
        } else {
            assert(others.contains(ip));
            let k = choose|k: int| 0 <= k < others.len() && others[k] == ip;
            assert(r@[own.len() + k] == ip);
        }
    }
    if 0 <= i < j < r@.len() {
        if i < own.len() {
            assert(own.contains(own[i]));
        } else {
            assert(others.contains(others[i - own.len()]));
        }
        if j < own.len() {
            assert(own.contains(own[j]));
            assert(own[i] != own[j]);
        } else {
            assert(others.contains(others[j - own.len()]));
        }
    }
}

/// Whether the address at a place is one of IPv4.
pub open spec fn is_v4_at(host: Seq<HostIp>) -> spec_fn(int) -> bool {
    |k: int| 0 <= k < host.len() && host[k] is V4
}

/// The address at a place.
pub open spec fn ip_at(host: Seq<HostIp>) -> spec_fn(int) -> HostIp {
    |k: int| host[k]
}

/// The IPv4 addresses are picked in order.
proof fn lemma_ipv4_only(host: Seq<HostIp>, n: int)
    requires
        0 <= n <= host.len(),
    ensures
        picked(n, is_v4_at(host), ip_at(host), ipv4_only(host.take(n))),
    decreases n,
{
    if n == 0 {
        lemma_picked_none(is_v4_at(host), ip_at(host));
        assert(ipv4_only(host.take(0)) =~= Seq::<HostIp>::empty());
    } else {
        lemma_ipv4_only(host, n - 1);
        lemma_picked_next(n - 1, is_v4_at(host), ip_at(host), ipv4_only(host.take(n - 1)));
        assert(host.take(n).drop_last() =~= host.take(n - 1));
    }
}

/// A binding to one address has one URL, at that address. One to all addresses of IPv6
/// has a URL at each address of its machine, and one to all of IPv4 at each of those that
/// is one of IPv4, in their order.
pub proof fn a_binding_has_a_url_at_every_address(
    binding: EndpointBinding,
    host: Vec<HostIp>,
    r: Vec<String>,
)
    requires
        call_ensures(expand_binding, (&binding, &host), r),
    ensures
        binding.ip != HostIp::V4(0) && binding.ip != HostIp::V6(0) ==> r@.len() == 1 && r@[0]@
            == url_text(binding.scheme@, binding.ip, binding.port, binding.path@),
        binding.ip == HostIp::V6(0) ==> r@.len() == host@.len() && forall|k: int|
            0 <= k < host@.len() ==> (#[trigger] r@[k])@ == url_text(
                binding.scheme@,
                host@[k],
                binding.port,
                binding.path@,
            ),
        binding.ip == HostIp::V4(0) ==> exists|list: Seq<HostIp>|
            #[trigger] picked(host@.len() as int, is_v4_at(host@), ip_at(host@), list) && list.len()
                == r@.len() && forall|k: int|
                0 <= k < r@.len() ==> (#[trigger] r@[k])@ == url_text(
                    binding.scheme@,
                    list[k],
                    binding.port,
                    binding.path@,
                ),
{
    let list = reachable(binding.ip, host@);
    assert(texts(r@).len() == r@.len());
    assert(urls_of(binding, host@).len() == list.len());
    assert forall|k: int| 0 <= k < r@.len() implies (#[trigger] r@[k])@ == url_text(
        binding.scheme@,
        list[k],
        binding.port,
        binding.path@,
    ) by {
        assert(texts(r@)[k] == r@[k]@);
        assert(urls_of(binding, host@)[k] == url_text(
            binding.scheme@,
            list[k],
            binding.port,
            binding.path@,
        ));
    }
    lemma_ipv4_only(host@, host@.len() as int);
    assert(host@.take(host@.len() as int) =~= host@);
}

/// A URL has its scheme, its address, its port and its path, in this order.
pub proof fn a_url_has_its_parts_in_order(
    scheme: &str,
    ip: HostIp,
    port: u16,
    path: &str,
    r: String,
)
    requires
        call_ensures(render_url, (scheme, ip, port, path), r),
    ensures
        ip matches HostIp::V4(bits) ==> r@ == scheme@ + "://"@ + decimal(
            (bits / 0x100_0000) as nat,
        ) + "."@ + decimal((bits / 0x1_0000 % 256) as nat) + "."@ + decimal(
            (bits / 0x100 % 256) as nat,
        ) + "."@ + decimal((bits % 256) as nat) + ":"@ + decimal(port as nat) + path@,
        ip matches HostIp::V6(bits) ==> r@ == scheme@ + "://["@ + ipv6_text(bits) + "]:"@ + decimal(
            port as nat,
        ) + path@,
{
    if let HostIp::V4(bits) = ip {
        assert(r@ =~= scheme@ + "://"@ + decimal((bits / 0x100_0000) as nat) + "."@ + decimal(
            (bits / 0x1_0000 % 256) as nat,
        ) + "."@ + decimal((bits / 0x100 % 256) as nat) + "."@ + decimal((bits % 256) as nat)
            + ":"@ + decimal(port as nat) + path@);
    }
}

/// The endpoints of a label are all the endpoints with it.
proof fn lemma_with_label(list: Seq<EndpointText>, label: Seq<char>)
    ensures
        forall|x: EndpointText|
            #![trigger with_label(list, label).contains(x)]
            #![trigger list.contains(x)]
            with_label(list, label).contains(x) <==> list.contains(x) && x.label == label,
    decreases list.len(),
{
    if list.len() > 0 {
        let less = list.drop_last();
        lemma_with_label(less, label);
        let before = with_label(less, label);
        let all = with_label(list, label);
        assert forall|x: EndpointText|
            #![trigger all.contains(x)]
            #![trigger list.contains(x)]
            all.contains(x) <==> list.contains(x) && x.label == label by {
            if all.contains(x) {
                let k = choose|k: int| 0 <= k < all.len() && all[k] == x;
                if k < before.len() {
                    assert(before[k] == x);
                    assert(before.contains(x));
                    let j = choose|j: int| 0 <= j < less.len() && less[j] == x;
                    assert(list[j] == x);
                } else {
                    assert(list[list.len() - 1] == x);
                }
            }
            if list.contains(x) && x.label == label {
                let j = choose|j: int| 0 <= j < list.len() && list[j] == x;
                if j < less.len() {
                    assert(less[j] == x);
                    assert(less.contains(x));
                    let k = choose|k: int| 0 <= k < before.len() && before[k] == x;
                    assert(all[k] == x);
                } else {
                    assert(all[all.len() - 1] == x);
                }
            }
        }
    }
}

/// The kind of a declared label is one that is declared for it.
proof fn lemma_declared_kind(declared: Seq<(String, EndpointKind)>, label: Seq<char>)
    requires
        exists|k: int| 0 <= k < declared.len() && (#[trigger] declared[k]).0@ == label,
    ensures
        exists|k: int|
            0 <= k < declared.len() && (#[trigger] declared[k]).0@ == label && declared[k].1
                == declared_kind(declared, label) && forall|j: int|
                0 <= j < k ==> (#[trigger] declared[j]).0@ != label,
    decreases declared.len(),
{
    if declared[0].0@ == label {
    } else {
        let k = choose|k: int| 0 <= k < declared.len() && (#[trigger] declared[k]).0@ == label;
        let rest = declared.drop_first();
        assert(rest[k - 1] == declared[k]);
        lemma_declared_kind(rest, label);
        let i = choose|i: int|
            0 <= i < rest.len() && (#[trigger] rest[i]).0@ == label && rest[i].1 == declared_kind(
                rest,
                label,
            ) && forall|j: int| 0 <= j < i ==> (#[trigger] rest[j]).0@ != label;
        assert(declared[i + 1] == rest[i]);
        assert forall|j: int| 0 <= j < i + 1 implies (#[trigger] declared[j]).0@ != label by {
            if j > 0 {
                assert(rest[j - 1] == declared[j]);
            }
        }
    }
}

/// Announcements are taken only where they announce exactly the labels that are
/// declared; every one of them then is an endpoint, of the kind that is first declared
/// for its label and with the URLs of its binding.
pub proof fn every_announcement_is_an_endpoint(
    instance_id: &str,
    declared: Vec<(String, EndpointKind)>,
    announced: Vec<AnnouncedEndpoint>,
    host: Vec<HostIp>,
    r: Result<Vec<InstanceEndpoint>, String>,
    k: int,
)
    requires
        call_ensures(expand_announcements, (instance_id, &declared, &announced, &host), r),
    ensures
        r is Ok <==> forall|label: Seq<char>|
            #![trigger announced_labels(announced@).contains(label)]
            #![trigger declared_labels(declared@).contains(label)]
            announced_labels(announced@).contains(label) <==> declared_labels(declared@).contains(
                label,
            ),
        r matches Ok(endpoints) ==> endpoints@.len() == announced@.len() && (0 <= k
            < announced@.len() ==> exists|d: int|
            0 <= d < declared@.len() && (#[trigger] declared@[d]).0@ == announced@[k].label@ && (
            forall|j: int|
                0 <= j < d ==> (#[trigger] declared@[j]).0@ != announced@[k].label@)
                && endpoint_texts(endpoints@).contains(
                EndpointText {
                    label: announced@[k].label@,
                    kind: declared@[d].1,
                    urls: urls_of(announced@[k].binding, host@),
                },
            )),
{
    let a = announced_labels(announced@);
    let d = declared_labels(declared@);
    if a.to_set() == d.to_set() {
        assert forall|label: Seq<char>|
            #![trigger a.contains(label)]
            #![trigger d.contains(label)]
            a.contains(label) <==> d.contains(label) by {
            assert(a.to_set().contains(label) == a.contains(label));
            assert(d.to_set().contains(label) == d.contains(label));
        }
    }
    if forall|label: Seq<char>|
        #![trigger a.contains(label)]
        #![trigger d.contains(label)]
        a.contains(label) <==> d.contains(label) {
        assert forall|label: Seq<char>| a.to_set().contains(label) <==> d.to_set().contains(
            label,
        ) by {
            assert(a.to_set().contains(label) == a.contains(label));
            assert(d.to_set().contains(label) == d.contains(label));
        }
        assert(a.to_set() =~= d.to_set());
    }
    if let Ok(endpoints) = r {
        let all = made(declared@, announced@, host@);
        let sorted = endpoint_texts(endpoints@);
        assert(endpoints@.len() == sorted.len());
        if 0 <= k < announced@.len() {
            let label = announced@[k].label@;
            let x = all[k];
            assert(all.contains(x));
            lemma_with_label(all, label);
            lemma_with_label(sorted, label);
            assert(with_label(all, label).contains(x));
            assert(with_label(sorted, label) == with_label(all, label));
            assert(sorted.contains(x));
            assert(a[k] == label);
            assert(a.contains(label));
            assert(d.contains(label));
            let m = choose|m: int| 0 <= m < d.len() && d[m] == label;
            assert(declared@[m].0@ == label);
            lemma_declared_kind(declared@, label);
        }
    }
}

} // verus!
