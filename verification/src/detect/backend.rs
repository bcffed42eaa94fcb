//! Backend reachability for linked projects.
//!
//! Traefik runs in Docker and reaches host-mode dev servers over IPv4 via
//! `host.docker.internal`. Frameworks default to loopback, often `[::1]` only,
//! so the port looks alive from the terminal but is invisible to the proxy. The
//! failure surfaces as a raw `502`, or as `426 Upgrade Required` when the only
//! IPv4 listener is the framework's HMR socket. The verdicts here name the
//! cause. Read-only.

use vstd::prelude::*;
use vstd::set_lib::*;
use vstd::string::*;

use crate::detect::report::Status;
use crate::runner::{command, first_line_of, Invocation, InvocationView, Reply};
use crate::table::{is_less, lemma_less_irreflexive, lemma_less_total, lemma_less_transitive, less};
use crate::text::{
    begins, contains, decimal, decimal_u16, eq, find_of, has_text, last_of, law_port_round_trip,
    lemma_decimal_plain, lemma_find_of, lemma_find_of_is, lines, lines_of, occurs_at, opt_text,
    parse_u16, parse_u16_of, rsplit_once, rsplit_once_of, split_once, split_once_of, starts_with,
    strip_prefix, strip_prefix_of, texts, words, words_of,
};
use crate::yaml::{
    entry_of, field_of, first_item_of, is_text_key, maybe_field, parse, plain_ref, text_of,
    untag_of, yaml_document, Yaml,
};

verus! {

/// One linked host, as recorded in `~/.config/henk/dynamic/<slug>.yml`.
#[derive(Debug, PartialEq, Eq)]
pub struct LinkedHost {
    pub slug: String,
    pub host: String,
    /// Backend URL Traefik forwards to, e.g. `http://host.docker.internal:3001`.
    pub url: String,
}

/// The view of a [`LinkedHost`].
#[verifier::ext_equal]
pub struct LinkView {
    pub slug: Seq<char>,
    pub host: Seq<char>,
    pub url: Seq<char>,
}

impl View for LinkedHost {
    type V = LinkView;

    open spec fn view(&self) -> LinkView {
        LinkView { slug: self.slug@, host: self.host@, url: self.url@ }
    }
}

/// The views of a list of linked hosts.
pub open spec fn link_views(list: Seq<LinkedHost>) -> Seq<LinkView> {
    list.map_values(|h: LinkedHost| h@)
}

/// The port of a dev server on the host. Backends inside Docker have none: they
/// are not reachable from the host at all.
pub open spec fn probe_port_of(url: Seq<char>) -> Option<u16> {
    match strip_prefix_of(url, "http://"@) {
        None => None,
        Some(rest) => {
            let authority = match split_once_of(rest, "/"@) {
                Some((a, _)) => a,
                None => rest,
            };
            match rsplit_once_of(authority, ':') {
                Some((name, port)) => if name == "host.docker.internal"@ {
                    parse_u16_of(port)
                } else {
                    None
                },
                None => None,
            }
        },
    }
}

impl LinkedHost {
    /// The port to probe, for host-mode backends only.
    pub fn host_mode_port(&self) -> (r: Option<u16>)
        ensures
            r == probe_port_of(self@.url),
    {
        let rest = match strip_prefix(self.url.as_str(), "http://") {
            Some(rest) => rest,
            None => return None,
        };
        let authority = match split_once(rest.as_str(), "/") {
            Some((a, _)) => a,
            None => rest,
        };
        match rsplit_once(authority.as_str(), ':') {
            Some((name, port)) => if eq(name.as_str(), "host.docker.internal") {
                parse_u16(port.as_str())
            } else {
                None
            },
            None => None,
        }
    }

    /// A copy.
    pub fn duplicate(&self) -> (r: LinkedHost)
        ensures
            r@ == self@,
    {
        LinkedHost { slug: self.slug.clone(), host: self.host.clone(), url: self.url.clone() }
    }
}

/// The verdict for one linked host.
#[derive(Debug)]
pub struct BackendItem {
    pub slug: String,
    pub host: String,
    pub status: Status,
    pub detail: String,
}

/// The view of a [`BackendItem`].
#[verifier::ext_equal]
pub struct BackendView {
    pub slug: Seq<char>,
    pub host: Seq<char>,
    pub status: Status,
    pub detail: Seq<char>,
}

impl View for BackendItem {
    type V = BackendView;

    open spec fn view(&self) -> BackendView {
        BackendView {
            slug: self.slug@,
            host: self.host@,
            status: self.status,
            detail: self.detail@,
        }
    }
}

/// The views of a list of verdicts.
pub open spec fn backend_views(list: Seq<BackendItem>) -> Seq<BackendView> {
    list.map_values(|i: BackendItem| i@)
}

/// What the host's own IPv4 loopback said when knocked on.
#[derive(Debug, Clone, Copy, PartialEq, Eq, Structural)]
pub enum PortResponse {
    /// Nothing accepted the connection.
    Refused,
    /// An HTTP status came back.
    Code(u16),
}

/// Raw observations for one port, before interpretation.
#[derive(Debug, Clone, Copy, PartialEq, Eq, Structural)]
pub struct Observation {
    pub plain: PortResponse,
    /// Status when the request carries the real `Host:` header. Only collected
    /// when `plain` looked healthy.
    pub with_host: Option<u16>,
    /// Something is listening, but only on the IPv6 loopback.
    pub ipv6_only_listener: bool,
}

// ------------------------------------------------------------------- verdicts

/// Traefik's health check treats 2xx/3xx as alive; everything else is down.
pub open spec fn alive(code: u16) -> bool {
    200 <= code < 400
}

/// Decides [`alive`].
pub fn is_alive(code: u16) -> (r: bool)
    ensures
        r == alive(code),
{
    200 <= code && code < 400
}

/// The verdict on an observation, and what to do about it.
pub open spec fn verdict(port: u16, host: Seq<char>, obs: Observation) -> (Status, Seq<char>) {
    let p = decimal(port as nat);
    match obs.plain {
        PortResponse::Refused => if obs.ipv6_only_listener {
            (
                Status::Block,
                "port "@ + p
                    + " is bound to the IPv6 loopback only — Docker reaches the host over IPv4, so Traefik can't see it. Restart the dev server on 0.0.0.0 (`nuxt dev --host`, `vite --host`, `next dev -H 0.0.0.0`)"@,
            )
        } else {
            (
                Status::Warn,
                "nothing listening on port "@ + p + " — is the dev server running?"@,
            )
        },
        PortResponse::Code(code) => if code == 426 {
            (
                Status::Block,
                "port "@ + p
                    + " only answers WebSocket upgrades — that's the HMR socket, not the app. The app is bound to the IPv6 loopback; restart the dev server on 0.0.0.0"@,
            )
        } else if obs.with_host == Some(403u16) {
            (
                Status::Block,
                "the dev server rejects the hostname `"@ + host
                    + "` — add it to the framework's allowed hosts (Vite: `server.allowedHosts`, Nuxt: `vite.server.allowedHosts`)"@,
            )
        } else if alive(code) {
            (
                Status::Okay,
                "reachable on port "@ + p + " ("@ + decimal(code as nat) + ")"@,
            )
        } else {
            (
                Status::Warn,
                "responds "@ + decimal(code as nat)
                    + " on / — Traefik's health check counts that as down. Point it at a path that returns 2xx/3xx with `health_path` in .henk.toml"@,
            )
        },
    }
}

/// Turns observations into a verdict a user can act on.
pub fn classify(port: u16, host: &str, obs: Observation) -> (r: (Status, String))
    ensures
        (r.0, r.1@) == verdict(port, host@, obs),
{
    let p = decimal_u16(port);
    match obs.plain {
        PortResponse::Refused => if obs.ipv6_only_listener {
            (
                Status::Block,
                "port ".to_owned().concat(p.as_str()).concat(
                    " is bound to the IPv6 loopback only — Docker reaches the host over IPv4, so Traefik can't see it. Restart the dev server on 0.0.0.0 (`nuxt dev --host`, `vite --host`, `next dev -H 0.0.0.0`)",
                ),
            )
        } else {
            (
                Status::Warn,
                "nothing listening on port ".to_owned().concat(p.as_str()).concat(
                    " — is the dev server running?",
                ),
            )
        },
        PortResponse::Code(code) => {
            // A WebSocket-only server answers a plain GET with 426: the HMR
            // socket bound the IPv4 wildcard while the app stayed on [::1].
            if code == 426 {
                return (
                    Status::Block,
                    "port ".to_owned().concat(p.as_str()).concat(
                        " only answers WebSocket upgrades — that's the HMR socket, not the app. The app is bound to the IPv6 loopback; restart the dev server on 0.0.0.0",
                    ),
                );
            }
            if obs.with_host == Some(403u16) {
                return (
                    Status::Block,
                    "the dev server rejects the hostname `".to_owned().concat(host).concat(
                        "` — add it to the framework's allowed hosts (Vite: `server.allowedHosts`, Nuxt: `vite.server.allowedHosts`)",
                    ),
                );
            }
            if is_alive(code) {
                return (
                    Status::Okay,
                    "reachable on port ".to_owned().concat(p.as_str()).concat(" (").concat(
                        decimal_u16(code).as_str(),
                    ).concat(")"),
                );
            }
            (
                Status::Warn,
                "responds ".to_owned().concat(decimal_u16(code).as_str()).concat(
                    " on / — Traefik's health check counts that as down. Point it at a path that returns 2xx/3xx with `health_path` in .henk.toml",
                ),
            )
        },
    }
}

// --------------------------------------------------------------- observations

/// One HTTP GET over IPv4 with `curl`, optionally carrying a `Host:` header.
pub open spec fn http_query(port: u16, host_header: Option<Seq<char>>) -> InvocationView {
    command(
        "curl"@,
        seq!["-s"@, "-o"@, "/dev/null"@, "-w"@, "%{http_code}"@, "--max-time"@, "2"@] + (
        match host_header {
            Some(h) => seq!["-H"@, "Host: "@ + h],
            None => seq![],
        }) + seq!["http://127.0.0.1:"@ + decimal(port as nat) + "/"@],
    )
}

/// The command that knocks on a port.
pub fn http_probe_command(port: u16, host_header: Option<&str>) -> (r: Invocation)
    ensures
        r@ == http_query(port, crate::detect::tld::opt_str(host_header)),
{
    let mut cmd = Invocation::new("curl").arg("-s").arg("-o").arg("/dev/null").arg("-w").arg(
        "%{http_code}",
    ).arg("--max-time").arg("2");
    if let Some(h) = host_header {
        cmd = cmd.arg("-H").arg("Host: ".to_owned().concat(h).as_str());
    }
    cmd.arg(
        "http://127.0.0.1:".to_owned().concat(decimal_u16(port).as_str()).concat("/").as_str(),
    )
}

/// The status that `curl` printed; anything else is a refusal.
pub open spec fn response_of(reply: Reply) -> PortResponse {
    if reply.succeeded() {
        match first_line_of(reply.out()) {
            Some(line) => match parse_u16_of(line) {
                Some(code) => if code != 0 {
                    PortResponse::Code(code)
                } else {
                    PortResponse::Refused
                },
                None => PortResponse::Refused,
            },
            None => PortResponse::Refused,
        }
    } else {
        PortResponse::Refused
    }
}

/// Reads what `curl` printed.
pub fn http_probe(reply: &Reply) -> (r: PortResponse)
    ensures
        r == response_of(*reply),
{
    if let Reply::Output(out) = reply {
        if out.ok() {
            if let Some(line) = out.first_line() {
                if let Some(code) = parse_u16(line.as_str()) {
                    if code != 0 {
                        return PortResponse::Code(code);
                    }
                }
            }
        }
    }
    PortResponse::Refused
}

/// What to ask after the first knock.
#[derive(Debug, Clone, Copy, PartialEq, Eq, Structural)]
pub enum NextProbe {
    /// Knock again, with the real `Host:` header.
    WithHost,
    /// Ask `lsof` who listens.
    Listeners,
    /// Nothing more.
    Nothing,
}

/// What to ask after the first knock: a healthy port is knocked on again with
/// the real hostname, a silent one is looked up among the listeners.
pub open spec fn next_probe(plain: PortResponse) -> NextProbe {
    match plain {
        PortResponse::Refused => NextProbe::Listeners,
        PortResponse::Code(code) => if alive(code) {
            NextProbe::WithHost
        } else {
            NextProbe::Nothing
        },
    }
}

/// Decides [`next_probe`].
pub fn after_plain(plain: PortResponse) -> (r: NextProbe)
    ensures
        r == next_probe(plain),
{
    match plain {
        PortResponse::Refused => NextProbe::Listeners,
        PortResponse::Code(code) => if is_alive(code) {
            NextProbe::WithHost
        } else {
            NextProbe::Nothing
        },
    }
}

/// The observation that the knocks add up to. Answers that were not asked for
/// do not count.
pub open spec fn observation_of(
    plain: PortResponse,
    with_host: Option<PortResponse>,
    listeners: Option<Reply>,
) -> Observation {
    Observation {
        plain,
        with_host: match (next_probe(plain), with_host) {
            (NextProbe::WithHost, Some(PortResponse::Code(c))) => Some(c),
            _ => None,
        },
        ipv6_only_listener: match (next_probe(plain), listeners) {
            (NextProbe::Listeners, Some(reply)) => reply.succeeded() && only_ipv6(reply.out()),
            _ => false,
        },
    }
}

/// Puts an observation together from the answers.
pub fn observe(
    plain: PortResponse,
    with_host: Option<PortResponse>,
    listeners: Option<Reply>,
) -> (r: Observation)
    ensures
        r == observation_of(plain, with_host, listeners),
{
    let next = after_plain(plain);
    let second: Option<u16> = match (next, with_host) {
        (NextProbe::WithHost, Some(PortResponse::Code(c))) => Some(c),
        _ => None,
    };
    let ipv6_only_listener = match (next, listeners) {
        (NextProbe::Listeners, Some(reply)) => ipv6_only(&reply),
        _ => false,
    };
    Observation { plain, with_host: second, ipv6_only_listener }
}

/// `lsof` for the listeners on a TCP port.
pub open spec fn listeners_query(port: u16) -> InvocationView {
    command("lsof"@, seq!["-nP"@, "-iTCP:"@ + decimal(port as nat), "-sTCP:LISTEN"@])
}

/// The command that [`ipv6_only`] reads.
pub fn listeners_command(port: u16) -> (r: Invocation)
    ensures
        r@ == listeners_query(port),
{
    Invocation::new("lsof").arg("-nP").arg(
        "-iTCP:".to_owned().concat(decimal_u16(port).as_str()).as_str(),
    ).arg("-sTCP:LISTEN")
}

/// Is the only listener bound to the IPv6 loopback?
pub fn ipv6_only(reply: &Reply) -> (r: bool)
    ensures
        r == (reply.succeeded() && only_ipv6(reply.out())),
{
    match reply {
        Reply::Output(out) => out.ok() && listeners_are_ipv6_only(out.stdout.as_str()),
        Reply::Unavailable => false,
    }
}

/// The bind address in a line of `lsof`: its last column but one, when it looks
/// like an address.
pub open spec fn bind_of(line: Seq<char>) -> Option<Seq<char>> {
    let columns = words_of(line);
    if columns.len() >= 2 && contains(columns[columns.len() - 2], ":"@) {
        Some(columns[columns.len() - 2])
    } else {
        None
    }
}

/// Does line `i` of `lsof` (after the header) name a bind address?
pub open spec fn binds(list: Seq<Seq<char>>, i: int) -> bool {
    1 <= i < list.len() && bind_of(list[i]) is Some
}

/// There is a listener, and every listener is bound to the IPv6 loopback.
pub open spec fn only_ipv6(stdout: Seq<char>) -> bool {
    let list = lines_of(stdout);
    &&& exists|i: int| #[trigger] binds(list, i)
    &&& forall|i: int| #[trigger] binds(list, i) ==> begins(bind_of(list[i])->0, "[::1]"@)
}

/// Reads the bind address in a line of `lsof`.
fn read_bind(line: &str) -> (r: Option<String>)
    ensures
        opt_text(r) == bind_of(line@),
{
    let columns = words(line);
    let n: usize = columns.len();
    let ghost all = words_of(line@);
    assert(all.len() == n);
    if n >= 2 {
        assert(columns@[n - 2]@ == all[n - 2]);
        if has_text(columns[n - 2].as_str(), ":") {
            return Some(columns[n - 2].clone());
        }
    }
    None
}

/// `lsof -nP -iTCP:3001 -sTCP:LISTEN` prints a header, then one line per
/// listening socket that ends in `<bind address> (LISTEN)`, where the bind is
/// `[::1]:3001`, `*:3001` or `127.0.0.1:3001`.
pub fn listeners_are_ipv6_only(lsof_stdout: &str) -> (r: bool)
    ensures
        r == only_ipv6(lsof_stdout@),
{
    let list = lines(lsof_stdout);
    let ghost all = lines_of(lsof_stdout@);
    let mut found = false;
    let mut i: usize = 1;
    while i < list.len()
        invariant
            1 <= i,
            all == texts(list@),
            all == lines_of(lsof_stdout@),
            found == exists|j: int| j < i && #[trigger] binds(all, j),
            forall|j: int|
                j < i && #[trigger] binds(all, j) ==> begins(bind_of(all[j])->0, "[::1]"@),
        decreases list@.len() - i,
    {
        assert(all[i as int] == list@[i as int]@);
        if let Some(bind) = read_bind(list[i].as_str()) {
            assert(binds(all, i as int));
            if !starts_with(bind.as_str(), "[::1]") {
                return false;
            }
            found = true;
        }
        i += 1;
    }
    found
}

// ------------------------------------------------------------- routing files

/// The text of a value that may be missing.
pub open spec fn maybe_text(v: Option<Yaml>) -> Option<Seq<char>> {
    match v {
        Some(y) => text_of(y),
        None => None,
    }
}

/// The first item of a value that may be missing.
pub open spec fn maybe_first(v: Option<Yaml>) -> Option<Yaml> {
    match v {
        Some(y) => first_item_of(y),
        None => None,
    }
}

/// The primary that service `name` fails over from, when it is a failover.
pub open spec fn failover_of(services: Yaml, name: Seq<char>) -> Option<Seq<char>> {
    maybe_text(maybe_field(maybe_field(field_of(services, name), "failover"@), "service"@))
}

/// The first server of service `name`, when it is a load balancer.
pub open spec fn server_of(services: Yaml, name: Seq<char>) -> Option<Seq<char>> {
    maybe_text(
        maybe_field(
            maybe_first(
                maybe_field(maybe_field(field_of(services, name), "loadBalancer"@), "servers"@),
            ),
            "url"@,
        ),
    )
}

/// The service reached from `name` after `k` failovers.
pub open spec fn hop(services: Yaml, name: Seq<char>, k: nat) -> Option<Seq<char>>
    decreases k,
{
    if k == 0 {
        Some(name)
    } else {
        match hop(services, name, (k - 1) as nat) {
            Some(m) => failover_of(services, m),
            None => None,
        }
    }
}

/// The service reached after `k` failovers is no failover itself.
pub open spec fn settles(services: Yaml, name: Seq<char>, k: nat) -> bool {
    hop(services, name, k) matches Some(m) && failover_of(services, m) is None
}

/// The backend of service `name`: the first server of the service that its
/// failovers lead to. Failovers that lead round in a circle lead nowhere.
pub open spec fn backend_of(services: Yaml, name: Seq<char>) -> Option<Seq<char>> {
    if exists|k: nat| settles(services, name, k) {
        let k = choose|k: nat| settles(services, name, k);
        server_of(services, hop(services, name, k)->0)
    } else {
        None
    }
}

/// Past a step that leads nowhere there is no step.
proof fn lemma_hop_stops(services: Yaml, name: Seq<char>, j: nat, k: nat)
    requires
        j <= k,
        hop(services, name, j) is None,
    ensures
        hop(services, name, k) is None,
    decreases k,
{
    if j < k {
        lemma_hop_stops(services, name, j, (k - 1) as nat);
    }
}

/// Failovers settle at one place.
proof fn lemma_settles_once(services: Yaml, name: Seq<char>, j: nat, k: nat)
    requires
        settles(services, name, j),
        settles(services, name, k),
    ensures
        j == k,
{
    if j < k {
        assert(hop(services, name, j + 1) is None);
        lemma_hop_stops(services, name, j + 1, k);
    } else if k < j {
        assert(hop(services, name, k + 1) is None);
        lemma_hop_stops(services, name, k + 1, j);
    }
}

/// Equal places stay equal.
proof fn lemma_hop_shift(services: Yaml, name: Seq<char>, i: nat, j: nat, t: nat)
    requires
        hop(services, name, i) == hop(services, name, j),
    ensures
        hop(services, name, i + t) == hop(services, name, j + t),
    decreases t,
{
    if t > 0 {
        lemma_hop_shift(services, name, i, j, (t - 1) as nat);
        assert((i + t - 1) as nat == i + (t - 1) as nat);
        assert((j + t - 1) as nat == j + (t - 1) as nat);
    }
}

/// Failovers that come back to a place never settle.
proof fn lemma_circle(services: Yaml, name: Seq<char>, i: nat, j: nat, k: nat)
    requires
        i < j,
        hop(services, name, i) == hop(services, name, j),
        hop(services, name, j) is Some,
    ensures
        hop(services, name, k) is Some,
    decreases k,
{
    if k <= j {
        if hop(services, name, k) is None {
            lemma_hop_stops(services, name, k, j);
        }
    } else {
        let back = (k - (j - i)) as nat;
        lemma_circle(services, name, i, j, back);
        lemma_hop_shift(services, name, i, j, (k - j) as nat);
        assert(i + (k - j) as nat == back);
        assert(j + (k - j) as nat == k);
    }
}

/// Place of the first entry under the text `key`; the number of entries when
/// there is none.
spec fn key_index(entries: Seq<(Yaml, Yaml)>, key: Seq<char>) -> int
    decreases entries.len(),
{
    if entries.len() == 0 || is_text_key(entries[0].0, key) {
        0
    } else {
        1 + key_index(entries.drop_first(), key)
    }
}

/// A key that has a value has a place.
proof fn lemma_key_index(entries: Seq<(Yaml, Yaml)>, key: Seq<char>)
    requires
        entry_of(entries, key) is Some,
    ensures
        0 <= key_index(entries, key) < entries.len(),
        is_text_key(entries[key_index(entries, key)].0, key),
    decreases entries.len(),
{
    if entries.len() > 0 && !is_text_key(entries[0].0, key) {
        lemma_key_index(entries.drop_first(), key);
    }
}

/// More failovers than there are services never settle.
proof fn lemma_too_many_hops(services: Yaml, name: Seq<char>, entries: Seq<(Yaml, Yaml)>, k: nat)
    requires
        untag_of(services) matches Yaml::Mapping(list) && list@ == entries,
        hop(services, name, entries.len() + 1) is Some,
    ensures
        !settles(services, name, k),
{
    let n = entries.len();
    let places = Seq::new(n + 1, |j: int| key_index(entries, hop(services, name, j as nat)->0));
    assert forall|j: int| 0 <= j <= n implies 0 <= #[trigger] places[j] < n && hop(
        services,
        name,
        j as nat,
    ) is Some && is_text_key(entries[places[j]].0, hop(services, name, j as nat)->0) by {
        if hop(services, name, j as nat) is None {
            lemma_hop_stops(services, name, j as nat, n + 1);
        }
        if hop(services, name, (j + 1) as nat) is None {
            lemma_hop_stops(services, name, (j + 1) as nat, n + 1);
        }
        let m = hop(services, name, j as nat)->0;
        assert(failover_of(services, m) is Some);
        lemma_key_index(entries, m);
    }
    if places.no_duplicates() {
        places.unique_seq_to_set();
        lemma_int_range(0, n as int);
        assert(places.to_set().subset_of(set_int_range(0, n as int)));
        lemma_len_subset(places.to_set(), set_int_range(0, n as int));
        assert(false);
    }
    let (i, j) = choose|i: int, j: int|
        0 <= i < places.len() && 0 <= j < places.len() && i != j && places[i] == places[j];
    let (a, b) = if i < j {
        (i as nat, j as nat)
    } else {
        (j as nat, i as nat)
    };
    assert(places[a as int] == places[b as int]);
    assert(hop(services, name, a) == hop(services, name, b));
    lemma_circle(services, name, a, b, k + 1);
}

/// The primary that service `name` fails over from.
fn failover<'a>(services: &'a Yaml, name: &str) -> (r: Option<&'a String>)
    ensures
        match r {
            Some(s) => failover_of(*services, name@) == Some(s@),
            None => failover_of(*services, name@) is None,
        },
{
    match services.field(name) {
        Some(service) => match service.field("failover") {
            Some(f) => match f.field("service") {
                Some(primary) => primary.as_str(),
                None => None,
            },
            None => None,
        },
        None => None,
    }
}

/// The first server of service `name`.
fn server(services: &Yaml, name: &str) -> (r: Option<String>)
    ensures
        opt_text(r) == server_of(*services, name@),
{
    let servers = match services.field(name) {
        Some(service) => match service.field("loadBalancer") {
            Some(lb) => lb.field("servers"),
            None => None,
        },
        None => None,
    };
    let url = match servers {
        Some(list) => match list.first_item() {
            Some(first) => first.field("url"),
            None => None,
        },
        None => None,
    };
    match url {
        Some(v) => match v.as_str() {
            Some(text) => Some(text.clone()),
            None => None,
        },
        None => None,
    }
}

/// Follows a service's failovers to its backend.
pub fn resolve_backend_url(services: &Yaml, name: &str) -> (r: Option<String>)
    ensures
        opt_text(r) == backend_of(*services, name@),
{
    let entries: usize = match services.untag() {
        Yaml::Mapping(list) => list.len(),
        _ => {
            proof {
                assert(failover_of(*services, name@) is None);
                assert(hop(*services, name@, 0) == Some(name@));
                assert(settles(*services, name@, 0));
                let k = choose|k: nat| settles(*services, name@, k);
                lemma_settles_once(*services, name@, 0, k);
                assert(server_of(*services, name@) is None);
            }
            return None;
        },
    };
    let mut at: String = name.to_owned();
    let mut hops: usize = 0;
    let ghost mut steps: nat = 0;
    loop
        invariant
            untag_of(*services) matches Yaml::Mapping(list) && list@.len() == entries,
            hops <= entries,
            steps == hops,
            hop(*services, name@, steps) == Some(at@),
        decreases entries - hops,
    {
        let primary: String = match failover(services, at.as_str()) {
            Some(p) => p.clone(),
            None => {
                proof {
                    assert(settles(*services, name@, steps));
                    let k = choose|k: nat| settles(*services, name@, k);
                    lemma_settles_once(*services, name@, steps, k);
                }
                return server(services, at.as_str());
            },
        };
        assert(hop(*services, name@, steps + 1) == Some(primary@));
        if hops == entries {
            proof {
                let list = untag_of(*services)->Mapping_0;
                assert forall|k: nat| !settles(*services, name@, k) by {
                    lemma_too_many_hops(*services, name@, list@, k);
                }
            }
            return None;
        }
        at = primary;
        hops += 1;
        proof {
            steps = steps + 1;
        }
    }
}

/// Is this router the one that only sends http on to https? It names the same
/// host and service as the real one.
pub open spec fn redirects(router: Yaml) -> bool {
    match field_of(router, "middlewares"@) {
        Some(m) => match untag_of(m) {
            Yaml::Sequence(items) => exists|i: int|
                0 <= i < items@.len() && text_of(#[trigger] items@[i]) == Some(
                    "henk-https-redirect"@,
                ),
            _ => false,
        },
        None => false,
    }
}

/// Decides [`redirects`].
pub fn is_https_redirect(router: &Yaml) -> (r: bool)
    ensures
        r == redirects(*router),
{
    let items = match router.field("middlewares") {
        Some(m) => match m.untag() {
            Yaml::Sequence(items) => items,
            _ => return false,
        },
        None => return false,
    };
    let mut i: usize = 0;
    while i < items.len()
        invariant
            i <= items@.len(),
            field_of(*router, "middlewares"@) matches Some(m) && untag_of(m) == Yaml::Sequence(
                *items,
            ),
            forall|j: int|
                0 <= j < i ==> text_of(#[trigger] items@[j]) != Some("henk-https-redirect"@),
        decreases items@.len() - i,
    {
        if let Some(name) = items[i].as_str() {
            if eq(name.as_str(), "henk-https-redirect") {
                assert(text_of(items@[i as int]) == Some("henk-https-redirect"@));
                return true;
            }
        }
        i += 1;
    }
    false
}

/// The host in a rule such as ``Host(`app.test`)``.
pub open spec fn rule_host(rule: Seq<char>) -> Option<Seq<char>> {
    match split_once_of(rule, "Host(`"@) {
        Some((_, rest)) => match split_once_of(rest, "`"@) {
            Some((host, _)) => Some(host),
            None => None,
        },
        None => None,
    }
}

/// Reads the host in a rule.
pub fn host_from_rule(rule: &str) -> (r: Option<String>)
    ensures
        opt_text(r) == rule_host(rule@),
{
    match split_once(rule, "Host(`") {
        Some((_, rest)) => match split_once(rest.as_str(), "`") {
            Some((host, _)) => Some(host),
            None => None,
        },
        None => None,
    }
}

/// The host that a router links, if it links one.
pub open spec fn router_link(slug: Seq<char>, services: Option<Yaml>, router: Yaml) -> Option<
    LinkView,
> {
    if redirects(router) {
        None
    } else {
        match (
            maybe_text(field_of(router, "rule"@)),
            maybe_text(field_of(router, "service"@)),
            services,
        ) {
            (Some(rule), Some(service), Some(list)) => match (
                rule_host(rule),
                backend_of(list, service),
            ) {
                (Some(host), Some(url)) => Some(LinkView { slug, host, url }),
                _ => None,
            },
            _ => None,
        }
    }
}

/// The hosts that a list of routers links, in order.
pub open spec fn router_links(
    slug: Seq<char>,
    services: Option<Yaml>,
    routers: Seq<(Yaml, Yaml)>,
) -> Seq<LinkView>
    decreases routers.len(),
{
    if routers.len() == 0 {
        seq![]
    } else {
        let before = router_links(slug, services, routers.drop_last());
        match router_link(slug, services, routers.last().1) {
            Some(l) => before.push(l),
            None => before,
        }
    }
}

/// The hosts that a routing document links, in document order.
pub open spec fn document_links(slug: Seq<char>, doc: Yaml) -> Seq<LinkView> {
    let http = field_of(doc, "http"@);
    match maybe_field(http, "routers"@) {
        Some(routers) => match untag_of(routers) {
            Yaml::Mapping(list) => router_links(slug, maybe_field(http, "services"@), list@),
            _ => seq![],
        },
        None => seq![],
    }
}

/// The hosts that a routing file links; none when it is no YAML.
pub open spec fn file_links(slug: Seq<char>, body: Seq<char>) -> Seq<LinkView> {
    match yaml_document(body) {
        Some(doc) => document_links(slug, doc),
        None => seq![],
    }
}

/// Reads what one router links.
fn read_router(slug: &str, services: Option<&Yaml>, router: &Yaml) -> (r: Option<LinkedHost>)
    ensures
        match r {
            Some(l) => router_link(slug@, plain_ref(services), *router) == Some(l@),
            None => router_link(slug@, plain_ref(services), *router) is None,
        },
{
    if is_https_redirect(router) {
        return None;
    }
    let rule = match router.field("rule") {
        Some(v) => match v.as_str() {
            Some(rule) => rule,
            None => return None,
        },
        None => return None,
    };
    let host = match host_from_rule(rule.as_str()) {
        Some(host) => host,
        None => return None,
    };
    let service = match router.field("service") {
        Some(v) => match v.as_str() {
            Some(service) => service,
            None => return None,
        },
        None => return None,
    };
    let url = match services {
        Some(list) => match resolve_backend_url(list, service.as_str()) {
            Some(url) => url,
            None => return None,
        },
        None => return None,
    };
    Some(LinkedHost { slug: slug.to_owned(), host, url })
}

/// The hosts that a routing document links, in document order.
pub fn linked_in(slug: &str, doc: &Yaml) -> (r: Vec<LinkedHost>)
    ensures
        link_views(r@) == document_links(slug@, *doc),
{
    let mut out: Vec<LinkedHost> = Vec::new();
    assert(link_views(out@) =~= Seq::<LinkView>::empty());
    let http = match doc.field("http") {
        Some(http) => http,
        None => return out,
    };
    let routers = match http.field("routers") {
        Some(v) => match v.untag() {
            Yaml::Mapping(list) => list,
            _ => return out,
        },
        None => return out,
    };
    let services = http.field("services");
    let ghost found = plain_ref(services);
    let mut i: usize = 0;
    assert(link_views(out@) =~= router_links(slug@, found, routers@.take(0)));
    while i < routers.len()
        invariant
            i <= routers@.len(),
            found == plain_ref(services),
            link_views(out@) == router_links(slug@, found, routers@.take(i as int)),
        decreases routers@.len() - i,
    {
        assert(routers@.take(i + 1).drop_last() =~= routers@.take(i as int));
        let ghost before = link_views(out@);
        if let Some(l) = read_router(slug, services, &routers[i].1) {
            let ghost view = l@;
            out.push(l);
            assert(link_views(out@) =~= before.push(view));
        }
        i += 1;
    }
    assert(routers@.take(i as int) =~= routers@);
    out
}

/// Pulls hosts and backends out of one project's routing file, in document
/// order. A router points at a service, which is either a failover (followed to
/// its primary) or a plain load balancer (files written before failovers).
pub fn parse_linked_hosts(slug: &str, body: &str) -> (r: Vec<LinkedHost>)
    ensures
        link_views(r@) == file_links(slug@, body@),
{
    match parse(body) {
        Some(doc) => linked_in(slug, &doc),
        None => {
            let out: Vec<LinkedHost> = Vec::new();
            assert(link_views(out@) =~= Seq::<LinkView>::empty());
            out
        },
    }
}

/// The rule of a router, if it is one that only redirects.
pub open spec fn twin_rule(router: Yaml) -> Option<Seq<char>> {
    if redirects(router) {
        maybe_text(field_of(router, "rule"@))
    } else {
        None
    }
}

/// The rules of the routers that only redirect, in order.
pub open spec fn twin_rules(routers: Seq<(Yaml, Yaml)>) -> Seq<Seq<char>>
    decreases routers.len(),
{
    if routers.len() == 0 {
        seq![]
    } else {
        let before = twin_rules(routers.drop_last());
        match twin_rule(routers.last().1) {
            Some(rule) => before.push(rule),
            None => before,
        }
    }
}

/// The rules of a routing document's routers that only redirect, in document
/// order.
pub open spec fn document_twins(doc: Yaml) -> Seq<Seq<char>> {
    match maybe_field(field_of(doc, "http"@), "routers"@) {
        Some(routers) => match untag_of(routers) {
            Yaml::Mapping(list) => twin_rules(list@),
            _ => seq![],
        },
        None => seq![],
    }
}

/// Reads the rule of a router, if it is one that only redirects.
fn read_twin(router: &Yaml) -> (r: Option<String>)
    ensures
        opt_text(r) == twin_rule(*router),
{
    if !is_https_redirect(router) {
        return None;
    }
    match router.field("rule") {
        Some(v) => match v.as_str() {
            Some(rule) => Some(rule.clone()),
            None => None,
        },
        None => None,
    }
}

/// The rules of the routers that only send http on to https, in document order.
/// Each names the same host as the real router beside it.
pub fn twins_in(doc: &Yaml) -> (r: Vec<String>)
    ensures
        texts(r@) == document_twins(*doc),
{
    let mut out: Vec<String> = Vec::new();
    assert(texts(out@) =~= Seq::<Seq<char>>::empty());
    let routers = match doc.field("http") {
        Some(http) => match http.field("routers") {
            Some(v) => match v.untag() {
                Yaml::Mapping(list) => list,
                _ => return out,
            },
            None => return out,
        },
        None => return out,
    };
    let mut i: usize = 0;
    assert(texts(out@) =~= twin_rules(routers@.take(0)));
    while i < routers.len()
        invariant
            i <= routers@.len(),
            texts(out@) == twin_rules(routers@.take(i as int)),
        decreases routers@.len() - i,
    {
        assert(routers@.take(i + 1).drop_last() =~= routers@.take(i as int));
        let ghost before = texts(out@);
        if let Some(rule) = read_twin(&routers[i].1) {
            let ghost view = rule@;
            out.push(rule);
            assert(texts(out@) =~= before.push(view));
        }
        i += 1;
    }
    assert(routers@.take(i as int) =~= routers@);
    out
}

// ---------------------------------------------------------------- every project

/// A file of the routing directory.
#[derive(Debug)]
pub struct RouteFile {
    pub name: String,
    pub body: String,
}

/// The slug of a routing file: its name without `.yml`. Files of another kind
/// have none.
pub open spec fn route_slug(name: Seq<char>) -> Option<Seq<char>> {
    match rsplit_once_of(name, '.') {
        Some((stem, ext)) => if stem.len() > 0 && ext == "yml"@ {
            Some(stem)
        } else {
            None
        },
        None => None,
    }
}

/// The slug of a linked project's routing file. Names that begin with `_`
/// belong to henk itself.
pub open spec fn project_slug(name: Seq<char>) -> Option<Seq<char>> {
    match route_slug(name) {
        Some(stem) => if stem[0] != '_' {
            Some(stem)
        } else {
            None
        },
        None => None,
    }
}

/// Reads the slug of a routing file.
pub fn slug_of_route(name: &str) -> (r: Option<String>)
    ensures
        opt_text(r) == route_slug(name@),
{
    match rsplit_once(name, '.') {
        Some((stem, ext)) => if !stem.as_str().is_empty() && eq(ext.as_str(), "yml") {
            Some(stem)
        } else {
            None
        },
        None => None,
    }
}

/// The hosts that a list of files links, file by file.
pub open spec fn all_links(files: Seq<RouteFile>) -> Seq<LinkView>
    decreases files.len(),
{
    if files.len() == 0 {
        seq![]
    } else {
        all_links(files.drop_last()) + match project_slug(files.last().name@) {
            Some(slug) => file_links(slug, files.last().body@),
            None => seq![],
        }
    }
}

/// The order in which linked hosts are listed: by slug, then by host.
pub open spec fn link_less(a: LinkView, b: LinkView) -> bool {
    less(a.slug, b.slug) || (a.slug == b.slug && less(a.host, b.host))
}

/// Nothing comes after something that it is below.
pub open spec fn ordered(list: Seq<LinkView>) -> bool {
    forall|i: int, j: int|
        #![trigger list[i], list[j]]
        0 <= i < j < list.len() ==> !link_less(list[j], list[i])
}

/// The entries of one slug and host, in order.
pub open spec fn keyed(list: Seq<LinkView>, slug: Seq<char>, host: Seq<char>) -> Seq<LinkView>
    decreases list.len(),
{
    if list.len() == 0 {
        seq![]
    } else {
        let before = keyed(list.drop_last(), slug, host);
        if list.last().slug == slug && list.last().host == host {
            before.push(list.last())
        } else {
            before
        }
    }
}

/// Both lists hold the same entries, and entries that the order does not tell
/// apart come in the same order.
pub open spec fn same_links(a: Seq<LinkView>, b: Seq<LinkView>) -> bool {
    forall|slug: Seq<char>, host: Seq<char>| #[trigger]
        keyed(a, slug, host) == keyed(b, slug, host)
}

/// The entries of one key in two lists are those of the lists put together.
proof fn lemma_keyed_add(a: Seq<LinkView>, b: Seq<LinkView>, slug: Seq<char>, host: Seq<char>)
    ensures
        keyed(a + b, slug, host) == keyed(a, slug, host) + keyed(b, slug, host),
    decreases b.len(),
{
    if b.len() == 0 {
        assert(a + b =~= a);
    } else {
        assert((a + b).drop_last() =~= a + b.drop_last());
        lemma_keyed_add(a, b.drop_last(), slug, host);
        assert(keyed(a + b, slug, host) =~= keyed(a, slug, host) + keyed(b, slug, host));
    }
}

/// A list without a key has no entries of it.
proof fn lemma_keyed_none(list: Seq<LinkView>, slug: Seq<char>, host: Seq<char>)
    requires
        forall|i: int|
            0 <= i < list.len() ==> (#[trigger] list[i]).slug != slug || list[i].host != host,
    ensures
        keyed(list, slug, host) == Seq::<LinkView>::empty(),
    decreases list.len(),
{
    if list.len() > 0 {
        assert(list[list.len() - 1] == list.last());
        assert forall|i: int| 0 <= i < list.drop_last().len() implies (
        #[trigger] list.drop_last()[i]).slug != slug || list.drop_last()[i].host != host by {
            assert(list.drop_last()[i] == list[i]);
        }
        lemma_keyed_none(list.drop_last(), slug, host);
    }
}

/// What is below `b`, and `b` not above `c`, is below `c`.
proof fn lemma_link_less(a: LinkView, b: LinkView, c: LinkView)
    requires
        link_less(a, b),
        !link_less(c, b),
    ensures
        link_less(a, c),
{
    lemma_less_total(b.slug, c.slug);
    lemma_less_total(b.host, c.host);
    if less(b.slug, c.slug) {
        if less(a.slug, b.slug) {
            lemma_less_transitive(a.slug, b.slug, c.slug);
        }
    } else {
        if b.slug == c.slug && a.slug == b.slug && less(b.host, c.host) {
            lemma_less_transitive(a.host, b.host, c.host);
        }
    }
}

/// Decides [`link_less`].
fn is_link_less(a: &LinkedHost, b: &LinkedHost) -> (r: bool)
    ensures
        r == link_less(a@, b@),
{
    if is_less(a.slug.as_str(), b.slug.as_str()) {
        return true;
    }
    eq(a.slug.as_str(), b.slug.as_str()) && is_less(a.host.as_str(), b.host.as_str())
}

/// Puts a host behind those that it is not below.
fn insert_ordered(out: &mut Vec<LinkedHost>, l: LinkedHost)
    requires
        ordered(link_views(old(out)@)),
    ensures
        ordered(link_views(final(out)@)),
        same_links(link_views(final(out)@), link_views(old(out)@).push(l@)),
{
    let ghost old_views = link_views(out@);
    let ghost x = l@;
    let mut i: usize = 0;
    while i < out.len() && !is_link_less(&l, &out[i])
        invariant
            i <= out@.len(),
            old_views == link_views(out@),
            x == l@,
            forall|j: int| 0 <= j < i ==> !link_less(x, #[trigger] old_views[j]),
        decreases out@.len() - i,
    {
        assert(old_views[i as int] == out@[i as int]@);
        i += 1;
    }
    proof {
        if i < out@.len() {
            assert(old_views[i as int] == out@[i as int]@);
        }
        assert forall|j: int| i <= j < old_views.len() implies link_less(
            x,
            #[trigger] old_views[j],
        ) by {
            if j > i {
                assert(!link_less(old_views[j], old_views[i as int]));
                lemma_link_less(x, old_views[i as int], old_views[j]);
            }
        }
    }
    out.insert(i, l);
    proof {
        let a = old_views.take(i as int);
        let b = old_views.skip(i as int);
        let now = link_views(out@);
        assert(now =~= a + seq![x] + b);
        assert(a + b =~= old_views);
        assert forall|p: int, q: int|
            #![trigger now[p], now[q]]
            0 <= p < q < now.len() implies !link_less(now[q], now[p]) by {
            let n = i as int;
            if p < n && q > n {
                assert(now[q] == old_views[q - 1]);
                assert(now[p] == old_views[p]);
            } else if p > n {
                assert(now[q] == old_views[q - 1]);
                assert(now[p] == old_views[p - 1]);
            } else if q < n {
                assert(now[q] == old_views[q]);
                assert(now[p] == old_views[p]);
            } else if q == n {
                assert(now[p] == old_views[p]);
            } else {
                assert(now[q] == old_views[q - 1]);
                assert(link_less(x, old_views[q - 1]));
                lemma_asymmetric(x, old_views[q - 1]);
            }
        }
        assert forall|slug: Seq<char>, host: Seq<char>| #[trigger]
            keyed(now, slug, host) == keyed(old_views.push(x), slug, host) by {
            lemma_keyed_add(a + seq![x], b, slug, host);
            lemma_keyed_add(a, seq![x], slug, host);
            lemma_keyed_add(a, b, slug, host);
            lemma_keyed_add(old_views, seq![x], slug, host);
            assert(old_views + seq![x] =~= old_views.push(x));
            if x.slug == slug && x.host == host {
                assert forall|j: int| 0 <= j < b.len() implies (#[trigger] b[j]).slug != slug
                    || b[j].host != host by {
                    assert(b[j] == old_views[i + j]);
                    assert(link_less(x, old_views[i + j]));
                    lemma_less_irreflexive(slug);
                    lemma_less_irreflexive(host);
                }
                lemma_keyed_none(b, slug, host);
                assert(keyed(now, slug, host) =~= keyed(old_views.push(x), slug, host));
            } else {
                assert(seq![x][0] == x);
                lemma_keyed_none(seq![x], slug, host);
                assert(keyed(now, slug, host) =~= keyed(old_views.push(x), slug, host));
            }
        }
    }
}

/// Of two hosts only one is below the other.
proof fn lemma_asymmetric(a: LinkView, b: LinkView)
    requires
        link_less(a, b),
    ensures
        !link_less(b, a),
{
    lemma_less_irreflexive(a.slug);
    lemma_less_irreflexive(a.host);
    if less(a.slug, b.slug) && less(b.slug, a.slug) {
        lemma_less_transitive(a.slug, b.slug, a.slug);
    }
    if less(a.host, b.host) && less(b.host, a.host) {
        lemma_less_transitive(a.host, b.host, a.host);
    }
}

/// Every linked host across every project, from the files of the routing
/// directory, by slug and host.
pub fn linked_hosts(files: &Vec<RouteFile>) -> (r: Vec<LinkedHost>)
    ensures
        ordered(link_views(r@)),
        same_links(link_views(r@), all_links(files@)),
{
    let mut out: Vec<LinkedHost> = Vec::new();
    let mut i: usize = 0;
    assert(link_views(out@) =~= all_links(files@.take(0)));
    while i < files.len()
        invariant
            i <= files@.len(),
            ordered(link_views(out@)),
            same_links(link_views(out@), all_links(files@.take(i as int))),
        decreases files@.len() - i,
    {
        assert(files@.take(i + 1).drop_last() =~= files@.take(i as int));
        let ghost done = all_links(files@.take(i as int));
        if let Some(slug) = project_of(files[i].name.as_str()) {
            let found = parse_linked_hosts(slug.as_str(), files[i].body.as_str());
            let ghost fresh = link_views(found@);
            let mut j: usize = 0;
            assert(done + fresh.take(0) =~= done);
            while j < found.len()
                invariant
                    j <= found@.len(),
                    fresh == link_views(found@),
                    ordered(link_views(out@)),
                    same_links(link_views(out@), done + fresh.take(j as int)),
                decreases found@.len() - j,
            {
                let l = found[j].duplicate();
                let ghost x = l@;
                let ghost before = link_views(out@);
                insert_ordered(&mut out, l);
                proof {
                    let old_all = done + fresh.take(j as int);
                    let new_all = done + fresh.take(j + 1);
                    assert(fresh[j as int] == x);
                    assert(new_all =~= old_all + seq![x]);
                    assert forall|s: Seq<char>, h: Seq<char>| #[trigger]
                        keyed(link_views(out@), s, h) == keyed(new_all, s, h) by {
                        assert(before.push(x) =~= before + seq![x]);
                        lemma_keyed_add(before, seq![x], s, h);
                        lemma_keyed_add(old_all, seq![x], s, h);
                        assert(keyed(link_views(out@), s, h) == keyed(before.push(x), s, h));
                        assert(keyed(before, s, h) == keyed(old_all, s, h));
                    }
                }
                j += 1;
            }
            assert(fresh.take(j as int) =~= fresh);
        } else {
            assert(done + Seq::<LinkView>::empty() =~= done);
        }
        i += 1;
    }
    assert(files@.take(i as int) =~= files@);
    out
}

/// Reads the slug of a linked project's routing file.
pub fn project_of(name: &str) -> (r: Option<String>)
    ensures
        opt_text(r) == project_slug(name@),
{
    match slug_of_route(name) {
        Some(stem) => {
            let c = crate::text::to_chars(stem.as_str());
            if c[0] != '_' {
                Some(stem)
            } else {
                None
            }
        },
        None => None,
    }
}

/// The verdict on one linked host; none for a backend inside Docker.
pub open spec fn host_verdict(l: LinkView, obs: Observation) -> Option<BackendView> {
    match probe_port_of(l.url) {
        Some(port) => Some(
            BackendView {
                slug: l.slug,
                host: l.host,
                status: verdict(port, l.host, obs).0,
                detail: verdict(port, l.host, obs).1,
            },
        ),
        None => None,
    }
}

/// The verdicts on a list of linked hosts, in order.
pub open spec fn host_verdicts(links: Seq<LinkView>, obs: Seq<Observation>) -> Seq<BackendView>
    decreases links.len(),
{
    if links.len() == 0 || links.len() != obs.len() {
        seq![]
    } else {
        let before = host_verdicts(links.drop_last(), obs.drop_last());
        match host_verdict(links.last(), obs.last()) {
            Some(v) => before.push(v),
            None => before,
        }
    }
}

/// The verdicts on every linked host, given an observation for each. Hosts whose
/// backend lives inside Docker are skipped, whatever was observed.
pub fn probe_all(hosts: &Vec<LinkedHost>, observations: &Vec<Observation>) -> (r: Vec<BackendItem>)
    requires
        hosts@.len() == observations@.len(),
    ensures
        backend_views(r@) == host_verdicts(link_views(hosts@), observations@),
{
    let mut out: Vec<BackendItem> = Vec::new();
    let ghost all = link_views(hosts@);
    let ghost seen = observations@;
    let mut i: usize = 0;
    assert(backend_views(out@) =~= host_verdicts(all.take(0), seen.take(0)));
    while i < hosts.len()
        invariant
            i <= hosts@.len(),
            hosts@.len() == observations@.len(),
            all == link_views(hosts@),
            seen == observations@,
            backend_views(out@) == host_verdicts(all.take(i as int), seen.take(i as int)),
        decreases hosts@.len() - i,
    {
        assert(all.take(i + 1).drop_last() =~= all.take(i as int));
        assert(seen.take(i + 1).drop_last() =~= seen.take(i as int));
        assert(all.take(i + 1).last() == hosts@[i as int]@);
        let ghost before = backend_views(out@);
        let h = &hosts[i];
        if let Some(port) = h.host_mode_port() {
            let (status, detail) = classify(port, h.host.as_str(), observations[i]);
            let item = BackendItem {
                slug: h.slug.clone(),
                host: h.host.clone(),
                status,
                detail,
            };
            let ghost view = item@;
            out.push(item);
            assert(backend_views(out@) =~= before.push(view));
        }
        i += 1;
    }
    assert(all.take(i as int) =~= all);
    assert(seen.take(i as int) =~= seen);
    out
}

/// The rule that henk writes for a host names that host.
pub proof fn law_rule_names_its_host(host: Seq<char>)
    requires
        !host.contains('`'),
    ensures
        rule_host("Host(`"@ + host + "`)"@) == Some(host),
{
    let rule = "Host(`"@ + host + "`)"@;
    reveal_strlit("Host(`");
    reveal_strlit("`)");
    reveal_strlit("`");
    assert(rule.subrange(0, 6) =~= "Host(`"@);
    lemma_find_of_is(rule, "Host(`"@, 0);
    let rest = rule.skip(6);
    assert(rest =~= host + "`)"@);
    assert(rest.subrange(host.len() as int, host.len() as int + 1) =~= "`"@);
    assert forall|j: int| 0 <= j < host.len() implies !occurs_at(rest, "`"@, j) by {
        assert(rest.subrange(j, j + 1)[0] == host[j]);
        assert(host.contains(host[j]));
    }
    lemma_find_of_is(rest, "`"@, host.len() as int);
    assert(rest.take(host.len() as int) =~= host);
}

/// The backend that henk writes for a dev server on the host is probed on that
/// server's port.
pub proof fn law_host_backends_are_probed(port: u16)
    ensures
        probe_port_of("http://host.docker.internal:"@ + decimal(port as nat)) == Some(port),
{
    let p = decimal(port as nat);
    let url = "http://host.docker.internal:"@ + p;
    let name = "host.docker.internal"@;
    reveal_strlit("http://host.docker.internal:");
    reveal_strlit("http://");
    reveal_strlit("host.docker.internal");
    reveal_strlit("/");
    lemma_decimal_plain(port as nat);
    law_port_round_trip(port);
    assert(url.subrange(0, 7) =~= "http://"@);
    let rest = url.skip(7);
    assert(rest =~= name + seq![':'] + p);
    assert forall|j: int| 0 <= j < rest.len() implies rest[j] != '/' by {
        if j > name.len() {
            assert(rest[j] == p[j - name.len() - 1]);
            assert(p.contains(rest[j]));
        }
    }
    assert(find_of(rest, "/"@) is None) by {
        lemma_find_of(rest, "/"@);
        if find_of(rest, "/"@) is Some {
            let i = find_of(rest, "/"@)->0;
            assert(rest.subrange(i, i + 1)[0] == '/');
        }
    }
    assert forall|j: int| name.len() < j < rest.len() implies rest[j] != ':' by {
        assert(rest[j] == p[j - name.len() - 1]);
        assert(p.contains(rest[j]));
    }
    lemma_last_of(rest, ':', name.len() as int);
    assert(rest.take(name.len() as int) =~= name);
    assert(rest.skip(name.len() as int + 1) =~= p);
}

/// The last `c` of a text is the one behind which there is none.
pub proof fn lemma_last_of(s: Seq<char>, c: char, i: int)
    requires
        0 <= i < s.len(),
        s[i] == c,
        forall|j: int| i < j < s.len() ==> s[j] != c,
    ensures
        last_of(s, c) == i,
    decreases s.len(),
{
    if i < s.len() - 1 {
        assert(s.last() != c);
        lemma_last_of(s.drop_last(), c, i);
    }
}

/// A backend inside Docker is never probed from the host.
pub proof fn law_docker_backends_are_not_probed(url: Seq<char>)
    requires
        !contains(url, "host.docker.internal"@),
    ensures
        probe_port_of(url) is None,
{
    if probe_port_of(url) is Some {
        let rest = strip_prefix_of(url, "http://"@)->0;
        let authority = match split_once_of(rest, "/"@) {
            Some((a, _)) => a,
            None => rest,
        };
        let name = "host.docker.internal"@;
        reveal_strlit("http://");
        lemma_find_of(rest, "/"@);
        let n = last_of(authority, ':');
        assert(authority.take(n) == name);
        assert(url.subrange(7, 7 + name.len() as int) =~= authority.take(n));
        assert(occurs_at(url, name, 7));
    }
}

/// An http router that only redirects never counts, wherever it stands: the links
/// stay the same when it is taken out.
pub proof fn law_redirect_routers_are_skipped(
    slug: Seq<char>,
    services: Option<Yaml>,
    routers: Seq<(Yaml, Yaml)>,
    i: int,
)
    requires
        0 <= i < routers.len(),
        redirects(routers[i].1),
    ensures
        router_links(slug, services, routers) == router_links(slug, services, routers.remove(i)),
    decreases routers.len(),
{
    let rest = routers.remove(i);
    if i == routers.len() - 1 {
        assert(rest =~= routers.drop_last());
    } else {
        law_redirect_routers_are_skipped(slug, services, routers.drop_last(), i);
        assert(rest.drop_last() =~= routers.drop_last().remove(i));
        assert(rest.last() == routers.last());
    }
}

/// Only what answers with 2xx or 3xx is ever called reachable, and a refused
/// connection never is.
pub proof fn law_reachable_means_alive(port: u16, host: Seq<char>, obs: Observation)
    ensures
        verdict(port, host, obs).0 == Status::Okay <==> (obs.plain matches PortResponse::Code(c)
            && alive(c) && obs.with_host != Some(403u16)),
{
}


// -------------------------------------------------------------- what is judged

/// The verdict on a port. One that refuses is worth a warning, and blocks when
/// something listens on the IPv6 loopback alone. A WebSocket-only answer blocks,
/// and so does a server that forbids the hostname. Otherwise 2xx and 3xx are
/// fine, and any other status is worth a warning.
pub proof fn law_verdicts(port: u16, host: Seq<char>, obs: Observation)
    ensures
        ({
            let v = verdict(port, host, obs);
            &&& obs.plain is Refused ==> v.0 == (if obs.ipv6_only_listener {
                Status::Block
            } else {
                Status::Warn
            })
            &&& obs.plain matches PortResponse::Code(code) ==> v.0 == (if code == 426
                || obs.with_host == Some(403u16) {
                Status::Block
            } else if 200 <= code <= 399 {
                Status::Okay
            } else {
                Status::Warn
            })
        }),
{
}

/// A verdict says which port it is about, which hostname is rejected, and which
/// status came back.
pub proof fn law_verdicts_are_specific(port: u16, host: Seq<char>, obs: Observation)
    ensures
        ({
            let v = verdict(port, host, obs);
            let code = match obs.plain {
                PortResponse::Code(c) => c,
                PortResponse::Refused => 0u16,
            };
            &&& obs.plain is Refused || code == 426 || v.0 == Status::Okay ==> contains(
                v.1,
                "port "@ + decimal(port as nat),
            )
            &&& obs.plain is Code && code != 426 && obs.with_host == Some(403u16) ==> contains(
                v.1,
                "`"@ + host + "`"@,
            )
            &&& v.0 == Status::Okay ==> contains(v.1, "("@ + decimal(code as nat) + ")"@)
        }),
{
    let v = verdict(port, host, obs);
    let p = decimal(port as nat);
    let want = "port "@ + p;
    reveal_strlit("port ");
    match obs.plain {
        PortResponse::Refused => {
            if obs.ipv6_only_listener {
                assert(v.1.subrange(0, want.len() as int) =~= want);
                assert(occurs_at(v.1, want, 0));
            } else {
                reveal_strlit("nothing listening on port ");
                assert(v.1.subrange(21, 21int + want.len()) =~= want);
                assert(occurs_at(v.1, want, 21));
            }
        },
        PortResponse::Code(code) => {
            if code == 426 {
                assert(v.1.subrange(0, want.len() as int) =~= want);
                assert(occurs_at(v.1, want, 0));
            } else if obs.with_host == Some(403u16) {
                let name = "`"@ + host + "`"@;
                reveal_strlit("the dev server rejects the hostname `");
                reveal_strlit(
                    "` — add it to the framework's allowed hosts (Vite: `server.allowedHosts`, Nuxt: `vite.server.allowedHosts`)",
                );
                reveal_strlit("`");
                assert(v.1.subrange(36, 36int + name.len()) =~= name);
                assert(occurs_at(v.1, name, 36));
            } else if alive(code) {
                reveal_strlit("reachable on port ");
                reveal_strlit(" (");
                reveal_strlit("(");
                reveal_strlit(")");
                assert(v.1.subrange(13, 13int + want.len()) =~= want);
                assert(occurs_at(v.1, want, 13));
                let tail = "("@ + decimal(code as nat) + ")"@;
                let k = v.1.len() - tail.len();
                assert(v.1.subrange(k, k + tail.len()) =~= tail);
                assert(occurs_at(v.1, tail, k));
            }
        },
    }
}

/// A silent port is looked up among the listeners; a healthy one is knocked on
/// again under the real hostname; any other answer settles the matter. What was
/// not asked for does not count.
pub proof fn law_probes_follow_the_first_answer(
    plain: PortResponse,
    with_host: Option<PortResponse>,
    listeners: Option<Reply>,
)
    ensures
        ({
            let healthy = plain matches PortResponse::Code(c) && 200 <= c <= 399;
            let o = observation_of(plain, with_host, listeners);
            &&& next_probe(plain) == NextProbe::Listeners <==> plain is Refused
            &&& next_probe(plain) == NextProbe::WithHost <==> healthy
            &&& o.plain == plain
            &&& o.with_host is Some <==> healthy && (with_host matches Some(r) && r is Code)
            &&& o.with_host matches Some(c) ==> with_host == Some(PortResponse::Code(c))
            &&& o.ipv6_only_listener <==> plain is Refused && (listeners matches Some(reply)
                && reply.succeeded() && only_ipv6(reply.out()))
        }),
{
}

/// A port is knocked on over IPv4, at its root, and under the hostname when one
/// is given.
pub proof fn law_probe_knocks_on_its_port(port: u16, host: Seq<char>)
    ensures
        http_query(port, None).program == "curl"@,
        http_query(port, Some(host)).program == "curl"@,
        http_query(port, None).args.last() == "http://127.0.0.1:"@ + decimal(port as nat) + "/"@,
        http_query(port, Some(host)).args.last() == http_query(port, None).args.last(),
        http_query(port, Some(host)).args.contains("Host: "@ + host),
        http_query(port, None).args.contains("%{http_code}"@),
        listeners_query(port).args.contains("-iTCP:"@ + decimal(port as nat)),
{
    assert(http_query(port, Some(host)).args[8] == "Host: "@ + host);
    assert(http_query(port, None).args[4] == "%{http_code}"@);
    assert(listeners_query(port).args[1] == "-iTCP:"@ + decimal(port as nat));
}

/// The status that `curl` prints on its first line is the answer; a failed
/// `curl`, no number, or the number zero is a refusal.
pub proof fn law_answer_is_the_printed_status(reply: Reply, code: u16)
    ensures
        response_of(reply) == PortResponse::Code(code) <==> code != 0 && reply.succeeded() && (
        first_line_of(reply.out()) matches Some(line) && parse_u16_of(line) == Some(code)),
        first_line_of(reply.out()) == Some(decimal(code as nat)) && reply.succeeded() && code != 0
            ==> response_of(reply) == PortResponse::Code(code),
{
    law_port_round_trip(code);
}

/// One listener on another address than the IPv6 loopback, or no listener at
/// all, and the port is not bound to the IPv6 loopback alone.
pub proof fn law_any_other_listener_counts(stdout: Seq<char>, i: int)
    ensures
        ({
            let list = lines_of(stdout);
            let columns = words_of(list[i]);
            &&& 1 <= i < list.len() && columns.len() >= 2 && contains(
                columns[columns.len() - 2],
                ":"@,
            ) && !begins(columns[columns.len() - 2], "[::1]"@) ==> !only_ipv6(stdout)
            &&& list.len() <= 1 ==> !only_ipv6(stdout)
        }),
{
    let list = lines_of(stdout);
    if 1 <= i < list.len() && bind_of(list[i]) is Some {
        assert(binds(list, i));
    }
}

/// Failovers are followed: a service that fails over from a primary has that
/// primary's backend, and one that is no failover has its own first server.
pub proof fn law_failovers_are_followed(services: Yaml, name: Seq<char>, primary: Seq<char>)
    ensures
        failover_of(services, name) is None ==> backend_of(services, name) == server_of(
            services,
            name,
        ),
        failover_of(services, name) == Some(primary) ==> backend_of(services, name) == backend_of(
            services,
            primary,
        ),
{
    if failover_of(services, name) is None {
        assert(hop(services, name, 0) == Some(name));
        assert(settles(services, name, 0));
        let k = choose|k: nat| settles(services, name, k);
        lemma_settles_once(services, name, 0, k);
    }
    if failover_of(services, name) == Some(primary) {
        assert(hop(services, name, 0) == Some(name));
        assert(!settles(services, name, 0));
        if exists|k: nat| settles(services, name, k) {
            let k = choose|k: nat| settles(services, name, k);
            assert(k > 0);
            lemma_hop_on(services, name, primary, (k - 1) as nat);
            assert(settles(services, primary, (k - 1) as nat));
            let j = choose|j: nat| settles(services, primary, j);
            lemma_settles_once(services, primary, (k - 1) as nat, j);
        }
        if exists|k: nat| settles(services, primary, k) {
            let k = choose|k: nat| settles(services, primary, k);
            lemma_hop_on(services, name, primary, k);
            assert(settles(services, name, k + 1));
        }
    }
}

/// One failover on from a service is where its primary is.
proof fn lemma_hop_on(services: Yaml, name: Seq<char>, primary: Seq<char>, k: nat)
    requires
        failover_of(services, name) == Some(primary),
    ensures
        hop(services, name, k + 1) == hop(services, primary, k),
    decreases k,
{
    if k == 0 {
        assert(hop(services, name, 0) == Some(name));
    } else {
        lemma_hop_on(services, name, primary, (k - 1) as nat);
        assert((k - 1) as nat + 1 == k);
    }
}

/// A router with a host rule and a service links that host to the service's
/// backend; one without a rule, a service or a backend links nothing, and neither
/// does one that only redirects.
pub proof fn law_router_links_its_host(
    slug: Seq<char>,
    services: Yaml,
    router: Yaml,
    host: Seq<char>,
    service: Seq<char>,
    url: Seq<char>,
)
    requires
        !host.contains('`'),
        maybe_text(field_of(router, "rule"@)) == Some("Host(`"@ + host + "`)"@),
        maybe_text(field_of(router, "service"@)) == Some(service),
        backend_of(services, service) == Some(url),
    ensures
        router_link(slug, Some(services), router) == (if redirects(router) {
            None
        } else {
            Some(LinkView { slug, host, url })
        }),
        router_link(slug, None, router) is None,
{
    law_rule_names_its_host(host);
}

/// Every router that links something is counted.
pub proof fn law_every_router_counts(
    slug: Seq<char>,
    services: Option<Yaml>,
    routers: Seq<(Yaml, Yaml)>,
    i: int,
)
    requires
        0 <= i < routers.len(),
        router_link(slug, services, routers[i].1) is Some,
    ensures
        router_links(slug, services, routers).contains(
            router_link(slug, services, routers[i].1)->0,
        ),
    decreases routers.len(),
{
    let before = routers.drop_last();
    let now = router_links(slug, services, routers);
    let l = router_link(slug, services, routers[i].1)->0;
    if i < before.len() {
        assert(before[i] == routers[i]);
        law_every_router_counts(slug, services, before, i);
        let was = router_links(slug, services, before);
        let k = choose|k: int| 0 <= k < was.len() && was[k] == l;
        assert(now[k] == l);
    } else {
        assert(routers.last() == routers[i]);
        assert(now[now.len() - 1] == l);
    }
}

/// The routing file of a project is `<slug>.yml`; files that begin with `_` are
/// henk's own, and files of another kind belong to nobody.
pub proof fn law_routing_files_are_named_by_slug(slug: Seq<char>, ext: Seq<char>)
    requires
        slug.len() > 0,
        !ext.contains('.'),
    ensures
        route_slug(slug + "."@ + ext) == (if ext == "yml"@ {
            Some(slug)
        } else {
            None
        }),
        project_slug(slug + "."@ + ext) == (if ext == "yml"@ && slug[0] != '_' {
            Some(slug)
        } else {
            None
        }),
{
    let name = slug + "."@ + ext;
    let n = slug.len() as int;
    reveal_strlit(".");
    assert(name[n] == '.');
    assert forall|j: int| n < j < name.len() implies name[j] != '.' by {
        assert(name[j] == ext[j - n - 1]);
        assert(ext.contains(ext[j - n - 1]));
    }
    lemma_last_of(name, '.', n);
    assert(name.take(n) =~= slug);
    assert(name.skip(n + 1) =~= ext);
}

/// The hosts of every project's file are listed; those of henk's own files are
/// not.
pub proof fn law_every_project_is_listed(files: Seq<RouteFile>, i: int, j: int)
    requires
        0 <= i < files.len(),
        project_slug(files[i].name@) is Some,
        0 <= j < file_links(project_slug(files[i].name@)->0, files[i].body@).len(),
    ensures
        all_links(files).contains(
            file_links(project_slug(files[i].name@)->0, files[i].body@)[j],
        ),
    decreases files.len(),
{
    let before = files.drop_last();
    let was = all_links(before);
    let now = all_links(files);
    let l = file_links(project_slug(files[i].name@)->0, files[i].body@)[j];
    if i < before.len() {
        assert(before[i] == files[i]);
        law_every_project_is_listed(before, i, j);
        let k = choose|k: int| 0 <= k < was.len() && was[k] == l;
        assert(now[k] == l);
    } else {
        assert(files.last() == files[i]);
        assert(now[was.len() + j] == l);
    }
}

/// Every host that leads to a dev server on this machine gets its verdict, under
/// its own name and on its own port; the others get none.
pub proof fn law_every_dev_server_is_judged(links: Seq<LinkView>, obs: Seq<Observation>, i: int)
    requires
        links.len() == obs.len(),
        0 <= i < links.len(),
        probe_port_of(links[i].url) is Some,
    ensures
        exists|k: int|
            0 <= k < host_verdicts(links, obs).len() && (#[trigger] host_verdicts(
                links,
                obs,
            )[k]).slug == links[i].slug && host_verdicts(links, obs)[k].host == links[i].host && (
            host_verdicts(links, obs)[k].status, host_verdicts(links, obs)[k].detail) == verdict(
                probe_port_of(links[i].url)->0,
                links[i].host,
                obs[i],
            ),
    decreases links.len(),
{
    let now = host_verdicts(links, obs);
    let n = links.len() - 1;
    let port = probe_port_of(links[i].url)->0;
    let was = host_verdicts(links.drop_last(), obs.drop_last());
    if i < n {
        assert(links.drop_last()[i] == links[i]);
        assert(obs.drop_last()[i] == obs[i]);
        law_every_dev_server_is_judged(links.drop_last(), obs.drop_last(), i);
        let k = choose|k: int|
            0 <= k < was.len() && (#[trigger] was[k]).slug == links[i].slug && was[k].host
                == links[i].host && (was[k].status, was[k].detail) == verdict(
                port,
                links[i].host,
                obs[i],
            );
        assert(now[k] == was[k]);
    } else {
        assert(links.last() == links[i] && obs.last() == obs[i]);
        let k = now.len() - 1;
        assert(now[k].slug == links[i].slug);
    }
}

/// Routers are listed in the order of the document.
pub proof fn law_routers_keep_the_order(
    slug: Seq<char>,
    services: Option<Yaml>,
    a: Seq<(Yaml, Yaml)>,
    b: Seq<(Yaml, Yaml)>,
)
    ensures
        router_links(slug, services, a + b) == router_links(slug, services, a) + router_links(
            slug,
            services,
            b,
        ),
    decreases b.len(),
{
    let left = router_links(slug, services, a);
    if b.len() == 0 {
        assert(a + b =~= a);
        assert(left + router_links(slug, services, b) =~= left);
    } else {
        assert((a + b).drop_last() =~= a + b.drop_last());
        assert((a + b).last() == b.last());
        law_routers_keep_the_order(slug, services, a, b.drop_last());
        assert(router_links(slug, services, a + b) =~= left + router_links(slug, services, b));
    }
}

/// A router is passed over exactly when henk's redirect is among its middlewares.
/// One with other middlewares, or with none, links its host like any other.
pub proof fn law_only_henks_redirect_is_skipped(
    slug: Seq<char>,
    services: Yaml,
    router: Yaml,
    items: Vec<Yaml>,
    i: int,
    host: Seq<char>,
    service: Seq<char>,
    url: Seq<char>,
)
    requires
        !host.contains('`'),
        maybe_text(field_of(router, "rule"@)) == Some("Host(`"@ + host + "`)"@),
        maybe_text(field_of(router, "service"@)) == Some(service),
        backend_of(services, service) == Some(url),
    ensures
        field_of(router, "middlewares"@) == Some(Yaml::Sequence(items)) && 0 <= i < items@.len()
            && text_of(items@[i]) == Some("henk-https-redirect"@) ==> router_link(
            slug,
            Some(services),
            router,
        ) is None && twin_rule(router) == Some("Host(`"@ + host + "`)"@),
        field_of(router, "middlewares"@) == Some(Yaml::Sequence(items)) && (forall|j: int|
            0 <= j < items@.len() ==> text_of(#[trigger] items@[j]) != Some(
                "henk-https-redirect"@,
            )) ==> router_link(slug, Some(services), router) == Some(LinkView { slug, host, url })
            && twin_rule(router) is None,
        field_of(router, "middlewares"@) is None ==> router_link(slug, Some(services), router)
            == Some(LinkView { slug, host, url }) && twin_rule(router) is None,
{
    law_rule_names_its_host(host);
}

/// Every redirecting router is listed among the twins, in the order of the
/// document.
pub proof fn law_every_twin_is_listed(
    a: Seq<(Yaml, Yaml)>,
    b: Seq<(Yaml, Yaml)>,
    name: Yaml,
    router: Yaml,
)
    ensures
        twin_rules(a + b) == twin_rules(a) + twin_rules(b),
        twin_rule(router) matches Some(rule) ==> twin_rules(seq![(name, router)]) == seq![rule],
        twin_rule(router) is None ==> twin_rules(seq![(name, router)]).len() == 0,
    decreases b.len(),
{
    if b.len() == 0 {
        assert(a + b =~= a);
        assert(twin_rules(a) + twin_rules(b) =~= twin_rules(a));
    } else {
        assert((a + b).drop_last() =~= a + b.drop_last());
        assert((a + b).last() == b.last());
        law_every_twin_is_listed(a, b.drop_last(), name, router);
        assert(twin_rules(a + b) =~= twin_rules(a) + twin_rules(b));
    }
    let one = seq![(name, router)];
    assert(one.drop_last() =~= Seq::<(Yaml, Yaml)>::empty());
    assert(twin_rules(one.drop_last()) =~= Seq::<Seq<char>>::empty());
    if let Some(rule) = twin_rule(router) {
        assert(twin_rules(one) =~= seq![rule]);
    }
}

} // verus!
