//! The detection report.

use vstd::prelude::*;
use vstd::string::*;
use vstd::utf8::encode_utf8;

use crate::detect::backend::lemma_last_of;
use crate::detect::brew::{
    probe_dnsmasq, probe_homebrew, homebrew_of, probe_mkcert, probe_nss, package_of, PackageFacts,
};
use crate::detect::coexistence::{
    ddev_item, herd_item, herd_of, lando_item, tool_of, valet_item, valet_of,
};
use crate::detect::docker::{
    docker_of, foreign_traefik_of, probe, probe_foreign_traefik, probe_proxy_network,
    proxy_network_of,
};
use crate::detect::ports::{port_of, probe_port};
use crate::detect::resolver::resolver_of;
use crate::detect::tld::{decide, decision, opt_str, summary_of, TldChoice, TldChoiceView};
use crate::consts::HENK_FILE_HEADER;
use crate::paint::{bold, bold_of, gray, gray_of, green, green_of, red, red_of, yellow, yellow_of};
use crate::project::detect::lemma_last_of_none;
use crate::project::env_file::FileState;
use crate::project::file_provider::lemma_contains_inside;
use crate::runner::{command, Invocation, InvocationView, Reply};
use crate::text::{
    contains, decimal, is_digit, is_space, law_port_round_trip, lemma_contains_itself,
    lemma_decimal, lemma_decimal_plain, lemma_find_of_is, lemma_trim_same, occurs_at, pad, padded,
    parse_u16, parse_u16_of, rsplit_once, rsplit_once_of, split, split_of, split_once,
    split_once_of, to_chars, trim, trim_of,
};

verus! {

/// How a probe came out.
#[derive(Debug, Clone, Copy, PartialEq, Eq, Structural)]
pub enum Status {
    /// Healthy / present. Green ✓.
    Okay,
    /// Worth flagging but doesn't block init. Yellow !.
    Warn,
    /// Hard collision: init must abort. Red ✗.
    Block,
    /// Pure informational note. Gray i.
    Info,
}

/// The coloured glyph of a status.
pub open spec fn glyph_of(status: Status) -> Seq<char> {
    match status {
        Status::Okay => green_of("✓"@),
        Status::Warn => yellow_of("!"@),
        Status::Block => red_of("✗"@),
        Status::Info => gray_of("i"@),
    }
}

impl Status {
    /// The status glyph, coloured. Every surface uses the same one.
    pub fn glyph(self) -> (r: String)
        ensures
            r@ == glyph_of(self),
    {
        match self {
            Status::Okay => green("✓"),
            Status::Warn => yellow("!"),
            Status::Block => red("✗"),
            Status::Info => gray("i"),
        }
    }
}

/// One row in the detection table.
#[derive(Debug)]
pub struct DetectionItem {
    pub name: &'static str,
    pub status: Status,
    pub detail: String,
}

/// The view of a [`DetectionItem`].
#[verifier::ext_equal]
pub struct ItemView {
    pub name: Seq<char>,
    pub status: Status,
    pub detail: Seq<char>,
}

impl View for DetectionItem {
    type V = ItemView;

    open spec fn view(&self) -> ItemView {
        ItemView { name: self.name@, status: self.status, detail: self.detail@ }
    }
}

/// A row.
pub open spec fn row(name: Seq<char>, status: Status, detail: Seq<char>) -> ItemView {
    ItemView { name, status, detail }
}

/// Builds a row.
pub fn item(name: &'static str, status: Status, detail: String) -> (r: DetectionItem)
    ensures
        r@ == row(name@, status, detail@),
{
    DetectionItem { name, status, detail }
}

/// The views of a list of rows.
pub open spec fn item_views(items: Seq<DetectionItem>) -> Seq<ItemView> {
    items.map_values(|i: DetectionItem| i@)
}

/// The whole detection report.
#[derive(Debug)]
pub struct DetectionReport {
    pub items: Vec<DetectionItem>,
    pub tld: TldChoice,
}

/// Does a row block?
pub open spec fn blocked(items: Seq<ItemView>) -> bool {
    exists|i: int| 0 <= i < items.len() && (#[trigger] items[i]).status == Status::Block
}

/// The length of the longest name, in bytes.
pub open spec fn name_width(items: Seq<ItemView>) -> nat
    decreases items.len(),
{
    if items.len() == 0 {
        0
    } else {
        let before = name_width(items.drop_last());
        let len = encode_utf8(items.last().name).len();
        if len > before {
            len
        } else {
            before
        }
    }
}

/// The rows of the table, names padded to one width.
pub open spec fn rows_text(items: Seq<ItemView>, width: nat) -> Seq<char>
    decreases items.len(),
{
    if items.len() == 0 {
        seq![]
    } else {
        let i = items.last();
        rows_text(items.drop_last(), width) + "  "@ + glyph_of(i.status) + "  "@ + padded(
            i.name,
            width,
        ) + "   "@ + i.detail + "\n"@
    }
}

/// The report as it is printed.
pub open spec fn report_text(items: Seq<ItemView>, tld: TldChoiceView) -> Seq<char> {
    "\n"@ + bold_of("henk — environment detection"@) + "\n\n"@ + rows_text(items, name_width(items))
        + "\n  "@ + summary_of(tld) + "\n\n"@ + (if blocked(items) {
        bold_of(red_of("Blockers above must be resolved before `henk init` can proceed."@))
    } else {
        green_of("No blockers — `henk init` is ready to run."@)
    }) + "\n\n"@
}

impl DetectionReport {
    /// Did any probe report a `Block` status?
    pub fn has_blockers(&self) -> (r: bool)
        ensures
            r == blocked(item_views(self.items@)),
    {
        let ghost all = item_views(self.items@);
        let mut i: usize = 0;
        while i < self.items.len()
            invariant
                i <= self.items@.len(),
                all == item_views(self.items@),
                forall|j: int| 0 <= j < i ==> (#[trigger] all[j]).status != Status::Block,
            decreases self.items@.len() - i,
        {
            assert(all[i as int] == self.items@[i as int]@);
            if self.items[i].status == Status::Block {
                return true;
            }
            i += 1;
        }
        false
    }

    /// The length of the longest name, in bytes.
    fn width(&self) -> (r: usize)
        ensures
            r == name_width(item_views(self.items@)),
    {
        let ghost all = item_views(self.items@);
        let mut width: usize = 0;
        let mut i: usize = 0;
        while i < self.items.len()
            invariant
                i <= self.items@.len(),
                all == item_views(self.items@),
                width == name_width(all.take(i as int)),
            decreases self.items@.len() - i,
        {
            assert(all.take(i + 1).drop_last() =~= all.take(i as int));
            assert(all.take(i + 1).last() == self.items@[i as int]@);
            let n: usize = self.items[i].name.as_bytes().len();
            if n > width {
                width = n;
            }
            i += 1;
        }
        assert(all.take(i as int) =~= all);
        width
    }

    /// The report as it is printed, by `henk init --dry-run` and on the wizard's
    /// first screen.
    pub fn print(&self) -> (r: String)
        ensures
            r@ == report_text(item_views(self.items@), self.tld@),
    {
        let ghost all = item_views(self.items@);
        let width = self.width();
        let mut rows = String::new();
        let mut i: usize = 0;
        assert(rows@ =~= rows_text(all.take(0), width as nat));
        while i < self.items.len()
            invariant
                i <= self.items@.len(),
                all == item_views(self.items@),
                rows@ == rows_text(all.take(i as int), width as nat),
            decreases self.items@.len() - i,
        {
            assert(all.take(i + 1).drop_last() =~= all.take(i as int));
            assert(all.take(i + 1).last() == self.items@[i as int]@);
            let it = &self.items[i];
            rows = rows.concat("  ").concat(it.status.glyph().as_str()).concat("  ").concat(
                pad(it.name, width).as_str(),
            ).concat("   ").concat(it.detail.as_str()).concat("\n");
            i += 1;
        }
        assert(all.take(i as int) =~= all);
        let verdict = if self.has_blockers() {
            bold(red("Blockers above must be resolved before `henk init` can proceed.").as_str())
        } else {
            green("No blockers — `henk init` is ready to run.")
        };
        "\n".to_owned().concat(bold("henk — environment detection").as_str()).concat("\n\n").concat(
            rows.as_str(),
        ).concat("\n  ").concat(self.tld.summary().as_str()).concat("\n\n").concat(
            verdict.as_str(),
        ).concat("\n\n")
    }
}

// ------------------------------------------------------- the proxy's own ports

/// `docker ps` for the ports of the running proxy.
pub open spec fn traefik_ports_query() -> InvocationView {
    command(
        "docker"@,
        seq!["ps"@, "--filter"@, "name=henk-traefik"@, "--format"@, "{{.Ports}}"@],
    )
}

/// The command that [`henk_traefik_published_ports`] reads.
pub fn traefik_ports_command() -> (r: Invocation)
    ensures
        r@ == traefik_ports_query(),
{
    Invocation::new("docker").arg("ps").arg("--filter").arg("name=henk-traefik").arg(
        "--format",
    ).arg("{{.Ports}}")
}

/// A separator between port mappings: comma, blank or line break.
pub open spec fn is_gap(c: char) -> bool {
    c == ',' || c == ' ' || c == '\n'
}

/// Every separator made a blank.
pub open spec fn gaps_as_blanks(s: Seq<char>) -> Seq<char> {
    s.map_values(
        |c: char|
            if is_gap(c) {
                ' '
            } else {
                c
            },
    )
}

/// The host-side port of one mapping such as `0.0.0.0:80->80/tcp`.
pub open spec fn mapping_port(chunk: Seq<char>) -> Option<u16> {
    match split_once_of(trim_of(chunk), "->"@) {
        None => None,
        Some((host, _)) => match rsplit_once_of(host, ':') {
            Some((_, port)) => parse_u16_of(port),
            None => parse_u16_of(host),
        },
    }
}

/// The host-side ports of a list of mappings, in order.
pub open spec fn mapping_ports(chunks: Seq<Seq<char>>) -> Seq<u16>
    decreases chunks.len(),
{
    if chunks.len() == 0 {
        seq![]
    } else {
        match mapping_port(chunks.last()) {
            Some(p) => mapping_ports(chunks.drop_last()).push(p),
            None => mapping_ports(chunks.drop_last()),
        }
    }
}

/// The host-side ports that `docker ps` lists.
pub open spec fn listed_ports(reply: Reply) -> Seq<u16> {
    if reply.succeeded() {
        mapping_ports(split_of(gaps_as_blanks(reply.out()), ' '))
    } else {
        seq![]
    }
}

/// Reads one mapping.
fn read_mapping(chunk: &str) -> (r: Option<u16>)
    ensures
        r == mapping_port(chunk@),
{
    match split_once(trim(chunk).as_str(), "->") {
        None => None,
        Some((host, _)) => match rsplit_once(host.as_str(), ':') {
            Some((_, port)) => parse_u16(port.as_str()),
            None => parse_u16(host.as_str()),
        },
    }
}

/// Makes every separator a blank.
fn blank_gaps(s: &str) -> (r: String)
    ensures
        r@ == gaps_as_blanks(s@),
{
    let v = to_chars(s);
    let mut out = String::new();
    let mut i: usize = 0;
    assert(out@ =~= gaps_as_blanks(s@.take(0)));
    while i < v.len()
        invariant
            v@ == s@,
            i <= v@.len(),
            out@ == gaps_as_blanks(s@.take(i as int)),
        decreases v@.len() - i,
    {
        let c: char = v[i];
        if c == ',' || c == ' ' || c == '\n' {
            out.push(' ');
        } else {
            out.push(c);
        }
        i += 1;
        assert(out@ =~= gaps_as_blanks(s@.take(i as int)));
    }
    assert(s@.take(i as int) =~= s@);
    out
}

/// Host ports that the running proxy publishes. Empty when it isn't running.
/// Recognises henk's own bindings when `henk init` runs again.
pub fn henk_traefik_published_ports(reply: &Reply) -> (r: Vec<u16>)
    ensures
        r@ == listed_ports(*reply),
{
    let mut out: Vec<u16> = Vec::new();
    let o = match reply {
        Reply::Output(o) => o,
        Reply::Unavailable => return out,
    };
    if !o.ok() {
        return out;
    }
    let chunks = split(blank_gaps(o.stdout.as_str()).as_str(), ' ');
    let ghost all = split_of(gaps_as_blanks(o.stdout@), ' ');
    let mut i: usize = 0;
    assert(out@ =~= mapping_ports(all.take(0)));
    while i < chunks.len()
        invariant
            i <= chunks@.len(),
            all == crate::text::texts(chunks@),
            all == split_of(gaps_as_blanks(o.stdout@), ' '),
            out@ == mapping_ports(all.take(i as int)),
        decreases chunks@.len() - i,
    {
        assert(all.take(i + 1).drop_last() =~= all.take(i as int));
        assert(all.take(i + 1).last() == chunks@[i as int]@);
        if let Some(p) = read_mapping(chunks[i].as_str()) {
            out.push(p);
        }
        i += 1;
    }
    assert(all.take(i as int) =~= all);
    out
}

/// Is the port in the list?
fn lists_port(list: &Vec<u16>, port: u16) -> (r: bool)
    ensures
        r == list@.contains(port),
{
    let mut i: usize = 0;
    while i < list.len()
        invariant
            i <= list@.len(),
            forall|j: int| 0 <= j < i ==> list@[j] != port,
        decreases list@.len() - i,
    {
        if list[i] == port {
            assert(list@[i as int] == port);
            return true;
        }
        i += 1;
    }
    false
}

/// A port that blocks only because henk's own proxy holds it is no blocker.
pub open spec fn reused(item: ItemView, ours: bool) -> ItemView {
    if item.status == Status::Block && ours {
        row(item.name, Status::Info, "bound by henk-traefik (will be reused)"@)
    } else {
        item
    }
}

/// Downgrades a port that henk's own proxy holds.
fn reuse(it: DetectionItem, ours: bool) -> (r: DetectionItem)
    ensures
        r@ == reused(it@, ours),
{
    if it.status == Status::Block && ours {
        item(it.name, Status::Info, "bound by henk-traefik (will be reused)".to_owned())
    } else {
        it
    }
}

// -------------------------------------------------------------- the full suite

/// What the probes found on the host.
#[derive(Debug)]
pub struct HostFacts {
    /// `docker` is in `$PATH`.
    pub docker: bool,
    pub docker_info: Reply,
    /// `brew` is in `$PATH`.
    pub brew: bool,
    pub brew_version: Reply,
    pub mkcert: PackageFacts,
    pub nss: PackageFacts,
    pub dnsmasq: PackageFacts,
    pub valet: bool,
    pub herd: bool,
    pub ddev: bool,
    pub lando: bool,
    /// The resolver file of the TLD that is going to be used.
    pub resolver: FileState,
    pub traefik_ports: Reply,
    pub port_80: Reply,
    pub port_443: Reply,
    pub proxy_network: Reply,
    pub traefik_containers: Reply,
}

/// The rows of the report, in order.
pub open spec fn suite(facts: HostFacts, tld: Seq<char>) -> Seq<ItemView> {
    let ours = listed_ports(facts.traefik_ports);
    seq![
        docker_of(facts.docker, facts.docker_info),
        homebrew_of(facts.brew, facts.brew_version),
        package_of("mkcert"@, facts.mkcert),
        package_of("nss"@, facts.nss),
        package_of("dnsmasq"@, facts.dnsmasq),
        valet_of(facts.valet),
        herd_of(facts.herd),
        tool_of("DDEV"@, facts.ddev),
        tool_of("Lando"@, facts.lando),
        resolver_of(tld, facts.resolver),
        reused(port_of("host TCP :80"@, "http"@, facts.port_80), ours.contains(80u16)),
        reused(port_of("host TCP :443"@, "https"@, facts.port_443), ours.contains(443u16)),
        proxy_network_of(facts.proxy_network),
        foreign_traefik_of(facts.traefik_containers),
    ]
}

/// The full report. `facts.resolver` is the resolver file of the TLD that
/// [`decide`] picks for the same override, Valet and Herd.
pub fn run_all(facts: &HostFacts, tld_override: Option<&str>) -> (r: DetectionReport)
    ensures
        r.tld@ == decision(opt_str(tld_override), facts.valet, facts.herd),
        item_views(r.items@) == suite(*facts, r.tld@.value),
{
    let tld = decide(tld_override, facts.valet, facts.herd);
    let mut items: Vec<DetectionItem> = Vec::new();
    items.push(probe(facts.docker, &facts.docker_info));
    items.push(probe_homebrew(facts.brew, &facts.brew_version));
    items.push(probe_mkcert(&facts.mkcert));
    items.push(probe_nss(&facts.nss));
    items.push(probe_dnsmasq(&facts.dnsmasq));
    items.push(valet_item(facts.valet));
    items.push(herd_item(facts.herd));
    items.push(ddev_item(facts.ddev));
    items.push(lando_item(facts.lando));
    items.push(crate::detect::resolver::probe(tld.value(), &facts.resolver));
    let ours = henk_traefik_published_ports(&facts.traefik_ports);
    items.push(
        reuse(probe_port("host TCP :80", "http", &facts.port_80), lists_port(&ours, 80)),
    );
    items.push(
        reuse(probe_port("host TCP :443", "https", &facts.port_443), lists_port(&ours, 443)),
    );
    items.push(probe_proxy_network(&facts.proxy_network));
    items.push(probe_foreign_traefik(&facts.traefik_containers));
    assert(item_views(items@) =~= suite(*facts, tld@.value));
    DetectionReport { items, tld }
}

/// A listener was found on a port.
pub open spec fn in_use(reply: Reply) -> bool {
    reply.succeeded() && trim_of(reply.out()).len() > 0
}

/// `henk init` is blocked exactly when Docker is missing or not reachable,
/// Homebrew is missing, the resolver file is someone else's, or :80 or :443 is
/// held by something else than henk's own proxy.
pub proof fn law_blockers(facts: HostFacts, tld: Seq<char>)
    ensures
        blocked(suite(facts, tld)) <==> {
            ||| !facts.docker
            ||| !facts.docker_info.succeeded()
            ||| !facts.brew
            ||| facts.resolver matches FileState::Text(body) && !contains(
                body@,
                HENK_FILE_HEADER@,
            )
            ||| in_use(facts.port_80) && !listed_ports(facts.traefik_ports).contains(80u16)
            ||| in_use(facts.port_443) && !listed_ports(facts.traefik_ports).contains(443u16)
        },
{
    let all = suite(facts, tld);
    assert(all.len() == 14);
    assert(all[0] == docker_of(facts.docker, facts.docker_info));
    assert(all[1] == homebrew_of(facts.brew, facts.brew_version));
    assert(all[9] == resolver_of(tld, facts.resolver));
    let ours = listed_ports(facts.traefik_ports);
    assert(all[10] == reused(port_of("host TCP :80"@, "http"@, facts.port_80), ours.contains(80u16)));
    assert(all[11] == reused(
        port_of("host TCP :443"@, "https"@, facts.port_443),
        ours.contains(443u16),
    ));
    if blocked(all) {
        let i = choose|i: int| 0 <= i < all.len() && (#[trigger] all[i]).status == Status::Block;
        assert(i == 0 || i == 1 || i == 9 || i == 10 || i == 11) by {
            assert(all[2].status != Status::Block);
            assert(all[3].status != Status::Block);
            assert(all[4].status != Status::Block);
            assert(all[5].status != Status::Block);
            assert(all[6].status != Status::Block);
            assert(all[7].status != Status::Block);
            assert(all[8].status != Status::Block);
            assert(all[12].status != Status::Block);
            assert(all[13].status != Status::Block);
        }
    }
}

/// A mapping publishes the port before its arrow, whatever address it is bound
/// to.
pub proof fn law_published_port_is_read(ip: Seq<char>, port: u16, rest: Seq<char>)
    requires
        !contains(ip, "->"@),
        ip.len() > 0 ==> !is_space(ip[0]),
        rest.len() > 0,
        !is_space(rest.last()),
    ensures
        mapping_port(ip + ":"@ + decimal(port as nat) + "->"@ + rest) == Some(port),
        mapping_port(decimal(port as nat) + "->"@ + rest) == Some(port),
{
    reveal_strlit(":");
    reveal_strlit("->");
    let p = decimal(port as nat);
    lemma_decimal(port as nat);
    law_port_round_trip(port);
    lemma_decimal_plain(port as nat);
    assert forall|j: int| 0 <= j < p.len() implies is_digit(#[trigger] p[j]) by {
        assert(p.contains(p[j]));
    }
    let host = ip + ":"@ + p;
    assert(host.last() == p.last());
    assert(host[0] == (ip + ":"@)[0]);
    assert forall|j: int| 0 <= j < host.len() - 1 implies !(#[trigger] host[j] == '-' && host[j + 1]
        == '>') by {
        if host[j] == '-' && host[j + 1] == '>' {
            if j + 1 > ip.len() {
                assert(host[j + 1] == p[j - ip.len()]);
            }
            assert(j + 1 < ip.len());
            assert(ip.subrange(j, j + 2) =~= "->"@);
            assert(occurs_at(ip, "->"@, j));
        }
    }
    lemma_mapping(host, rest);
    lemma_mapping(p, rest);
    let n = ip.len() as int;
    assert(host[n] == ':');
    assert forall|j: int| n < j < host.len() implies host[j] != ':' by {
        assert(host[j] == p[j - n - 1]);
    }
    lemma_last_of(host, ':', n);
    assert(host.skip(n + 1) =~= p);
    assert(!p.contains(':'));
    lemma_last_of_none(p, ':');
}

/// A mapping is cut at its arrow.
proof fn lemma_mapping(host: Seq<char>, rest: Seq<char>)
    requires
        host.len() > 0,
        !is_space(host[0]),
        is_digit(host.last()),
        forall|j: int| 0 <= j < host.len() - 1 ==> !(#[trigger] host[j] == '-' && host[j + 1] == '>'),
        rest.len() > 0,
        !is_space(rest.last()),
    ensures
        split_once_of(trim_of(host + "->"@ + rest), "->"@) == Some((host, rest)),
{
    reveal_strlit("->");
    let s = host + "->"@ + rest;
    let n = host.len() as int;
    assert(s[0] == host[0]);
    assert(s.last() == rest.last());
    lemma_trim_same(s);
    assert(s.subrange(n, n + 2) =~= "->"@);
    assert forall|j: int| 0 <= j < n implies !occurs_at(s, "->"@, j) by {
        if occurs_at(s, "->"@, j) {
            let part = s.subrange(j, j + 2);
            assert(part[0] == '-' && part[1] == '>');
            assert(s[j] == '-' && s[j + 1] == '>');
            assert(s[j] == host[j]);
            if j + 1 < n {
                assert(host[j + 1] == '>');
            } else {
                assert(host.last() == '-');
            }
        }
    }
    lemma_find_of_is(s, "->"@, n);
    assert(s.take(n) =~= host);
    assert(s.skip(n + 2) =~= rest);
}

/// Commas, blanks and line breaks alike stand between mappings, and every one
/// that names a port is listed.
pub proof fn law_every_mapping_is_listed(chunks: Seq<Seq<char>>, i: int)
    requires
        0 <= i < chunks.len(),
        mapping_port(chunks[i]) is Some,
    ensures
        mapping_ports(chunks).contains(mapping_port(chunks[i])->0),
    decreases chunks.len(),
{
    let before = chunks.drop_last();
    let now = mapping_ports(chunks);
    let p = mapping_port(chunks[i])->0;
    if i < before.len() {
        assert(before[i] == chunks[i]);
        law_every_mapping_is_listed(before, i);
        let was = mapping_ports(before);
        let k = choose|k: int| 0 <= k < was.len() && was[k] == p;
        assert(now[k] == p);
    } else {
        assert(chunks.last() == chunks[i]);
        assert(now.last() == p);
        assert(now[now.len() - 1] == p);
    }
}

/// The report closes with a refusal exactly when something blocks.
pub proof fn law_report_closes_with_the_verdict(items: Seq<ItemView>, tld: TldChoiceView)
    ensures
        blocked(items) ==> contains(
            report_text(items, tld),
            "Blockers above must be resolved before `henk init` can proceed."@,
        ),
        !blocked(items) ==> contains(
            report_text(items, tld),
            "No blockers — `henk init` is ready to run."@,
        ),
        contains(report_text(items, tld), summary_of(tld)),
{
    let all = report_text(items, tld);
    let head = "\n"@ + bold_of("henk — environment detection"@) + "\n\n"@ + rows_text(
        items,
        name_width(items),
    ) + "\n  "@;
    let gap = "\n\n"@;
    let stop = "Blockers above must be resolved before `henk init` can proceed."@;
    let go = "No blockers — `henk init` is ready to run."@;
    let verdict = if blocked(items) {
        bold_of(red_of(stop))
    } else {
        green_of(go)
    };
    lemma_contains_itself(stop);
    lemma_contains_itself(go);
    lemma_contains_itself(summary_of(tld));
    if blocked(items) {
        lemma_contains_inside("\u{1b}[31m"@, stop, "\u{1b}[39m"@, stop);
        lemma_contains_inside("\u{1b}[1m"@, red_of(stop), "\u{1b}[0m"@, stop);
        lemma_contains_inside(head + summary_of(tld) + gap, verdict, gap, stop);
    } else {
        lemma_contains_inside("\u{1b}[32m"@, go, "\u{1b}[39m"@, go);
        lemma_contains_inside(head + summary_of(tld) + gap, verdict, gap, go);
    }
    lemma_contains_inside(head, summary_of(tld), gap + verdict + gap, summary_of(tld));
    assert(all =~= head + summary_of(tld) + (gap + verdict + gap));
    assert(all =~= head + summary_of(tld) + gap + verdict + gap);
}

/// The report has a row for everything that was looked at, with its name, its
/// glyph and its detail.
pub proof fn law_report_shows_every_row(items: Seq<ItemView>, width: nat, i: int)
    requires
        0 <= i < items.len(),
    ensures
        contains(rows_text(items, width), items[i].name),
        contains(rows_text(items, width), items[i].detail),
        contains(rows_text(items, width), glyph_of(items[i].status)),
    decreases items.len(),
{
    let empty = Seq::<char>::empty();
    let before = rows_text(items.drop_last(), width);
    let it = items.last();
    let glyph = glyph_of(it.status);
    let line = "  "@ + glyph + "  "@ + padded(it.name, width) + "   "@ + it.detail + "\n"@;
    let all = rows_text(items, width);
    assert(all =~= before + line + empty);
    assert(all =~= empty + before + line);
    if i < items.len() - 1 {
        assert(items.drop_last()[i] == items[i]);
        law_report_shows_every_row(items.drop_last(), width, i);
        lemma_contains_inside(empty, before, line, items[i].name);
        lemma_contains_inside(empty, before, line, items[i].detail);
        lemma_contains_inside(empty, before, line, glyph_of(items[i].status));
    } else {
        let name = padded(it.name, width);
        lemma_contains_itself(it.name);
        lemma_contains_itself(it.detail);
        lemma_contains_itself(glyph);
        assert(contains(name, it.name)) by {
            assert(name.subrange(0, it.name.len() as int) =~= it.name);
            assert(occurs_at(name, it.name, 0));
        }
        lemma_contains_inside("  "@ + glyph + "  "@, name, "   "@ + it.detail + "\n"@, it.name);
        assert(line =~= "  "@ + glyph + "  "@ + name + ("   "@ + it.detail + "\n"@));
        lemma_contains_inside(
            "  "@ + glyph + "  "@ + name + "   "@,
            it.detail,
            "\n"@,
            it.detail,
        );
        let rest = "  "@ + name + "   "@ + it.detail + "\n"@;
        lemma_contains_inside("  "@, glyph, rest, glyph);
        assert(line =~= "  "@ + glyph + rest);
        lemma_contains_inside(before, line, empty, it.name);
        lemma_contains_inside(before, line, empty, it.detail);
        lemma_contains_inside(before, line, empty, glyph);
    }
}

/// A port that henk's own proxy holds is no blocker; any other row stays as it
/// is.
pub proof fn law_own_ports_are_reused(item: ItemView, ours: bool)
    ensures
        reused(item, ours).name == item.name,
        reused(item, ours).status == Status::Block <==> item.status == Status::Block && !ours,
        item.status != Status::Block || !ours ==> reused(item, ours) == item,
        item.status == Status::Block && ours ==> reused(item, ours).status == Status::Info,
{
}

/// Each status has a glyph of its own, in a colour of its own.
pub proof fn law_glyphs()
    ensures
        glyph_of(Status::Okay) == green_of("✓"@),
        glyph_of(Status::Warn) == yellow_of("!"@),
        glyph_of(Status::Block) == red_of("✗"@),
        glyph_of(Status::Info) == gray_of("i"@),
{
}

} // verus!
