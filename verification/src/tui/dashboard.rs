//! `henk dashboard`: a live read-only view of stack health, linked projects and
//! certificate state. Refreshes every 2 seconds, and on demand via `r`.
//!
//! It never writes anywhere on the system. To restart Traefik or rotate certs,
//! exit and use the regular commands.

use vstd::arithmetic::div_mod::{
    lemma_fundamental_div_mod, lemma_mod_bound, lemma_mod_multiples_vanish, lemma_small_mod,
};
use vstd::prelude::*;
use vstd::string::*;

use crate::cli::status::{preview, preview_of};
use crate::config::{Config, ConfigView};
use crate::consts::{DASHBOARD_PORT, DEFAULT_TLD, HTTPS_PORT, HTTP_PORT};
use crate::detect::backend::{document_twins, project_of, project_slug, twins_in, RouteFile};
use crate::detect::docker::PROXY_CONTAINER;
use crate::runner::{container_running, lists_line, Invocation, Reply};
use crate::search::{found, found_of, groups, regex_groups};
use crate::stack::certinfo::{
    cert_expiry_of, cert_sans_of, dig_command, dig_query, dnsmasq_answering, read_cert_expiry,
    read_cert_sans,
};
use crate::table::{is_less, lemma_less_irreflexive, lemma_less_total, lemma_less_transitive, less};
use crate::text::{
    begins, contains, decimal, decimal_u16, decimal_u64, eq, has_text, join_of, lines_of, opt_text,
    texts, trim_of,
};
use crate::yaml::{parse, yaml_document};

verus! {

/// How often the state is read again, in milliseconds.
pub const REFRESH_EVERY_MS: u64 = 2000;

/// How long to wait for a key, in milliseconds.
pub const POLL_TICK_MS: u64 = 100;

/// Is the state to be read again?
pub fn refresh_due(elapsed_ms: u64) -> (r: bool)
    ensures
        r == (elapsed_ms >= 2000),
{
    elapsed_ms >= REFRESH_EVERY_MS
}

/// A key.
#[derive(Debug, Clone, Copy, PartialEq, Eq, Structural)]
pub enum Key {
    Char(char),
    Esc,
    Up,
    Down,
    /// Any other key.
    Other,
}

/// What a key asks for.
#[derive(Debug, Clone, Copy, PartialEq, Eq, Structural)]
pub enum DashboardAction {
    /// Leave the dashboard.
    Quit,
    /// Read the state again.
    Refresh,
    /// Select the previous project.
    Previous,
    /// Select the next project.
    Following,
    /// Nothing.
    Ignore,
}

/// What a key asks for. `q`, `Esc` and `Ctrl-C` quit.
pub open spec fn action_of(key: Key, control: bool) -> DashboardAction {
    match key {
        Key::Esc => DashboardAction::Quit,
        Key::Up => DashboardAction::Previous,
        Key::Down => DashboardAction::Following,
        Key::Other => DashboardAction::Ignore,
        Key::Char(c) => if c == 'q' || (c == 'c' && control) {
            DashboardAction::Quit
        } else if c == 'r' {
            DashboardAction::Refresh
        } else if c == 'k' {
            DashboardAction::Previous
        } else if c == 'j' {
            DashboardAction::Following
        } else {
            DashboardAction::Ignore
        },
    }
}

/// What a pressed key asks for; `control` tells whether Ctrl was held.
pub fn on_key(key: Key, control: bool) -> (r: DashboardAction)
    ensures
        r == action_of(key, control),
{
    match key {
        Key::Esc => DashboardAction::Quit,
        Key::Up => DashboardAction::Previous,
        Key::Down => DashboardAction::Following,
        Key::Other => DashboardAction::Ignore,
        Key::Char(c) => if c == 'q' || (c == 'c' && control) {
            DashboardAction::Quit
        } else if c == 'r' {
            DashboardAction::Refresh
        } else if c == 'k' {
            DashboardAction::Previous
        } else if c == 'j' {
            DashboardAction::Following
        } else {
            DashboardAction::Ignore
        },
    }
}

/// The selection `delta` places further on, round the end of the list. Nothing
/// selected counts as the first place; an empty list leaves the selection alone.
pub open spec fn moved(selected: Option<int>, len: int, delta: int) -> Option<int> {
    if len == 0 {
        selected
    } else {
        let cur = match selected {
            Some(i) => i,
            None => 0,
        };
        Some((cur + delta) % len)
    }
}

/// The view of a selection.
pub open spec fn place(selected: Option<usize>) -> Option<int> {
    match selected {
        Some(i) => Some(i as int),
        None => None,
    }
}

/// Moves the selection in a list of `len` projects.
pub fn move_selection(selected: Option<usize>, len: usize, delta: i32) -> (r: Option<usize>)
    ensures
        place(r) == moved(place(selected), len as int, delta as int),
{
    if len == 0 {
        return selected;
    }
    let cur: u128 = match selected {
        Some(i) => i as u128,
        None => 0,
    };
    let n: u128 = len as u128;
    let next: u128 = if delta >= 0 {
        let d: u32 = delta as u32;
        (cur + d as u128) % n
    } else {
        let back: i64 = 0 - delta as i64;
        let d: u128 = (back as u64) as u128;
        let rest: u128 = d % n;
        let sum: u128 = cur + n - rest;
        proof {
            lemma_fundamental_div_mod(d as int, n as int);
            let q = d as int / n as int;
            assert(sum == (cur - d) + n * (q + 1)) by (nonlinear_arith)
                requires
                    sum == cur + n - rest,
                    d == n * q + rest,
            ;
            assert(n * (q + 1) == (q + 1) * n) by (nonlinear_arith);
            lemma_mod_multiples_vanish(q + 1, cur - d, n as int);
            assert(sum as int % n as int == (cur - d) % n as int);
        }
        sum % n
    };
    assert(next < n);
    Some(next as usize)
}

/// A selection that is moved in a non-empty list is on the list.
pub proof fn law_selection_stays_on_the_list(selected: Option<int>, len: int, delta: int)
    requires
        len > 0,
    ensures
        moved(selected, len, delta) is Some,
        0 <= moved(selected, len, delta)->0 < len,
{
    let cur = match selected {
        Some(i) => i,
        None => 0,
    };
    lemma_mod_bound(cur + delta, len);
}

/// Going on and back again, or back and on again, ends where it began, also
/// round the end of the list.
pub proof fn law_moves_undo_each_other(i: int, len: int, delta: int)
    requires
        0 <= i < len,
    ensures
        moved(moved(Some(i), len, delta), len, -delta) == Some(i),
{
    let next = (i + delta) % len;
    lemma_fundamental_div_mod(i + delta, len);
    let q = (i + delta) / len;
    assert(next - delta == i + (-q) * len) by (nonlinear_arith)
        requires
            i + delta == len * q + next,
    ;
    assert((-q) * len == len * (-q)) by (nonlinear_arith);
    lemma_mod_multiples_vanish(-q, i, len);
    lemma_small_mod(i as nat, len as nat);
}

/// The place that is selected first.
pub fn initial_selection(len: usize) -> (r: Option<usize>)
    ensures
        r == (if len > 0 {
            Some(0usize)
        } else {
            None
        }),
{
    if len > 0 {
        Some(0)
    } else {
        None
    }
}

/// One linked project.
#[derive(Debug, PartialEq, Eq)]
pub struct ProjectRow {
    pub slug: String,
    pub hosts: Vec<String>,
    /// `host` when a backend is a dev server on the host, otherwise `docker`.
    pub mode: String,
    /// Backend URLs Traefik forwards to.
    pub backends: Vec<String>,
}

/// The view of a [`ProjectRow`].
#[verifier::ext_equal]
pub struct RowView {
    pub slug: Seq<char>,
    pub hosts: Seq<Seq<char>>,
    pub mode: Seq<char>,
    pub backends: Seq<Seq<char>>,
}

impl View for ProjectRow {
    type V = RowView;

    open spec fn view(&self) -> RowView {
        RowView {
            slug: self.slug@,
            hosts: texts(self.hosts@),
            mode: self.mode@,
            backends: texts(self.backends@),
        }
    }
}

/// The views of a list of rows.
pub open spec fn row_views(list: Seq<ProjectRow>) -> Seq<RowView> {
    list.map_values(|p: ProjectRow| p@)
}

/// Is one of the backends a dev server on the host?
pub open spec fn on_host(backends: Seq<Seq<char>>) -> bool {
    exists|i: int|
        0 <= i < backends.len() && contains(#[trigger] backends[i], "host.docker.internal"@)
}

/// The row of a project with these hosts and backends.
pub open spec fn row(slug: Seq<char>, hosts: Seq<Seq<char>>, backends: Seq<Seq<char>>) -> RowView {
    RowView {
        slug,
        hosts,
        mode: if on_host(backends) {
            "host"@
        } else {
            "docker"@
        },
        backends,
    }
}

/// The hosts that a text names in rules, as the regex engine finds them.
pub open spec fn named_hosts(text: Seq<char>) -> Seq<Seq<char>> {
    found_of(regex_groups(r"Host\(`([^`]+)`\)"@, text))
}

/// The hosts that a list of rules names.
pub open spec fn rules_hosts(rules: Seq<Seq<char>>) -> Seq<Seq<char>>
    decreases rules.len(),
{
    if rules.len() == 0 {
        seq![]
    } else {
        rules_hosts(rules.drop_last()) + named_hosts(rules.last())
    }
}

/// The hosts that the redirecting routers of a routing file name; none when it is
/// no YAML.
pub open spec fn file_twins(body: Seq<char>) -> Seq<Seq<char>> {
    match yaml_document(body) {
        Some(doc) => rules_hosts(document_twins(doc)),
        None => seq![],
    }
}

/// The place of the last `host` in a list; the length when it is not there.
pub open spec fn last_place(hosts: Seq<Seq<char>>, host: Seq<char>) -> int
    decreases hosts.len(),
{
    if hosts.len() == 0 {
        0
    } else if hosts.last() == host {
        hosts.len() - 1
    } else {
        let i = last_place(hosts.drop_last(), host);
        if i == hosts.len() - 1 {
            hosts.len() as int
        } else {
            i
        }
    }
}

/// A list without the last `host` in it.
pub open spec fn without_one(hosts: Seq<Seq<char>>, host: Seq<char>) -> Seq<Seq<char>> {
    let i = last_place(hosts, host);
    if 0 <= i < hosts.len() {
        hosts.remove(i)
    } else {
        hosts
    }
}

/// A list of hosts without the twins: for each of them the last mention goes. The
/// real router stands before its twin, so the order stays.
pub open spec fn without_twins(hosts: Seq<Seq<char>>, twins: Seq<Seq<char>>) -> Seq<Seq<char>>
    decreases twins.len(),
{
    if twins.len() == 0 {
        hosts
    } else {
        without_one(without_twins(hosts, twins.drop_last()), twins.last())
    }
}

/// The row of a routing file: its hosts and backends as the regex engine finds
/// them, without the mentions of hosts by routers that only redirect.
pub open spec fn file_row(slug: Seq<char>, body: Seq<char>) -> RowView {
    row(
        slug,
        without_twins(named_hosts(body), file_twins(body)),
        found_of(regex_groups("url:\\s*\"([^\"]+)\""@, body)),
    )
}

/// The row of a project with these hosts and backends.
pub fn project_row(slug: String, hosts: Vec<String>, backends: Vec<String>) -> (r: ProjectRow)
    ensures
        r@ == row(slug@, texts(hosts@), texts(backends@)),
{
    let ghost all = texts(backends@);
    let mut host = false;
    let mut i: usize = 0;
    while i < backends.len()
        invariant
            i <= backends@.len(),
            all == texts(backends@),
            host == (exists|j: int|
                0 <= j < i && contains(#[trigger] all[j], "host.docker.internal"@)),
        decreases backends@.len() - i,
    {
        assert(all[i as int] == backends@[i as int]@);
        if has_text(backends[i].as_str(), "host.docker.internal") {
            host = true;
        }
        i += 1;
    }
    let mode = if host {
        "host".to_owned()
    } else {
        "docker".to_owned()
    };
    ProjectRow { slug, hosts, mode, backends }
}

/// The hosts that a list of rules names.
pub fn hosts_in_rules(rules: &Vec<String>) -> (r: Vec<String>)
    ensures
        texts(r@) == rules_hosts(texts(rules@)),
{
    let ghost all = texts(rules@);
    let mut out: Vec<String> = Vec::new();
    let mut i: usize = 0;
    assert(texts(out@) =~= rules_hosts(all.take(0)));
    while i < rules.len()
        invariant
            i <= rules@.len(),
            all == texts(rules@),
            texts(out@) == rules_hosts(all.take(i as int)),
        decreases rules@.len() - i,
    {
        assert(all.take(i + 1).drop_last() =~= all.take(i as int));
        assert(all.take(i + 1).last() == rules@[i as int]@);
        let ghost before = texts(out@);
        let mut named = found(groups(r"Host\(`([^`]+)`\)", rules[i].as_str()));
        let ghost more = texts(named@);
        out.append(&mut named);
        assert(texts(out@) =~= before + more);
        i += 1;
    }
    assert(all.take(i as int) =~= all);
    out
}

/// Drops the last `host` of a list.
fn drop_one(hosts: &mut Vec<String>, host: &str)
    ensures
        texts(final(hosts)@) == without_one(texts(old(hosts)@), host@),
{
    let ghost all = texts(hosts@);
    let mut i: usize = hosts.len();
    assert(all.take(i as int) =~= all);
    while i > 0
        invariant
            i <= hosts@.len(),
            all == texts(hosts@),
            all == texts(old(hosts)@),
            last_place(all, host@) == (if last_place(all.take(i as int), host@) == i {
                all.len() as int
            } else {
                last_place(all.take(i as int), host@)
            }),
        decreases i,
    {
        assert(all.take(i as int).last() == hosts@[i - 1]@);
        assert(all.take(i as int).drop_last() =~= all.take(i - 1));
        if eq(hosts[i - 1].as_str(), host) {
            hosts.remove(i - 1);
            assert(texts(hosts@) =~= all.remove(i - 1));
            return;
        }
        proof {
            lemma_last_place(all.take(i - 1), host@);
        }
        i -= 1;
    }
}

/// The last place holds the host, or is the length of a list without it.
proof fn lemma_last_place(hosts: Seq<Seq<char>>, host: Seq<char>)
    ensures
        0 <= last_place(hosts, host) <= hosts.len(),
        last_place(hosts, host) < hosts.len() ==> hosts[last_place(hosts, host)] == host,
        last_place(hosts, host) == hosts.len() ==> !hosts.contains(host),
    decreases hosts.len(),
{
    if hosts.len() > 0 {
        let rest = hosts.drop_last();
        lemma_last_place(rest, host);
        if hosts.contains(host) && hosts.last() != host {
            let i = choose|i: int| 0 <= i < hosts.len() && hosts[i] == host;
            assert(rest[i] == host);
        }
    }
}

/// A host is listed as often as the file names it, less the times that routers
/// name it which only redirect. Without such routers nothing is left out.
pub proof fn law_twins_are_left_out(
    hosts: Seq<Seq<char>>,
    twins: Seq<Seq<char>>,
    host: Seq<char>,
)
    ensures
        without_twins(hosts, twins).to_multiset().count(host) == (if hosts.to_multiset().count(host)
            >= twins.to_multiset().count(host) {
            (hosts.to_multiset().count(host) - twins.to_multiset().count(host)) as nat
        } else {
            0
        }),
        twins.len() == 0 ==> without_twins(hosts, twins) == hosts,
    decreases twins.len(),
{
    twins.to_multiset_ensures();
    if twins.len() > 0 {
        let first = twins.drop_last();
        let t = twins.last();
        law_twins_are_left_out(hosts, first, host);
        assert(twins =~= first.push(t));
        first.to_multiset_ensures();
        let prev = without_twins(hosts, first);
        prev.to_multiset_ensures();
        lemma_last_place(prev, t);
    } else {
        assert(twins.to_multiset().count(host) == 0);
    }
}

/// A list of hosts without the twins.
pub fn drop_twins(hosts: Vec<String>, twins: &Vec<String>) -> (r: Vec<String>)
    ensures
        texts(r@) == without_twins(texts(hosts@), texts(twins@)),
{
    let ghost start = texts(hosts@);
    let ghost all = texts(twins@);
    let mut out = hosts;
    let mut i: usize = 0;
    assert(all.take(0).len() == 0);
    while i < twins.len()
        invariant
            i <= twins@.len(),
            all == texts(twins@),
            texts(out@) == without_twins(start, all.take(i as int)),
        decreases twins@.len() - i,
    {
        assert(all.take(i + 1).drop_last() =~= all.take(i as int));
        assert(all.take(i + 1).last() == twins@[i as int]@);
        drop_one(&mut out, twins[i].as_str());
        i += 1;
    }
    assert(all.take(i as int) =~= all);
    out
}

/// Reads the row of a routing file.
pub fn parse_project_row(slug: String, body: &str) -> (r: ProjectRow)
    ensures
        r@ == file_row(slug@, body@),
{
    let twins = match parse(body) {
        Some(doc) => hosts_in_rules(&twins_in(&doc)),
        None => {
            let none: Vec<String> = Vec::new();
            assert(texts(none@) =~= Seq::<Seq<char>>::empty());
            none
        },
    };
    let hosts = drop_twins(found(groups(r"Host\(`([^`]+)`\)", body)), &twins);
    let backends = found(groups("url:\\s*\"([^\"]+)\"", body));
    project_row(slug, hosts, backends)
}

/// The rows of a list of files, file by file.
pub open spec fn all_rows(files: Seq<RouteFile>) -> Seq<RowView>
    decreases files.len(),
{
    if files.len() == 0 {
        seq![]
    } else {
        let before = all_rows(files.drop_last());
        match project_slug(files.last().name@) {
            Some(slug) => before.push(file_row(slug, files.last().body@)),
            None => before,
        }
    }
}

/// Rows by slug.
pub open spec fn ordered(list: Seq<RowView>) -> bool {
    forall|i: int, j: int|
        #![trigger list[i], list[j]]
        0 <= i < j < list.len() ==> !less(list[j].slug, list[i].slug)
}

/// The rows of one slug, in order.
pub open spec fn keyed(list: Seq<RowView>, slug: Seq<char>) -> Seq<RowView>
    decreases list.len(),
{
    if list.len() == 0 {
        seq![]
    } else {
        let before = keyed(list.drop_last(), slug);
        if list.last().slug == slug {
            before.push(list.last())
        } else {
            before
        }
    }
}

/// The two lists hold the same rows, those of one slug in the same order.
pub open spec fn same_rows(a: Seq<RowView>, b: Seq<RowView>) -> bool {
    forall|slug: Seq<char>| #[trigger] keyed(a, slug) == keyed(b, slug)
}

/// The rows of one slug in two lists are those of the lists put together.
proof fn lemma_keyed_add(a: Seq<RowView>, b: Seq<RowView>, slug: Seq<char>)
    ensures
        keyed(a + b, slug) == keyed(a, slug) + keyed(b, slug),
    decreases b.len(),
{
    if b.len() == 0 {
        assert(a + b =~= a);
    } else {
        assert((a + b).drop_last() =~= a + b.drop_last());
        lemma_keyed_add(a, b.drop_last(), slug);
        assert(keyed(a + b, slug) =~= keyed(a, slug) + keyed(b, slug));
    }
}

/// A list without a slug has no rows of it.
proof fn lemma_keyed_none(list: Seq<RowView>, slug: Seq<char>)
    requires
        forall|i: int| 0 <= i < list.len() ==> (#[trigger] list[i]).slug != slug,
    ensures
        keyed(list, slug) == Seq::<RowView>::empty(),
    decreases list.len(),
{
    if list.len() > 0 {
        assert(list[list.len() - 1] == list.last());
        assert forall|i: int| 0 <= i < list.drop_last().len() implies (
        #[trigger] list.drop_last()[i]).slug != slug by {
            assert(list.drop_last()[i] == list[i]);
        }
        lemma_keyed_none(list.drop_last(), slug);
    }
}

/// Puts a row behind those that it is not below.
fn insert_ordered(out: &mut Vec<ProjectRow>, p: ProjectRow)
    requires
        ordered(row_views(old(out)@)),
    ensures
        ordered(row_views(final(out)@)),
        same_rows(row_views(final(out)@), row_views(old(out)@).push(p@)),
{
    let ghost views = row_views(out@);
    let ghost x = p@;
    let mut i: usize = 0;
    while i < out.len() && !is_less(p.slug.as_str(), out[i].slug.as_str())
        invariant
            i <= out@.len(),
            views == row_views(out@),
            x == p@,
            forall|j: int| 0 <= j < i ==> !less(x.slug, (#[trigger] views[j]).slug),
        decreases out@.len() - i,
    {
        assert(views[i as int] == out@[i as int]@);
        i += 1;
    }
    proof {
        if i < out@.len() {
            assert(views[i as int] == out@[i as int]@);
        }
        assert forall|j: int| i <= j < views.len() implies less(
            x.slug,
            (#[trigger] views[j]).slug,
        ) by {
            if j > i {
                let first = views[i as int].slug;
                assert(!less(views[j].slug, first));
                lemma_less_total(first, views[j].slug);
                if less(first, views[j].slug) {
                    lemma_less_transitive(x.slug, first, views[j].slug);
                }
            }
        }
    }
    out.insert(i, p);
    proof {
        let n = i as int;
        let a = views.take(n);
        let b = views.skip(n);
        let now = row_views(out@);
        assert(now =~= a + seq![x] + b);
        assert(a + b =~= views);
        assert forall|p: int, q: int|
            #![trigger now[p], now[q]]
            0 <= p < q < now.len() implies !less(now[q].slug, now[p].slug) by {
            if p < n && q > n {
                assert(now[q] == views[q - 1]);
                assert(now[p] == views[p]);
            } else if p > n {
                assert(now[q] == views[q - 1]);
                assert(now[p] == views[p - 1]);
            } else if q < n {
                assert(now[q] == views[q]);
                assert(now[p] == views[p]);
            } else if q == n {
                assert(now[p] == views[p]);
            } else {
                let other = views[q - 1].slug;
                assert(now[q] == views[q - 1]);
                assert(less(x.slug, other));
                if less(other, x.slug) {
                    lemma_less_transitive(x.slug, other, x.slug);
                    lemma_less_irreflexive(x.slug);
                }
            }
        }
        assert forall|slug: Seq<char>| #[trigger]
            keyed(now, slug) == keyed(views.push(x), slug) by {
            lemma_keyed_add(a + seq![x], b, slug);
            lemma_keyed_add(a, seq![x], slug);
            lemma_keyed_add(a, b, slug);
            lemma_keyed_add(views, seq![x], slug);
            assert(views + seq![x] =~= views.push(x));
            if x.slug == slug {
                assert forall|j: int| 0 <= j < b.len() implies (#[trigger] b[j]).slug != slug by {
                    assert(b[j] == views[i + j]);
                    assert(less(x.slug, views[i + j].slug));
                    lemma_less_irreflexive(slug);
                }
                lemma_keyed_none(b, slug);
                assert(keyed(now, slug) =~= keyed(views.push(x), slug));
            } else {
                assert(seq![x][0] == x);
                lemma_keyed_none(seq![x], slug);
                assert(keyed(now, slug) =~= keyed(views.push(x), slug));
            }
        }
    }
}

/// The linked projects in the files of the routing directory, by slug. A file
/// that cannot be read counts as empty.
pub fn collect_projects(files: &Vec<RouteFile>) -> (r: Vec<ProjectRow>)
    ensures
        ordered(row_views(r@)),
        same_rows(row_views(r@), all_rows(files@)),
{
    let mut out: Vec<ProjectRow> = Vec::new();
    let mut i: usize = 0;
    assert(row_views(out@) =~= all_rows(files@.take(0)));
    while i < files.len()
        invariant
            i <= files@.len(),
            ordered(row_views(out@)),
            same_rows(row_views(out@), all_rows(files@.take(i as int))),
        decreases files@.len() - i,
    {
        assert(files@.take(i + 1).drop_last() =~= files@.take(i as int));
        assert(files@.take(i + 1).last() == files@[i as int]);
        let ghost done = all_rows(files@.take(i as int));
        let ghost now = all_rows(files@.take(i + 1));
        if let Some(slug) = project_of(files[i].name.as_str()) {
            let p = parse_project_row(slug, files[i].body.as_str());
            let ghost x = p@;
            let ghost before = row_views(out@);
            insert_ordered(&mut out, p);
            proof {
                assert(now == done.push(x));
                assert forall|s: Seq<char>| #[trigger]
                    keyed(row_views(out@), s) == keyed(now, s) by {
                    assert(before.push(x) =~= before + seq![x]);
                    assert(done.push(x) =~= done + seq![x]);
                    lemma_keyed_add(before, seq![x], s);
                    lemma_keyed_add(done, seq![x], s);
                    assert(keyed(row_views(out@), s) == keyed(before.push(x), s));
                    assert(keyed(before, s) == keyed(done, s));
                }
            }
        }
        i += 1;
    }
    assert(files@.take(i as int) =~= files@);
    out
}

/// What the dashboard shows.
#[derive(Debug)]
pub struct DashboardState {
    pub tld: String,
    pub http_port: u16,
    pub https_port: u16,
    pub dashboard_port: u16,
    pub traefik_running: bool,
    pub dnsmasq_answering: bool,
    pub cert_sans: Vec<String>,
    pub cert_expires: Option<String>,
    pub projects: Vec<ProjectRow>,
}

/// What was found out for a refresh.
#[derive(Debug)]
pub struct DashboardFacts {
    /// The containers that run under the proxy's name.
    pub traefik: Reply,
    /// The answer to [`dnsmasq_command`].
    pub dnsmasq: Reply,
    /// The text form and the end date of the certificate, when it is on disk.
    pub cert: Option<(Reply, Reply)>,
    /// The files of the routing directory.
    pub files: Vec<RouteFile>,
}

/// The command that asks whether dnsmasq answers.
pub fn dnsmasq_command(tld: &str) -> (r: Invocation)
    ensures
        r@ == dig_query("henk-dashboard-probe"@, tld@),
{
    dig_command("henk-dashboard-probe", tld)
}

/// The settings shown before henk has been initialised, otherwise the
/// configured ones.
pub open spec fn shown_settings(cfg: Option<ConfigView>) -> (Seq<char>, u16, u16, u16) {
    match cfg {
        Some(c) => (c.tld, c.ports.http, c.ports.https, c.ports.dashboard),
        None => (DEFAULT_TLD@, HTTP_PORT, HTTPS_PORT, DASHBOARD_PORT),
    }
}

/// The view of an optional config.
pub open spec fn config_view(cfg: Option<Config>) -> Option<ConfigView> {
    match cfg {
        Some(c) => Some(c@),
        None => None,
    }
}

/// The names in the certificate; none when there is no certificate or it cannot
/// be read.
pub open spec fn shown_sans(cert: Option<(Reply, Reply)>) -> Seq<Seq<char>> {
    match cert {
        Some((text, _)) => match cert_sans_of(text) {
            Some(names) => names,
            None => seq![],
        },
        None => seq![],
    }
}

/// The end date of the certificate.
pub open spec fn shown_expiry(cert: Option<(Reply, Reply)>) -> Option<Seq<char>> {
    match cert {
        Some((_, end)) => cert_expiry_of(end),
        None => None,
    }
}

impl DashboardState {
    /// Does this state show what was found out?
    pub open spec fn shows(self, facts: DashboardFacts) -> bool {
        &&& self.traefik_running == (facts.traefik.succeeded() && lists_line(
            facts.traefik.out(),
            PROXY_CONTAINER@,
        ))
        &&& self.dnsmasq_answering == facts.dnsmasq.succeeded()
        &&& texts(self.cert_sans@) == shown_sans(facts.cert)
        &&& opt_text(self.cert_expires) == shown_expiry(facts.cert)
        &&& ordered(row_views(self.projects@))
        &&& same_rows(row_views(self.projects@), all_rows(facts.files@))
    }

    /// The settings that this state shows.
    pub open spec fn settings(self) -> (Seq<char>, u16, u16, u16) {
        (self.tld@, self.http_port, self.https_port, self.dashboard_port)
    }

    /// The first state.
    pub fn collect(cfg: &Option<Config>, facts: &DashboardFacts) -> (r: DashboardState)
        ensures
            r.settings() == shown_settings(config_view(*cfg)),
            r.shows(*facts),
    {
        let (tld, http_port, https_port, dashboard_port): (String, u16, u16, u16) = match cfg {
            Some(c) => (c.tld.clone(), c.ports.http, c.ports.https, c.ports.dashboard),
            None => (DEFAULT_TLD.to_owned(), HTTP_PORT, HTTPS_PORT, DASHBOARD_PORT),
        };
        let mut state = DashboardState {
            tld,
            http_port,
            https_port,
            dashboard_port,
            traefik_running: false,
            dnsmasq_answering: false,
            cert_sans: Vec::new(),
            cert_expires: None,
            projects: Vec::new(),
        };
        state.refresh(facts);
        state
    }

    /// Takes in what was found out. The settings stay.
    pub fn refresh(&mut self, facts: &DashboardFacts)
        ensures
            final(self).settings() == old(self).settings(),
            final(self).shows(*facts),
    {
        self.traefik_running = container_running(&facts.traefik, PROXY_CONTAINER);
        self.dnsmasq_answering = dnsmasq_answering(&facts.dnsmasq);
        match &facts.cert {
            Some((text, end)) => {
                match read_cert_sans(text) {
                    Some(names) => {
                        self.cert_sans = names;
                    },
                    None => {
                        self.cert_sans = Vec::new();
                        assert(texts(self.cert_sans@) =~= Seq::<Seq<char>>::empty());
                    },
                }
                self.cert_expires = read_cert_expiry(end);
            },
            None => {
                self.cert_sans = Vec::new();
                assert(texts(self.cert_sans@) =~= Seq::<Seq<char>>::empty());
                self.cert_expires = None;
            },
        }
        self.projects = collect_projects(&facts.files);
    }
}

/// A colour of the dashboard.
#[derive(Debug, Clone, Copy, PartialEq, Eq, Structural)]
pub enum Tint {
    /// The terminal's own.
    Plain,
    Green,
    Red,
    Cyan,
    DarkGray,
    Blue,
    Magenta,
    Yellow,
}

/// A stretch of text in one style.
#[derive(Debug, PartialEq, Eq)]
pub struct Piece {
    pub text: String,
    pub tint: Tint,
    pub bold: bool,
}

/// The view of a [`Piece`].
#[verifier::ext_equal]
pub struct PieceView {
    pub text: Seq<char>,
    pub tint: Tint,
    pub bold: bool,
}

impl View for Piece {
    type V = PieceView;

    open spec fn view(&self) -> PieceView {
        PieceView { text: self.text@, tint: self.tint, bold: self.bold }
    }
}

/// A line of the dashboard.
#[derive(Debug, PartialEq, Eq)]
pub struct StyledLine {
    pub pieces: Vec<Piece>,
}

impl View for StyledLine {
    type V = Seq<PieceView>;

    open spec fn view(&self) -> Seq<PieceView> {
        self.pieces@.map_values(|p: Piece| p@)
    }
}

/// The views of a list of lines.
pub open spec fn line_views(list: Seq<StyledLine>) -> Seq<Seq<PieceView>> {
    list.map_values(|l: StyledLine| l@)
}

/// A stretch of text in a colour.
pub open spec fn tinted(text: Seq<char>, tint: Tint) -> PieceView {
    PieceView { text, tint, bold: false }
}

/// A stretch of plain text.
pub open spec fn plain(text: Seq<char>) -> PieceView {
    tinted(text, Tint::Plain)
}

/// A heading.
pub open spec fn heading(text: Seq<char>) -> PieceView {
    PieceView { text, tint: Tint::Plain, bold: true }
}

impl StyledLine {
    /// An empty line.
    fn new() -> (r: StyledLine)
        ensures
            r@ == Seq::<PieceView>::empty(),
    {
        let r = StyledLine { pieces: Vec::new() };
        assert(r@ =~= Seq::<PieceView>::empty());
        r
    }

    /// The line with one more stretch of text.
    fn with(self, text: &str, tint: Tint, bold: bool) -> (r: StyledLine)
        ensures
            r@ == self@.push(PieceView { text: text@, tint, bold }),
    {
        let ghost before = self@;
        let mut pieces = self.pieces;
        pieces.push(Piece { text: text.to_owned(), tint, bold });
        let r = StyledLine { pieces };
        assert(r@ =~= before.push(PieceView { text: text@, tint, bold }));
        r
    }
}

/// The title.
pub open spec fn title(s: DashboardState) -> Seq<PieceView> {
    seq![
        PieceView { text: "henk dashboard"@, tint: Tint::Cyan, bold: true },
        plain("  ·  ."@ + s.tld@),
        plain("  ·  stack: "@),
        if s.traefik_running {
            tinted("running"@, Tint::Green)
        } else {
            tinted("stopped"@, Tint::Red)
        },
        plain("  ·  dnsmasq: "@),
        if s.dnsmasq_answering {
            tinted(":53 answering"@, Tint::Green)
        } else {
            tinted(":53 silent"@, Tint::Red)
        },
        plain(
            "  ·  ports "@ + decimal(s.http_port as nat) + "/"@ + decimal(s.https_port as nat)
                + "/"@ + decimal(s.dashboard_port as nat),
        ),
    ]
}

/// The title.
pub fn render_title(state: &DashboardState) -> (r: StyledLine)
    ensures
        r@ == title(*state),
{
    let (stack, stack_tint) = if state.traefik_running {
        ("running", Tint::Green)
    } else {
        ("stopped", Tint::Red)
    };
    let (dns, dns_tint) = if state.dnsmasq_answering {
        (":53 answering", Tint::Green)
    } else {
        (":53 silent", Tint::Red)
    };
    let tld = "  ·  .".to_owned().concat(state.tld.as_str());
    let ports = "  ·  ports ".to_owned().concat(decimal_u16(state.http_port).as_str()).concat(
        "/",
    ).concat(decimal_u16(state.https_port).as_str()).concat("/").concat(
        decimal_u16(state.dashboard_port).as_str(),
    );
    let r = StyledLine::new().with("henk dashboard", Tint::Cyan, true).with(
        tld.as_str(),
        Tint::Plain,
        false,
    ).with("  ·  stack: ", Tint::Plain, false).with(stack, stack_tint, false).with(
        "  ·  dnsmasq: ",
        Tint::Plain,
        false,
    ).with(dns, dns_tint, false).with(ports.as_str(), Tint::Plain, false);
    assert(r@ =~= title(*state));
    r
}

/// The entry of a project in the list.
pub open spec fn entry(p: RowView) -> Seq<PieceView> {
    seq![
        tinted(
            "● "@,
            if p.mode == "docker"@ {
                Tint::Blue
            } else {
                Tint::Magenta
            },
        ),
        plain(p.slug),
        tinted("  ("@ + decimal(p.hosts.len()) + ")"@, Tint::DarkGray),
    ]
}

/// The list of projects.
pub open spec fn project_list(projects: Seq<RowView>) -> Seq<Seq<PieceView>> {
    if projects.len() == 0 {
        seq![seq![tinted("(no linked projects)"@, Tint::DarkGray)]]
    } else {
        projects.map_values(|p: RowView| entry(p))
    }
}

/// The list of projects, one line each.
pub fn render_project_list(state: &DashboardState) -> (r: Vec<StyledLine>)
    ensures
        line_views(r@) == project_list(row_views(state.projects@)),
{
    let ghost all = row_views(state.projects@);
    let mut out: Vec<StyledLine> = Vec::new();
    if state.projects.len() == 0 {
        let only = StyledLine::new().with("(no linked projects)", Tint::DarkGray, false);
        assert(only@ =~= seq![tinted("(no linked projects)"@, Tint::DarkGray)]);
        out.push(only);
        assert(line_views(out@) =~= project_list(all));
        return out;
    }
    let mut i: usize = 0;
    while i < state.projects.len()
        invariant
            i <= state.projects@.len(),
            all == row_views(state.projects@),
            out@.len() == i,
            forall|j: int| 0 <= j < i ==> (#[trigger] out@[j])@ == entry(all[j]),
        decreases state.projects@.len() - i,
    {
        let p = &state.projects[i];
        assert(all[i as int] == p@);
        let tint = if eq(p.mode.as_str(), "docker") {
            Tint::Blue
        } else {
            Tint::Magenta
        };
        let count: u64 = p.hosts.len() as u64;
        let hosts = "  (".to_owned().concat(decimal_u64(count).as_str()).concat(")");
        let line = StyledLine::new().with("● ", tint, false).with(
            p.slug.as_str(),
            Tint::Plain,
            false,
        ).with(hosts.as_str(), Tint::DarkGray, false);
        assert(p@.hosts.len() == p.hosts@.len());
        assert(line@ =~= entry(p@));
        out.push(line);
        i += 1;
    }
    assert(line_views(out@) =~= project_list(all));
    out
}

/// Indented lines, each behind a prefix, in a colour.
pub open spec fn indented(list: Seq<Seq<char>>, prefix: Seq<char>, tint: Tint) -> Seq<
    Seq<PieceView>,
> {
    list.map_values(|t: Seq<char>| seq![plain("  "@), tinted(prefix + t, tint)])
}

/// The details of a project.
pub open spec fn details(p: RowView) -> Seq<Seq<PieceView>> {
    seq![
        seq![tinted("slug:    "@, Tint::DarkGray), plain(p.slug)],
        seq![tinted("mode:    "@, Tint::DarkGray), plain(p.mode)],
        seq![],
        seq![heading("hosts"@)],
    ] + indented(p.hosts, "https://"@, Tint::Green) + (if p.backends.len() == 0 {
        seq![]
    } else {
        seq![seq![], seq![heading("backends"@)]] + indented(p.backends, ""@, Tint::Cyan)
    })
}

/// The details of the selected project, when there is one at that place.
pub open spec fn project_detail(projects: Seq<RowView>, selected: Option<int>) -> Seq<
    Seq<PieceView>,
> {
    match selected {
        Some(i) => if 0 <= i < projects.len() {
            details(projects[i])
        } else {
            seq![seq![tinted("no project selected"@, Tint::DarkGray)]]
        },
        None => seq![seq![tinted("no project selected"@, Tint::DarkGray)]],
    }
}

/// Adds indented lines.
fn push_indented(out: &mut Vec<StyledLine>, list: &Vec<String>, prefix: &str, tint: Tint)
    ensures
        line_views(final(out)@) == line_views(old(out)@) + indented(
            texts(list@),
            prefix@,
            tint,
        ),
{
    let ghost before = line_views(out@);
    let ghost all = texts(list@);
    let ghost extra = indented(all, prefix@, tint);
    let mut i: usize = 0;
    assert(before + extra.take(0) =~= before);
    while i < list.len()
        invariant
            i <= list@.len(),
            all == texts(list@),
            extra == indented(all, prefix@, tint),
            line_views(out@) == before + extra.take(i as int),
        decreases list@.len() - i,
    {
        let ghost now = line_views(out@);
        let text = prefix.to_owned().concat(list[i].as_str());
        let line = StyledLine::new().with("  ", Tint::Plain, false).with(
            text.as_str(),
            tint,
            false,
        );
        assert(all[i as int] == list@[i as int]@);
        assert(line@ =~= extra[i as int]);
        out.push(line);
        assert(line_views(out@) =~= now.push(extra[i as int]));
        assert(before + extra.take(i + 1) =~= (before + extra.take(i as int)).push(
            extra[i as int],
        ));
        i += 1;
    }
    assert(extra.take(i as int) =~= extra);
}

/// Adds a line.
fn push_line(out: &mut Vec<StyledLine>, line: StyledLine)
    ensures
        line_views(final(out)@) == line_views(old(out)@).push(line@),
{
    let ghost before = line_views(out@);
    let ghost view = line@;
    out.push(line);
    assert(line_views(out@) =~= before.push(view));
}

/// The details of the selected project.
pub fn render_project_detail(state: &DashboardState, selected: Option<usize>) -> (r: Vec<
    StyledLine,
>)
    ensures
        line_views(r@) == project_detail(row_views(state.projects@), place(selected)),
{
    let mut out: Vec<StyledLine> = Vec::new();
    assert(line_views(out@) =~= Seq::<Seq<PieceView>>::empty());
    let i: usize = match selected {
        Some(i) => i,
        None => state.projects.len(),
    };
    if i >= state.projects.len() {
        let only = StyledLine::new().with("no project selected", Tint::DarkGray, false);
        assert(only@ =~= seq![tinted("no project selected"@, Tint::DarkGray)]);
        push_line(&mut out, only);
        assert(line_views(out@) =~= seq![seq![tinted("no project selected"@, Tint::DarkGray)]]);
        return out;
    }
    let p = &state.projects[i];
    assert(row_views(state.projects@)[i as int] == p@);
    let slug = StyledLine::new().with("slug:    ", Tint::DarkGray, false).with(
        p.slug.as_str(),
        Tint::Plain,
        false,
    );
    let mode = StyledLine::new().with("mode:    ", Tint::DarkGray, false).with(
        p.mode.as_str(),
        Tint::Plain,
        false,
    );
    let hosts = StyledLine::new().with("hosts", Tint::Plain, true);
    assert(slug@ =~= seq![tinted("slug:    "@, Tint::DarkGray), plain(p@.slug)]);
    assert(mode@ =~= seq![tinted("mode:    "@, Tint::DarkGray), plain(p@.mode)]);
    assert(hosts@ =~= seq![heading("hosts"@)]);
    push_line(&mut out, slug);
    push_line(&mut out, mode);
    push_line(&mut out, StyledLine::new());
    push_line(&mut out, hosts);
    push_indented(&mut out, &p.hosts, "https://", Tint::Green);
    assert(p@.backends.len() == p.backends@.len());
    if p.backends.len() > 0 {
        let heading_line = StyledLine::new().with("backends", Tint::Plain, true);
        assert(heading_line@ =~= seq![heading("backends"@)]);
        push_line(&mut out, StyledLine::new());
        push_line(&mut out, heading_line);
        push_indented(&mut out, &p.backends, "", Tint::Cyan);
    }
    assert(line_views(out@) =~= details(p@));
    out
}

/// The certificate panel.
pub open spec fn cert_panel(sans: Seq<Seq<char>>, expires: Option<Seq<char>>) -> Seq<
    Seq<PieceView>,
> {
    if sans.len() == 0 {
        seq![seq![tinted("no wildcard cert on disk yet"@, Tint::Red)]]
    } else {
        seq![
            seq![
                tinted("cert: "@, Tint::DarkGray),
                tinted(decimal(sans.len()) + " SANs"@, Tint::Green),
                plain(
                    "  ·  expires "@ + (match expires {
                        Some(e) => e,
                        None => "unknown"@,
                    }),
                ),
            ],
            seq![plain(preview_of(sans, 8))],
        ]
    }
}

/// The certificate panel, with the first eight names.
pub fn render_cert_panel(state: &DashboardState) -> (r: Vec<StyledLine>)
    ensures
        line_views(r@) == cert_panel(texts(state.cert_sans@), opt_text(state.cert_expires)),
{
    let ghost sans = texts(state.cert_sans@);
    let ghost expiry = opt_text(state.cert_expires);
    let mut out: Vec<StyledLine> = Vec::new();
    assert(line_views(out@) =~= Seq::<Seq<PieceView>>::empty());
    assert(sans.len() == state.cert_sans@.len());
    if state.cert_sans.len() == 0 {
        let only = StyledLine::new().with("no wildcard cert on disk yet", Tint::Red, false);
        assert(only@ =~= seq![tinted("no wildcard cert on disk yet"@, Tint::Red)]);
        push_line(&mut out, only);
        assert(line_views(out@) =~= cert_panel(sans, expiry));
        return out;
    }
    let end = match &state.cert_expires {
        Some(e) => e.clone(),
        None => "unknown".to_owned(),
    };
    let n: u64 = state.cert_sans.len() as u64;
    let count = decimal_u64(n).concat(" SANs");
    let expires = "  ·  expires ".to_owned().concat(end.as_str());
    let first = StyledLine::new().with("cert: ", Tint::DarkGray, false).with(
        count.as_str(),
        Tint::Green,
        false,
    ).with(expires.as_str(), Tint::Plain, false);
    let names = preview(&state.cert_sans, 8);
    let second = StyledLine::new().with(names.as_str(), Tint::Plain, false);
    assert(first@ =~= cert_panel(sans, expiry)[0]);
    assert(second@ =~= cert_panel(sans, expiry)[1]);
    push_line(&mut out, first);
    push_line(&mut out, second);
    assert(line_views(out@) =~= cert_panel(sans, expiry));
    out
}

/// The footer: which keys do what.
pub open spec fn footer() -> Seq<PieceView> {
    seq![
        tinted("q"@, Tint::Yellow),
        plain(" quit  ·  "@),
        tinted("r"@, Tint::Yellow),
        plain(" refresh  ·  "@),
        tinted("↑/k ↓/j"@, Tint::Yellow),
        plain(" navigate"@),
    ]
}

/// The footer.
pub fn render_footer() -> (r: StyledLine)
    ensures
        r@ == footer(),
{
    let r = StyledLine::new().with("q", Tint::Yellow, false).with(
        " quit  ·  ",
        Tint::Plain,
        false,
    ).with("r", Tint::Yellow, false).with(" refresh  ·  ", Tint::Plain, false).with(
        "↑/k ↓/j",
        Tint::Yellow,
        false,
    ).with(" navigate", Tint::Plain, false);
    assert(r@ =~= footer());
    r
}

/// A project counts as one on the host exactly when one of its backends is a dev
/// server on the host.
pub proof fn law_mode_follows_backends(
    slug: Seq<char>,
    hosts: Seq<Seq<char>>,
    backends: Seq<Seq<char>>,
)
    ensures
        row(slug, hosts, backends).mode == "host"@ <==> on_host(backends),
{
    reveal_strlit("host");
    reveal_strlit("docker");
    assert("host"@.len() != "docker"@.len());
}

/// `q`, `Esc` and `Ctrl-C` leave the dashboard, `r` reads again, the arrows and
/// `k` and `j` move. No other key does anything.
pub proof fn law_keys(key: Key, control: bool)
    ensures
        action_of(key, control) == DashboardAction::Quit <==> key == Key::Esc || key == Key::Char(
            'q',
        ) || (key == Key::Char('c') && control),
        action_of(key, control) == DashboardAction::Refresh <==> key == Key::Char('r'),
        action_of(key, control) == DashboardAction::Previous <==> key == Key::Up || key
            == Key::Char('k'),
        action_of(key, control) == DashboardAction::Following <==> key == Key::Down || key
            == Key::Char('j'),
{
}

/// One step on selects the next project and, from the last one, the first; one
/// step back the other way round. Nothing selected counts as the first place,
/// and an empty list leaves the selection alone.
pub proof fn law_steps_go_round(i: int, len: int, delta: int, selected: Option<int>)
    requires
        0 <= i < len,
    ensures
        moved(Some(i), len, 1) == Some(
            if i + 1 < len {
                i + 1
            } else {
                0
            },
        ),
        moved(Some(i), len, -1) == Some(
            if i > 0 {
                i - 1
            } else {
                len - 1
            },
        ),
        moved(None, len, delta) == moved(Some(0), len, delta),
        moved(selected, 0, delta) == selected,
{
    if i + 1 < len {
        lemma_small_mod((i + 1) as nat, len as nat);
    } else {
        lemma_mod_multiples_vanish(1, 0, len);
        lemma_small_mod(0, len as nat);
        assert((i + 1) % len == 0) by (nonlinear_arith)
            requires
                i + 1 == len,
                len > 0,
        ;
    }
    if i > 0 {
        lemma_small_mod((i - 1) as nat, len as nat);
    } else {
        lemma_mod_multiples_vanish(1, i - 1, len);
        lemma_small_mod((len - 1) as nat, len as nat);
        assert(len * 1 + (i - 1) == len - 1);
    }
}

/// What is listed under a slug is on the list.
proof fn lemma_keyed_within(list: Seq<RowView>, slug: Seq<char>, row: RowView)
    ensures
        keyed(list, slug).contains(row) <==> list.contains(row) && row.slug == slug,
    decreases list.len(),
{
    if list.len() > 0 {
        let rest = list.drop_last();
        lemma_keyed_within(rest, slug, row);
        let k = keyed(list, slug);
        if list.contains(row) && row.slug == slug {
            let i = choose|i: int| 0 <= i < list.len() && list[i] == row;
            if i < rest.len() {
                assert(rest[i] == row);
                let j = choose|j: int|
                    0 <= j < keyed(rest, slug).len() && keyed(rest, slug)[j] == row;
                assert(k[j] == row);
            } else {
                assert(k[k.len() - 1] == row);
            }
        }
        if k.contains(row) {
            let j = choose|j: int| 0 <= j < k.len() && k[j] == row;
            if j < keyed(rest, slug).len() {
                assert(keyed(rest, slug)[j] == row);
                let i = choose|i: int| 0 <= i < rest.len() && rest[i] == row;
                assert(list[i] == row);
            } else {
                assert(list[list.len() - 1] == row);
            }
        }
    }
}

/// Each routing file of a project gives its row.
proof fn lemma_file_has_a_row(files: Seq<RouteFile>, i: int)
    requires
        0 <= i < files.len(),
        project_slug(files[i].name@) is Some,
    ensures
        all_rows(files).contains(file_row(project_slug(files[i].name@)->0, files[i].body@)),
    decreases files.len(),
{
    let want = file_row(project_slug(files[i].name@)->0, files[i].body@);
    let all = all_rows(files);
    if i == files.len() - 1 {
        assert(all[all.len() - 1] == want);
    } else {
        let before = all_rows(files.drop_last());
        assert(files.drop_last()[i] == files[i]);
        lemma_file_has_a_row(files.drop_last(), i);
        let k = choose|k: int| 0 <= k < before.len() && before[k] == want;
        assert(all[k] == want);
    }
}

/// The dashboard shows one row for each routing file of a project, in the order
/// of the slugs, and none for any other file.
pub proof fn law_every_project_is_on_the_dashboard(
    state: DashboardState,
    facts: DashboardFacts,
    i: int,
)
    requires
        state.shows(facts),
        0 <= i < facts.files@.len(),
    ensures
        project_slug(facts.files@[i].name@) matches Some(slug) ==> row_views(
            state.projects@,
        ).contains(file_row(slug, facts.files@[i].body@)),
        forall|a: int, b: int|
            #![trigger state.projects@[a], state.projects@[b]]
            0 <= a < b < state.projects@.len() ==> !less(
                state.projects@[b].slug@,
                state.projects@[a].slug@,
            ),
{
    let rows = row_views(state.projects@);
    if let Some(slug) = project_slug(facts.files@[i].name@) {
        let want = file_row(slug, facts.files@[i].body@);
        lemma_file_has_a_row(facts.files@, i);
        lemma_keyed_within(all_rows(facts.files@), slug, want);
        assert(keyed(rows, slug) == keyed(all_rows(facts.files@), slug));
        lemma_keyed_within(rows, slug, want);
    }
    assert forall|a: int, b: int|
        #![trigger state.projects@[a], state.projects@[b]]
        0 <= a < b < state.projects@.len() implies !less(
        state.projects@[b].slug@,
        state.projects@[a].slug@,
    ) by {
        assert(rows[a] == state.projects@[a]@);
        assert(rows[b] == state.projects@[b]@);
    }
}

/// No row is there but that of a routing file.
proof fn lemma_row_has_a_file(files: Seq<RouteFile>, row: RowView) -> (i: int)
    requires
        all_rows(files).contains(row),
    ensures
        0 <= i < files.len(),
        project_slug(files[i].name@) == Some(row.slug),
        row == file_row(row.slug, files[i].body@),
    decreases files.len(),
{
    let all = all_rows(files);
    let k = choose|k: int| 0 <= k < all.len() && all[k] == row;
    if files.len() == 0 {
        assert(false);
        0
    } else {
        let rest = files.drop_last();
        let before = all_rows(rest);
        if k < before.len() {
            assert(before[k] == row);
            lemma_row_has_a_file(rest, row)
        } else {
            files.len() - 1
        }
    }
}

/// Every row of the dashboard is that of a routing file.
pub proof fn law_rows_come_from_files(state: DashboardState, facts: DashboardFacts, k: int) -> (i:
    int)
    requires
        state.shows(facts),
        0 <= k < state.projects@.len(),
    ensures
        0 <= i < facts.files@.len(),
        project_slug(facts.files@[i].name@) == Some(state.projects@[k].slug@),
        state.projects@[k]@ == file_row(state.projects@[k].slug@, facts.files@[i].body@),
{
    let rows = row_views(state.projects@);
    let row = state.projects@[k]@;
    assert(rows[k] == row);
    lemma_keyed_within(rows, row.slug, row);
    assert(keyed(rows, row.slug) == keyed(all_rows(facts.files@), row.slug));
    lemma_keyed_within(all_rows(facts.files@), row.slug, row);
    lemma_row_has_a_file(facts.files@, row)
}

/// A row keeps the slug, the hosts and the backends. Its mode is `host` when a
/// backend leads to the host machine, and `docker` when none does.
pub proof fn law_rows_keep_what_the_file_says(
    slug: Seq<char>,
    hosts: Seq<Seq<char>>,
    backends: Seq<Seq<char>>,
)
    ensures
        row(slug, hosts, backends).slug == slug,
        row(slug, hosts, backends).hosts == hosts,
        row(slug, hosts, backends).backends == backends,
        (exists|i: int|
            0 <= i < backends.len() && contains(#[trigger] backends[i], "host.docker.internal"@))
            ==> row(slug, hosts, backends).mode == "host"@,
        (forall|i: int|
            0 <= i < backends.len() ==> !contains(#[trigger] backends[i], "host.docker.internal"@))
            ==> row(slug, hosts, backends).mode == "docker"@,
{
}

/// The proxy counts as running when its container is listed, and dnsmasq as
/// answering when it was reached; of a command that failed nothing is concluded.
pub proof fn law_health_is_what_was_found(
    state: DashboardState,
    facts: DashboardFacts,
    i: int,
)
    requires
        state.shows(facts),
    ensures
        !facts.traefik.succeeded() ==> !state.traefik_running,
        facts.traefik.succeeded() && 0 <= i < lines_of(facts.traefik.out()).len() && trim_of(
            lines_of(facts.traefik.out())[i],
        ) == PROXY_CONTAINER@ ==> state.traefik_running,
        state.dnsmasq_answering <==> facts.dnsmasq.succeeded(),
        facts.cert is None ==> state.cert_sans@.len() == 0 && state.cert_expires is None,
        facts.cert matches Some(c) ==> opt_text(state.cert_expires) == cert_expiry_of(c.1) && (
        cert_sans_of(c.0) matches Some(names) ==> texts(state.cert_sans@) == names),
{
    assert(texts(state.cert_sans@).len() == state.cert_sans@.len());
}

/// The settings shown are those of the config; before there is one, the TLD and
/// the ports of a fresh install.
pub proof fn law_settings_come_from_the_config(c: ConfigView)
    ensures
        shown_settings(Some(c)) == (c.tld, c.ports.http, c.ports.https, c.ports.dashboard),
        shown_settings(None) == ("test"@, 80u16, 443u16, 19080u16),
{
}

/// The title says in green what works and in red what does not, and names the
/// TLD and the ports.
pub proof fn law_title_tells_the_health(s: DashboardState)
    ensures
        s.traefik_running <==> title(s).contains(tinted("running"@, Tint::Green)),
        !s.traefik_running <==> title(s).contains(tinted("stopped"@, Tint::Red)),
        s.dnsmasq_answering <==> title(s).contains(tinted(":53 answering"@, Tint::Green)),
        !s.dnsmasq_answering <==> title(s).contains(tinted(":53 silent"@, Tint::Red)),
        title(s).contains(plain("  ·  ."@ + s.tld@)),
        title(s).contains(
            plain(
                "  ·  ports "@ + decimal(s.http_port as nat) + "/"@ + decimal(s.https_port as nat)
                    + "/"@ + decimal(s.dashboard_port as nat),
            ),
        ),
{
    reveal_strlit("running");
    reveal_strlit("stopped");
    reveal_strlit(":53 answering");
    reveal_strlit(":53 silent");
    assert("running"@.len() != ":53 answering"@.len());
    assert("stopped"@.len() != ":53 silent"@.len());
    let t = title(s);
    assert(t[0].tint == Tint::Cyan);
    assert(t[1] == plain("  ·  ."@ + s.tld@));
    assert(t[3].tint == (if s.traefik_running {
        Tint::Green
    } else {
        Tint::Red
    }));
    assert(t[5].tint == (if s.dnsmasq_answering {
        Tint::Green
    } else {
        Tint::Red
    }));
    assert(t[6].tint == Tint::Plain);
}

/// The list has one line for each project, with its slug and the number of its
/// hosts, and one colour for each mode. An empty list says that it is empty.
pub proof fn law_list_shows_every_project(projects: Seq<RowView>, i: int)
    ensures
        projects.len() == 0 ==> project_list(projects).len() == 1,
        projects.len() > 0 ==> project_list(projects).len() == projects.len(),
        0 <= i < projects.len() ==> ({
            let line = project_list(projects)[i];
            &&& line.contains(plain(projects[i].slug))
            &&& line.last().text == "  ("@ + decimal(projects[i].hosts.len()) + ")"@
            &&& projects[i].mode == "docker"@ ==> line[0].tint == Tint::Blue
            &&& projects[i].mode != "docker"@ ==> line[0].tint == Tint::Magenta
        }),
{
    if 0 <= i < projects.len() {
        assert(project_list(projects)[i][1] == plain(projects[i].slug));
    }
}

/// The details of the selected project show its slug, its mode, each host as a
/// URL and each backend. Without a project at the place there is one line.
pub proof fn law_details_show_the_project(
    projects: Seq<RowView>,
    i: int,
    k: int,
    selected: Option<int>,
)
    requires
        0 <= i < projects.len(),
    ensures
        project_detail(projects, Some(i))[0].last() == plain(projects[i].slug),
        project_detail(projects, Some(i))[1].last() == plain(projects[i].mode),
        0 <= k < projects[i].hosts.len() ==> project_detail(projects, Some(i)).contains(
            seq![plain("  "@), tinted("https://"@ + projects[i].hosts[k], Tint::Green)],
        ),
        0 <= k < projects[i].backends.len() ==> project_detail(projects, Some(i)).contains(
            seq![plain("  "@), tinted(projects[i].backends[k], Tint::Cyan)],
        ),
        (selected matches Some(n) ==> n < 0 || n >= projects.len()) ==> project_detail(
            projects,
            selected,
        ).len() == 1,
{
    reveal_strlit("");
    let p = projects[i];
    let d = project_detail(projects, Some(i));
    if 0 <= k < p.hosts.len() {
        assert(d[4 + k] == indented(p.hosts, "https://"@, Tint::Green)[k]);
    }
    if 0 <= k < p.backends.len() {
        assert(""@ + p.backends[k] =~= p.backends[k]);
        assert(d[6 + p.hosts.len() + k] == indented(p.backends, ""@, Tint::Cyan)[k]);
    }
}

/// The panel says how many names the certificate has and when it ends, and shows
/// the first eight of them. Without a name it says in red that there is no
/// certificate.
pub proof fn law_panel_tells_the_certificate(sans: Seq<Seq<char>>, expires: Option<Seq<char>>)
    ensures
        sans.len() == 0 ==> cert_panel(sans, expires).len() == 1 && cert_panel(
            sans,
            expires,
        )[0][0].tint == Tint::Red,
        sans.len() > 0 ==> ({
            let lines = cert_panel(sans, expires);
            &&& lines.len() == 2
            &&& lines[0].contains(tinted(decimal(sans.len()) + " SANs"@, Tint::Green))
            &&& expires matches Some(e) ==> lines[0].contains(plain("  ·  expires "@ + e))
            &&& expires is None ==> lines[0].contains(plain("  ·  expires "@ + "unknown"@))
            &&& sans.len() <= 8 ==> lines[1][0].text == join_of(sans, ", "@)
            &&& sans.len() > 8 ==> begins(lines[1][0].text, join_of(sans.take(8), ", "@))
        }),
{
    if sans.len() > 0 {
        let lines = cert_panel(sans, expires);
        assert(lines[0][1] == tinted(decimal(sans.len()) + " SANs"@, Tint::Green));
        assert(lines[0][2].text.len() >= 0);
        let head = join_of(sans.take(8), ", "@);
        if sans.len() > 8 {
            assert((head + ", …"@).subrange(0, head.len() as int) =~= head);
        }
    }
}

/// The mention that goes is the last one, so a real router, which stands before
/// its twin, keeps its place.
pub proof fn law_last_mention_goes(before: Seq<Seq<char>>, host: Seq<char>, after: Seq<Seq<char>>)
    requires
        !after.contains(host),
    ensures
        without_one(before.push(host) + after, host) == before + after,
        without_one(after, host) == after,
        without_twins(before.push(host) + after, seq![host]) == before + after,
{
    let all = before.push(host) + after;
    let n = before.len() as int;
    lemma_last_place(all, host);
    lemma_last_place(after, host);
    lemma_no_later_place(all, host);
    let k = last_place(all, host);
    assert(all[n] == host);
    assert(k == n) by {
        if k < n {
            assert(all[n] != host);
        }
        if n < k < all.len() {
            assert(after[k - n - 1] == host);
        }
        if k == all.len() {
            assert(all.contains(all[n]));
        }
    }
    assert(all.remove(n) =~= before + after);
    if last_place(after, host) < after.len() {
        assert(after.contains(after[last_place(after, host)]));
    }
    let one = seq![host];
    assert(one.drop_last() =~= Seq::<Seq<char>>::empty());
    assert(without_twins(all, one.drop_last()) == all);
}

/// Behind the last place there is no other.
proof fn lemma_no_later_place(hosts: Seq<Seq<char>>, host: Seq<char>)
    ensures
        forall|j: int|
            last_place(hosts, host) < j < hosts.len() ==> #[trigger] hosts[j] != host,
    decreases hosts.len(),
{
    if hosts.len() > 0 && hosts.last() != host {
        let rest = hosts.drop_last();
        lemma_no_later_place(rest, host);
        lemma_last_place(rest, host);
        assert forall|j: int| last_place(hosts, host) < j < hosts.len() implies #[trigger] hosts[j]
            != host by {
            if j < rest.len() {
                assert(rest[j] == hosts[j]);
            }
        }
    }
}

} // verus!
