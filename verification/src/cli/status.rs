//! `henk status`: stack health, certificate state and linked projects as text.

use vstd::prelude::*;
use vstd::string::*;

use crate::config::{Config, ConfigView};
use crate::consts::STACK_VERSION;
use crate::detect::backend::{
    backend_views, link_views, BackendItem, BackendView, LinkView, LinkedHost,
};
use crate::detect::report::{glyph_of, Status};
use crate::manifest::state::StateManifest;
use crate::paint::{bold, bold_of, gray, gray_of, green, green_of, red, red_of, yellow, yellow_of};
use crate::project::file_provider::lemma_contains_inside;
use crate::text::{
    begins, contains, decimal, decimal_u16, decimal_u64, ends, eq, join, join_of,
    lemma_contains_either, lemma_contains_itself, lemma_contains_pair, occurs_at, opt_text, texts,
};

verus! {

/// What is printed before henk has been initialised.
pub fn print_uninitialised() -> (r: String)
    ensures
        r@ == "  "@ + gray_of("·"@)
            + "  henk has not been initialised on this machine yet.\n  Run `henk init` to set up the global stack.\n\n"@,
{
    "  ".to_owned().concat(gray("·").as_str()).concat(
        "  henk has not been initialised on this machine yet.\n  Run `henk init` to set up the global stack.\n\n",
    )
}

/// The settings in use.
pub open spec fn settings_text(cfg: ConfigView) -> Seq<char> {
    "  TLD:        ."@ + cfg.tld + "\n  HTTP/HTTPS: :"@ + decimal(cfg.ports.http as nat) + " / :"@
        + decimal(cfg.ports.https as nat) + "\n  Dashboard:  http://localhost:"@ + decimal(
        cfg.ports.dashboard as nat,
    ) + "\n\n"@
}

/// The settings in use, as they are printed.
pub fn print_settings(cfg: &Config) -> (r: String)
    ensures
        r@ == settings_text(cfg@),
{
    "  TLD:        .".to_owned().concat(cfg.tld.as_str()).concat("\n  HTTP/HTTPS: :").concat(
        decimal_u16(cfg.ports.http).as_str(),
    ).concat(" / :").concat(decimal_u16(cfg.ports.https).as_str()).concat(
        "\n  Dashboard:  http://localhost:",
    ).concat(decimal_u16(cfg.ports.dashboard).as_str()).concat("\n\n")
}

/// The nudge when the running stack is older than what this binary ships.
pub open spec fn nudge_of(recorded: u32) -> Option<Seq<char>> {
    if recorded >= STACK_VERSION {
        None
    } else {
        Some(
            "  "@ + yellow_of("!"@) + "  The running stack is v"@ + decimal(recorded as nat)
                + " but this henk ships v"@ + decimal(STACK_VERSION as nat) + ".\n     Run "@
                + bold_of("henk up"@) + " to pick up the new routing.\n\n"@,
        )
    }
}

/// The nudge, when there is a state manifest and it records an older stack. The
/// binary can be replaced without henk being the one to do it.
pub fn print_stale_stack_nudge(state: &Option<StateManifest>) -> (r: Option<String>)
    ensures
        opt_text(r) == (match state {
            Some(s) => nudge_of(s@.stack_version),
            None => None,
        }),
{
    let s = match state {
        Some(s) => s,
        None => return None,
    };
    if s.stack_version >= STACK_VERSION {
        return None;
    }
    Some(
        "  ".to_owned().concat(yellow("!").as_str()).concat("  The running stack is v").concat(
            decimal_u64(s.stack_version as u64).as_str(),
        ).concat(" but this henk ships v").concat(decimal_u64(STACK_VERSION as u64).as_str()).concat(
        ".\n     Run ").concat(bold("henk up").as_str()).concat(
            " to pick up the new routing.\n\n",
        ),
    )
}

/// The state of the proxy and of dnsmasq.
pub open spec fn stack_text(traefik: bool, dnsmasq: bool) -> Seq<char> {
    "  Traefik:    "@ + (if traefik {
        green_of("running"@)
    } else {
        red_of("stopped"@)
    }) + "\n  dnsmasq:    "@ + (if dnsmasq {
        green_of("answering on 127.0.0.1:53"@)
    } else {
        red_of("not answering on :53"@)
    }) + "\n\n"@
}

/// The state of the proxy and of dnsmasq, as it is printed.
pub fn print_stack_status(traefik: bool, dnsmasq: bool) -> (r: String)
    ensures
        r@ == stack_text(traefik, dnsmasq),
{
    let a = if traefik {
        green("running")
    } else {
        red("stopped")
    };
    let b = if dnsmasq {
        green("answering on 127.0.0.1:53")
    } else {
        red("not answering on :53")
    };
    "  Traefik:    ".to_owned().concat(a.as_str()).concat("\n  dnsmasq:    ").concat(
        b.as_str(),
    ).concat("\n\n")
}

/// What was read of the issued certificate.
#[derive(Debug)]
pub struct CertFacts {
    /// Its names, as far as they could be read.
    pub sans: Vec<String>,
    /// Its expiry, as far as it could be read.
    pub expires: Option<String>,
}

/// The first `n` names on one line, with a mark when there are more.
pub open spec fn preview_of(names: Seq<Seq<char>>, n: nat) -> Seq<char> {
    if names.len() > n {
        join_of(names.take(n as int), ", "@) + ", …"@
    } else {
        join_of(names, ", "@)
    }
}

/// The first `n` names on one line.
pub fn preview(names: &Vec<String>, n: usize) -> (r: String)
    ensures
        r@ == preview_of(texts(names@), n as nat),
{
    let ghost all = texts(names@);
    if names.len() <= n {
        return join(names, ", ");
    }
    let mut first: Vec<String> = Vec::new();
    let mut i: usize = 0;
    while i < n
        invariant
            i <= n < names@.len(),
            all == texts(names@),
            texts(first@) =~= all.take(i as int),
        decreases n - i,
    {
        let ghost before = texts(first@);
        first.push(names[i].clone());
        assert(texts(first@) =~= before.push(names@[i as int]@));
        i += 1;
    }
    join(&first, ", ").concat(", …")
}

/// The state of the certificate.
pub open spec fn cert_text(cert: Option<CertFacts>) -> Seq<char> {
    (match cert {
        None => "  Cert:       "@ + red_of("not issued"@) + "\n"@,
        Some(c) => "  Cert:       "@ + decimal(c.sans@.len()) + " SANs, expires "@ + (
        match c.expires {
            Some(e) => e@,
            None => "unknown"@,
        }) + "\n"@ + (if c.sans@.len() > 0 {
            "              "@ + preview_of(texts(c.sans@), 6) + "\n"@
        } else {
            seq![]
        }),
    }) + "\n"@
}

/// The state of the certificate, as it is printed.
pub fn print_cert_status(cert: &Option<CertFacts>) -> (r: String)
    ensures
        r@ == cert_text(*cert),
{
    match cert {
        None => "  Cert:       ".to_owned().concat(red("not issued").as_str()).concat("\n").concat(
            "\n",
        ),
        Some(c) => {
            let expires = match &c.expires {
                Some(e) => e.clone(),
                None => "unknown".to_owned(),
            };
            let count: u64 = c.sans.len() as u64;
            let names = if c.sans.len() > 0 {
                "              ".to_owned().concat(preview(&c.sans, 6).as_str()).concat("\n")
            } else {
                let none = String::new();
                assert(none@ =~= Seq::<char>::empty());
                none
            };
            "  Cert:       ".to_owned().concat(decimal_u64(count).as_str()).concat(
                " SANs, expires ",
            ).concat(expires.as_str()).concat("\n").concat(names.as_str()).concat("\n")
        },
    }
}

/// Index of the first verdict on a host; the number of verdicts when there is
/// none.
pub open spec fn verdict_index(verdicts: Seq<BackendView>, host: Seq<char>, i: int) -> int
    decreases verdicts.len() - i,
{
    if i < 0 || i >= verdicts.len() {
        verdicts.len() as int
    } else if verdicts[i].host == host {
        i
    } else {
        verdict_index(verdicts, host, i + 1)
    }
}

/// The line of a linked host: with its glyph when there is a verdict, and with
/// the detail when something is wrong.
pub open spec fn host_line(host: Seq<char>, verdicts: Seq<BackendView>) -> Seq<char> {
    let k = verdict_index(verdicts, host, 0);
    if k < verdicts.len() {
        let v = verdicts[k];
        if v.status == Status::Okay {
            "        "@ + glyph_of(v.status) + "  https://"@ + host + "\n"@
        } else {
            "        "@ + glyph_of(v.status) + "  https://"@ + host + "  — "@ + v.detail + "\n"@
        }
    } else {
        "           https://"@ + host + "\n"@
    }
}

/// The lines of the linked hosts from `i` on, headed by their project where it
/// changes.
pub open spec fn project_lines(
    links: Seq<LinkView>,
    verdicts: Seq<BackendView>,
    i: int,
    current: Seq<char>,
) -> Seq<char>
    decreases links.len() - i,
{
    if i < 0 || i >= links.len() {
        seq![]
    } else {
        (if links[i].slug != current {
            "    · "@ + links[i].slug + "\n"@
        } else {
            seq![]
        }) + host_line(links[i].host, verdicts) + project_lines(
            links,
            verdicts,
            i + 1,
            links[i].slug,
        )
    }
}

/// The linked projects with their verdicts.
pub open spec fn projects_text(links: Seq<LinkView>, verdicts: Seq<BackendView>) -> Seq<char> {
    if links.len() == 0 {
        "  Linked projects: "@ + gray_of("none"@) + "\n\n"@
    } else {
        "  "@ + bold_of("Linked projects:"@) + "\n"@ + project_lines(links, verdicts, 0, seq![])
            + "\n"@
    }
}

/// Writes the line of a linked host.
fn show_host(host: &str, verdicts: &Vec<BackendItem>) -> (r: String)
    ensures
        r@ == host_line(host@, backend_views(verdicts@)),
{
    let ghost all = backend_views(verdicts@);
    let mut i: usize = 0;
    while i < verdicts.len()
        invariant
            i <= verdicts@.len(),
            all == backend_views(verdicts@),
            verdict_index(all, host@, i as int) == verdict_index(all, host@, 0),
        decreases verdicts@.len() - i,
    {
        let v = &verdicts[i];
        assert(all[i as int] == v@);
        if eq(v.host.as_str(), host) {
            let head = "        ".to_owned().concat(v.status.glyph().as_str()).concat(
                "  https://",
            ).concat(host);
            return if v.status == Status::Okay {
                head.concat("\n")
            } else {
                head.concat("  — ").concat(v.detail.as_str()).concat("\n")
            };
        }
        i += 1;
    }
    "           https://".to_owned().concat(host).concat("\n")
}

/// The linked projects, as they are printed. Backends inside Docker have no
/// verdict and print without a glyph.
pub fn print_linked_projects(links: &Vec<LinkedHost>, verdicts: &Vec<BackendItem>) -> (r: String)
    ensures
        r@ == projects_text(link_views(links@), backend_views(verdicts@)),
{
    if links.len() == 0 {
        return "  Linked projects: ".to_owned().concat(gray("none").as_str()).concat("\n\n");
    }
    let ghost all = link_views(links@);
    let ghost seen = backend_views(verdicts@);
    let mut out = String::new();
    let mut current = String::new();
    let ghost whole = project_lines(all, seen, 0, seq![]);
    let mut i: usize = 0;
    assert(current@ =~= Seq::<char>::empty());
    assert(out@ + whole =~= whole);
    while i < links.len()
        invariant
            i <= links@.len(),
            all == link_views(links@),
            seen == backend_views(verdicts@),
            whole == project_lines(all, seen, 0, seq![]),
            out@ + project_lines(all, seen, i as int, current@) == whole,
        decreases links@.len() - i,
    {
        let l = &links[i];
        assert(all[i as int] == l@);
        let ghost before = out@;
        let ghost rest = project_lines(all, seen, i + 1, l@.slug);
        let head = if !eq(l.slug.as_str(), current.as_str()) {
            "    · ".to_owned().concat(l.slug.as_str()).concat("\n")
        } else {
            let none = String::new();
            assert(none@ =~= Seq::<char>::empty());
            none
        };
        let own = show_host(l.host.as_str(), verdicts);
        assert(project_lines(all, seen, i as int, current@) == head@ + own@ + rest);
        out = out.concat(head.as_str()).concat(own.as_str());
        assert(out@ + rest =~= before + (head@ + own@ + rest));
        current = l.slug.clone();
        i += 1;
    }
    assert(out@ + project_lines(all, seen, i as int, current@) =~= out@);
    "  ".to_owned().concat(bold("Linked projects:").as_str()).concat("\n").concat(
        out.as_str(),
    ).concat("\n")
}

/// The nudge comes exactly when the stack that is recorded is older than the one
/// this binary ships, and it names both versions.
pub proof fn law_older_stacks_are_nudged(recorded: u32)
    ensures
        nudge_of(recorded) is Some <==> recorded < STACK_VERSION,
        nudge_of(recorded) matches Some(t) ==> contains(
            t,
            "v"@ + decimal(recorded as nat) + " but this henk ships v"@ + decimal(
                STACK_VERSION as nat,
            ),
        ),
{
    if let Some(t) = nudge_of(recorded) {
        let x = decimal(recorded as nat);
        let y = decimal(STACK_VERSION as nat);
        let mid = "v"@ + x + " but this henk ships v"@ + y;
        let head = "  "@ + yellow_of("!"@) + "  The running stack is "@;
        let tail = ".\n     Run "@ + bold_of("henk up"@) + " to pick up the new routing.\n\n"@;
        reveal_strlit("  The running stack is v");
        reveal_strlit("  The running stack is ");
        reveal_strlit("v");
        assert("  The running stack is v"@ =~= "  The running stack is "@ + "v"@);
        assert(t =~= head + mid + tail);
        lemma_contains_itself(mid);
        lemma_contains_inside(head, mid, tail, mid);
    }
}

/// The first verdict on a host is the one that is shown.
proof fn lemma_verdict_index(verdicts: Seq<BackendView>, host: Seq<char>, i: int, k: int)
    requires
        0 <= i <= k <= verdicts.len(),
        forall|j: int| i <= j < k ==> (#[trigger] verdicts[j]).host != host,
    ensures
        k < verdicts.len() && verdicts[k].host == host ==> verdict_index(verdicts, host, i) == k,
        k == verdicts.len() ==> verdict_index(verdicts, host, i) == k,
    decreases k - i,
{
    if i < k {
        assert(verdicts[i].host != host);
        lemma_verdict_index(verdicts, host, i + 1, k);
    }
}

/// A host is shown with its URL. The first verdict on it gives the glyph, and
/// the detail where something is wrong; without a verdict there is neither.
pub proof fn law_host_line_shows_the_verdict(host: Seq<char>, verdicts: Seq<BackendView>, k: int)
    requires
        0 <= k <= verdicts.len(),
        forall|j: int| 0 <= j < k ==> (#[trigger] verdicts[j]).host != host,
    ensures
        contains(host_line(host, verdicts), "https://"@ + host),
        k < verdicts.len() && verdicts[k].host == host ==> contains(
            host_line(host, verdicts),
            glyph_of(verdicts[k].status),
        ) && (verdicts[k].status != Status::Okay ==> contains(
            host_line(host, verdicts),
            verdicts[k].detail,
        )),
        k == verdicts.len() ==> host_line(host, verdicts) == "           https://"@ + host + "\n"@,
{
    lemma_verdict_index(verdicts, host, 0, k);
    let line = host_line(host, verdicts);
    let url = "https://"@ + host;
    reveal_strlit("           https://");
    reveal_strlit("  https://");
    reveal_strlit("https://");
    assert("           https://"@ =~= "           "@ + "https://"@) by {
        reveal_strlit("           ");
    }
    assert("  https://"@ =~= "  "@ + "https://"@) by {
        reveal_strlit("  ");
    }
    lemma_contains_itself(url);
    let n = verdict_index(verdicts, host, 0);
    lemma_verdict_range(verdicts, host, 0);
    if n < verdicts.len() {
        let v = verdicts[n];
        let g = glyph_of(v.status);
        lemma_contains_itself(g);
        lemma_contains_itself(v.detail);
        let head = "        "@ + g + "  "@;
        let tail = if v.status == Status::Okay {
            "\n"@
        } else {
            "  — "@ + v.detail + "\n"@
        };
        assert(line =~= head + url + tail);
        lemma_contains_inside(head, url, tail, url);
        assert(line =~= "        "@ + g + ("  "@ + url + tail));
        lemma_contains_inside("        "@, g, "  "@ + url + tail, g);
        if v.status != Status::Okay {
            assert(line =~= (head + url + "  — "@) + v.detail + "\n"@);
            lemma_contains_inside(head + url + "  — "@, v.detail, "\n"@, v.detail);
        }
    } else {
        assert(line =~= "           "@ + url + "\n"@);
        lemma_contains_inside("           "@, url, "\n"@, url);
    }
}

/// The place of a verdict lies within the list, or at its end.
proof fn lemma_verdict_range(verdicts: Seq<BackendView>, host: Seq<char>, i: int)
    requires
        0 <= i <= verdicts.len(),
    ensures
        i <= verdict_index(verdicts, host, i) <= verdicts.len(),
    decreases verdicts.len() - i,
{
    if i < verdicts.len() && verdicts[i].host != host {
        lemma_verdict_range(verdicts, host, i + 1);
    }
}

/// Every linked host has its line, under the name of its project.
proof fn lemma_project_lines(
    links: Seq<LinkView>,
    verdicts: Seq<BackendView>,
    i: int,
    current: Seq<char>,
    k: int,
)
    requires
        0 <= i <= k < links.len(),
    ensures
        contains(project_lines(links, verdicts, i, current), host_line(links[k].host, verdicts)),
        links[k].slug != (if k == i {
            current
        } else {
            links[k - 1].slug
        }) ==> contains(
            project_lines(links, verdicts, i, current),
            "    · "@ + links[k].slug + "\n"@,
        ),
    decreases links.len() - i,
{
    let empty = Seq::<char>::empty();
    let all = project_lines(links, verdicts, i, current);
    let head = if links[i].slug != current {
        "    · "@ + links[i].slug + "\n"@
    } else {
        empty
    };
    let own = host_line(links[i].host, verdicts);
    let rest = project_lines(links, verdicts, i + 1, links[i].slug);
    assert(all =~= head + own + rest);
    if k == i {
        lemma_contains_itself(own);
        lemma_contains_inside(head, own, rest, own);
        if links[i].slug != current {
            lemma_contains_itself(head);
            assert(all =~= empty + head + (own + rest));
            lemma_contains_inside(empty, head, own + rest, head);
        }
    } else {
        lemma_project_lines(links, verdicts, i + 1, links[i].slug, k);
        assert(all =~= (head + own) + rest + empty);
        lemma_contains_inside(head + own, rest, empty, host_line(links[k].host, verdicts));
        if links[k].slug != links[k - 1].slug {
            lemma_contains_inside(head + own, rest, empty, "    · "@ + links[k].slug + "\n"@);
        }
    }
}

/// Every linked host is shown with its URL, and every project by its slug before
/// its first host; without a link it says so.
pub proof fn law_every_linked_host_is_shown(
    links: Seq<LinkView>,
    verdicts: Seq<BackendView>,
    k: int,
)
    ensures
        0 <= k < links.len() ==> contains(
            projects_text(links, verdicts),
            "https://"@ + links[k].host,
        ),
        0 <= k < links.len() && links[k].slug.len() > 0 && (k == 0 || links[k].slug != links[k
            - 1].slug) ==> contains(
            projects_text(links, verdicts),
            "    · "@ + links[k].slug + "\n"@,
        ),
        links.len() == 0 ==> projects_text(links, verdicts) == "  Linked projects: "@ + gray_of(
            "none"@,
        ) + "\n\n"@,
{
    if 0 <= k < links.len() {
        let none = Seq::<char>::empty();
        let all = projects_text(links, verdicts);
        let head = "  "@ + bold_of("Linked projects:"@) + "\n"@;
        let mid = project_lines(links, verdicts, 0, seq![]);
        let line = host_line(links[k].host, verdicts);
        let url = "https://"@ + links[k].host;
        assert(all =~= head + mid + "\n"@);
        lemma_project_lines(links, verdicts, 0, seq![], k);
        lemma_verdict_range(verdicts, links[k].host, 0);
        lemma_url_on_line(links[k].host, verdicts);
        let j = choose|j: int| occurs_at(mid, line, j);
        let a = mid.take(j);
        let b = mid.skip(j + line.len());
        assert(mid =~= a + line + b) by {
            assert(mid.subrange(j, j + line.len()) =~= line);
        }
        lemma_contains_inside(a, line, b, url);
        lemma_contains_inside(head, mid, "\n"@, url);
        if links[k].slug.len() > 0 && (k == 0 || links[k].slug != links[k - 1].slug) {
            assert(k == 0 ==> links[k].slug != none);
            lemma_contains_inside(head, mid, "\n"@, "    · "@ + links[k].slug + "\n"@);
        }
    }
}

/// The line of a host holds its URL.
proof fn lemma_url_on_line(host: Seq<char>, verdicts: Seq<BackendView>)
    ensures
        contains(host_line(host, verdicts), "https://"@ + host),
{
    law_host_line_shows_the_verdict(host, verdicts, 0);
}

/// The settings that are shown are those of the config.
pub proof fn law_settings_are_shown(cfg: ConfigView)
    ensures
        contains(settings_text(cfg), "  TLD:        ."@ + cfg.tld),
        contains(
            settings_text(cfg),
            "\n  HTTP/HTTPS: :"@ + decimal(cfg.ports.http as nat) + " / :"@ + decimal(
                cfg.ports.https as nat,
            ),
        ),
        contains(
            settings_text(cfg),
            "\n  Dashboard:  http://localhost:"@ + decimal(cfg.ports.dashboard as nat),
        ),
{
    let http = decimal(cfg.ports.http as nat);
    let https = decimal(cfg.ports.https as nat);
    let board = decimal(cfg.ports.dashboard as nat);
    let a = "  TLD:        ."@ + cfg.tld;
    let b1 = "\n  HTTP/HTTPS: :"@ + http;
    let b2 = b1 + " / :"@;
    let b = b2 + https;
    let c = "\n  Dashboard:  http://localhost:"@ + board;
    let t1 = a + "\n  HTTP/HTTPS: :"@;
    let t2 = t1 + http;
    let t3 = t2 + " / :"@;
    let t4 = t3 + https;
    let t5 = t4 + "\n  Dashboard:  http://localhost:"@;
    let t6 = t5 + board;
    lemma_contains_itself(a);
    lemma_contains_either(a, "\n  HTTP/HTTPS: :"@, a);
    lemma_contains_either(t1, http, a);
    lemma_contains_either(t2, " / :"@, a);
    lemma_contains_either(t3, https, a);
    lemma_contains_either(t4, "\n  Dashboard:  http://localhost:"@, a);
    lemma_contains_either(t5, board, a);
    lemma_contains_either(t6, "\n\n"@, a);
    assert(t2 =~= a + b1);
    assert(t3 =~= a + b2);
    lemma_contains_pair(a, b2, https);
    lemma_contains_either(t4, "\n  Dashboard:  http://localhost:"@, b);
    lemma_contains_either(t5, board, b);
    lemma_contains_either(t6, "\n\n"@, b);
    lemma_contains_pair(t4, "\n  Dashboard:  http://localhost:"@, board);
    lemma_contains_either(t6, "\n\n"@, c);
}

/// A short list of names is shown whole; of a longer one the first names are
/// shown, with a mark that there are more.
pub proof fn law_preview_is_bounded(names: Seq<Seq<char>>, n: nat)
    ensures
        names.len() <= n ==> preview_of(names, n) == join_of(names, ", "@),
        names.len() > n ==> begins(preview_of(names, n), join_of(names.take(n as int), ", "@))
            && ends(preview_of(names, n), ", …"@),
{
    if names.len() > n {
        let p = preview_of(names, n);
        let head = join_of(names.take(n as int), ", "@);
        assert(p.subrange(0, head.len() as int) =~= head);
        assert(p.subrange(p.len() - ", …"@.len(), p.len() as int) =~= ", …"@);
    }
}

/// What works is shown as working and what does not as not, each in its place.
pub proof fn law_stack_health_is_shown(traefik: bool, dnsmasq: bool)
    ensures
        traefik ==> begins(stack_text(traefik, dnsmasq), "  Traefik:    "@ + green_of("running"@)),
        !traefik ==> begins(stack_text(traefik, dnsmasq), "  Traefik:    "@ + red_of("stopped"@)),
        dnsmasq ==> ends(
            stack_text(traefik, dnsmasq),
            "\n  dnsmasq:    "@ + green_of("answering on 127.0.0.1:53"@) + "\n\n"@,
        ),
        !dnsmasq ==> ends(
            stack_text(traefik, dnsmasq),
            "\n  dnsmasq:    "@ + red_of("not answering on :53"@) + "\n\n"@,
        ),
{
    let t = stack_text(traefik, dnsmasq);
    let a = if traefik {
        green_of("running"@)
    } else {
        red_of("stopped"@)
    };
    let b = if dnsmasq {
        green_of("answering on 127.0.0.1:53"@)
    } else {
        red_of("not answering on :53"@)
    };
    let head = "  Traefik:    "@ + a;
    let tail = "\n  dnsmasq:    "@ + b + "\n\n"@;
    assert(t == head + "\n  dnsmasq:    "@ + b + "\n\n"@);
    assert(t.subrange(0, head.len() as int) =~= head);
    assert(t.subrange(t.len() - tail.len(), t.len() as int) =~= tail);
}

/// Without a certificate the status says so; otherwise it says how many names it
/// has and when it ends.
pub proof fn law_certificate_status(cert: Option<CertFacts>)
    ensures
        cert is None ==> begins(cert_text(cert), "  Cert:       "@ + red_of("not issued"@)),
        cert matches Some(c) ==> begins(
            cert_text(cert),
            "  Cert:       "@ + decimal(c.sans@.len()) + " SANs, expires "@ + (match c.expires {
                Some(e) => e@,
                None => "unknown"@,
            }),
        ),
{
    let t = cert_text(cert);
    match cert {
        None => {
            let head = "  Cert:       "@ + red_of("not issued"@);
            assert(t.subrange(0, head.len() as int) =~= head);
        },
        Some(c) => {
            let head = "  Cert:       "@ + decimal(c.sans@.len()) + " SANs, expires "@ + (
            match c.expires {
                Some(e) => e@,
                None => "unknown"@,
            });
            assert(t.subrange(0, head.len() as int) =~= head);
        },
    }
}

} // verus!
