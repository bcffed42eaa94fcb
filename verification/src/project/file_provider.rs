//! One project's entry for Traefik's file provider,
//! `~/.config/henk/dynamic/<slug>.yml`.
//!
//! Every host gets two routers: the real one on `websecure`, whose service
//! fails over to the error pages while the backend is down, and a twin on `web`
//! that only redirects to https.

use vstd::prelude::*;
use vstd::string::*;

use crate::consts::{HENK_FILE_HEADER, PROJECT_MANIFEST_VERSION};
use crate::detect::backend::{
    file_links, law_docker_backends_are_not_probed, law_host_backends_are_probed, link_views,
    parse_linked_hosts, probe_port_of, project_of, project_slug, LinkView, LinkedHost, RouteFile,
};
use crate::project::manifest::{
    host_views, HostEntry, HostView, ManifestView, ProjectManifest, ProjectMode,
};
use crate::stack::paths::{dynamic_dir_of, dynamic_projects_dir_in, join, joined};
use crate::text::{
    contains, decimal, decimal_u16, decimal_u64, has_text, occurs_at, opt_text, texts,
};

verus! {

/// Path of a project's entry, for a given home directory.
pub fn path_in(home: &str, slug: &str) -> (r: String)
    ensures
        r@ == joined(dynamic_dir_of(home@), slug@ + ".yml"@),
{
    join(dynamic_projects_dir_in(home).as_str(), slug.to_owned().concat(".yml").as_str())
}

/// The name of the `i`-th host's router: the slug, numbered from the second
/// host on.
pub open spec fn router_name(slug: Seq<char>, i: int) -> Seq<char> {
    if i == 0 {
        slug
    } else {
        slug + "-"@ + decimal((i + 1) as nat)
    }
}

/// The URL that a host's requests go to: the target it names, otherwise its
/// service and port on the proxy network.
pub open spec fn backend_url(h: HostView) -> Seq<char> {
    match h.target {
        Some(t) => t,
        None => "http://"@ + (match h.service {
            Some(s) => s,
            None => "host.docker.internal"@,
        }) + ":"@ + decimal(
            match h.port {
                Some(p) => p,
                None => 80u16,
            } as nat,
        ),
    }
}

/// The two routers of a host.
pub open spec fn routers_text(name: Seq<char>, host: Seq<char>) -> Seq<char> {
    "    "@ + name + ":\n      rule: \"Host(`"@ + host
        + "`)\"\n      entryPoints:\n        - websecure\n      tls: {}\n      service: "@ + name
        + "\n    "@ + name + "-http:\n      rule: \"Host(`"@ + host
        + "`)\"\n      entryPoints:\n        - web\n      middlewares:\n        - henk-https-redirect\n      service: "@
        + name + "\n"@
}

/// The two services of a host: the failover and its health-checked primary.
pub open spec fn services_text(name: Seq<char>, url: Seq<char>) -> Seq<char> {
    "    "@ + name + ":\n      failover:\n        service: "@ + name
        + "-main\n        fallback: henk-error-pages\n    "@ + name
        + "-main:\n      loadBalancer:\n        healthCheck:\n          path: /\n        servers:\n          - url: \""@
        + url + "\"\n"@
}

/// The routers of a list of hosts.
pub open spec fn all_routers(slug: Seq<char>, hosts: Seq<HostView>) -> Seq<char>
    decreases hosts.len(),
{
    if hosts.len() == 0 {
        seq![]
    } else {
        all_routers(slug, hosts.drop_last()) + routers_text(
            router_name(slug, hosts.len() - 1),
            hosts.last().host,
        )
    }
}

/// The services of a list of hosts.
pub open spec fn all_services(slug: Seq<char>, hosts: Seq<HostView>) -> Seq<char>
    decreases hosts.len(),
{
    if hosts.len() == 0 {
        seq![]
    } else {
        all_services(slug, hosts.drop_last()) + services_text(
            router_name(slug, hosts.len() - 1),
            backend_url(hosts.last()),
        )
    }
}

/// The text of a project's entry.
pub open spec fn entry_text(m: ManifestView) -> Seq<char> {
    HENK_FILE_HEADER@ + "\nhttp:\n  routers:\n"@ + all_routers(m.slug, m.hosts) + "  services:\n"@
        + all_services(m.slug, m.hosts)
}

/// The name of the `i`-th host's router.
fn name_at(slug: &str, i: usize) -> (r: String)
    requires
        i < usize::MAX,
    ensures
        r@ == router_name(slug@, i as int),
{
    if i == 0 {
        slug.to_owned()
    } else {
        slug.to_owned().concat("-").concat(decimal_u64((i + 1) as u64).as_str())
    }
}

/// The URL that a host's requests go to.
fn backend(h: &HostEntry) -> (r: String)
    ensures
        r@ == backend_url(h@),
{
    match &h.target {
        Some(t) => t.clone(),
        None => {
            let service = match &h.service {
                Some(s) => s.clone(),
                None => "host.docker.internal".to_owned(),
            };
            let port: u16 = match h.port {
                Some(p) => p,
                None => 80,
            };
            "http://".to_owned().concat(service.as_str()).concat(":").concat(
                decimal_u16(port).as_str(),
            )
        },
    }
}

/// Renders a project's entry.
pub fn render(m: &ProjectManifest) -> (r: String)
    ensures
        r@ == entry_text(m@),
{
    let ghost all = host_views(m.hosts@);
    let slug = m.slug.as_str();
    let mut routers = String::new();
    let mut services = String::new();
    let mut i: usize = 0;
    assert(routers@ =~= all_routers(m.slug@, all.take(0)));
    assert(services@ =~= all_services(m.slug@, all.take(0)));
    while i < m.hosts.len()
        invariant
            i <= m.hosts@.len(),
            slug@ == m.slug@,
            all == host_views(m.hosts@),
            routers@ == all_routers(m.slug@, all.take(i as int)),
            services@ == all_services(m.slug@, all.take(i as int)),
        decreases m.hosts@.len() - i,
    {
        assert(all.take(i + 1).drop_last() =~= all.take(i as int));
        assert(all.take(i + 1).last() == m.hosts@[i as int]@);
        let host = m.hosts[i].host.as_str();
        let name = name_at(slug, i);
        let n = name.as_str();
        let block = "    ".to_owned().concat(n).concat(":\n      rule: \"Host(`").concat(
            host,
        ).concat(
            "`)\"\n      entryPoints:\n        - websecure\n      tls: {}\n      service: ",
        ).concat(n).concat("\n    ").concat(n).concat("-http:\n      rule: \"Host(`").concat(
            host,
        ).concat(
            "`)\"\n      entryPoints:\n        - web\n      middlewares:\n        - henk-https-redirect\n      service: ",
        ).concat(n).concat("\n");
        routers = routers.concat(block.as_str());
        let url = backend(&m.hosts[i]);
        let pair = "    ".to_owned().concat(n).concat(":\n      failover:\n        service: ").concat(
            n,
        ).concat("-main\n        fallback: henk-error-pages\n    ").concat(n).concat(
            "-main:\n      loadBalancer:\n        healthCheck:\n          path: /\n        servers:\n          - url: \"",
        ).concat(url.as_str()).concat("\"\n");
        services = services.concat(pair.as_str());
        i += 1;
    }
    assert(all.take(i as int) =~= all);
    HENK_FILE_HEADER.to_owned().concat("\nhttp:\n  routers:\n").concat(routers.as_str()).concat(
        "  services:\n",
    ).concat(services.as_str())
}

/// The hosts of an entry, rebuilt from its routes.
pub open spec fn rebuilt_hosts(links: Seq<LinkView>) -> Seq<HostView> {
    links.map_values(
        |l: LinkView|
            HostView {
                host: l.host,
                service: None,
                port: None,
                target: Some(l.url),
                flags: seq![],
            },
    )
}

/// The manifest that an entry with these routes stands for. The first route
/// decides the mode.
pub open spec fn manifest_of_links(slug: Seq<char>, links: Seq<LinkView>) -> ManifestView {
    ManifestView {
        schema_version: PROJECT_MANIFEST_VERSION,
        slug,
        mode: if links.len() > 0 && probe_port_of(links[0].url) is Some {
            ProjectMode::Host
        } else {
            ProjectMode::Docker
        },
        hosts: rebuilt_hosts(links),
    }
}

/// The manifest that an entry with these routes stands for.
pub fn manifest_from_links(slug: &str, links: &Vec<LinkedHost>) -> (r: ProjectManifest)
    ensures
        r@ == manifest_of_links(slug@, link_views(links@)),
{
    let ghost all = link_views(links@);
    let mut hosts: Vec<HostEntry> = Vec::new();
    let mut i: usize = 0;
    while i < links.len()
        invariant
            i <= links@.len(),
            all == link_views(links@),
            hosts@.len() == i,
            forall|j: int| 0 <= j < i ==> (#[trigger] hosts@[j])@ == rebuilt_hosts(all)[j],
        decreases links@.len() - i,
    {
        assert(all[i as int] == links@[i as int]@);
        let flags: Vec<String> = Vec::new();
        assert(texts(flags@) =~= Seq::<Seq<char>>::empty());
        let entry = HostEntry {
            host: links[i].host.clone(),
            service: None,
            port: None,
            target: Some(links[i].url.clone()),
            flags,
        };
        assert(entry@ == rebuilt_hosts(all)[i as int]);
        hosts.push(entry);
        i += 1;
    }
    assert(host_views(hosts@) =~= rebuilt_hosts(all));
    let host_mode = if links.len() > 0 {
        assert(all[0] == links@[0]@);
        links[0].host_mode_port().is_some()
    } else {
        false
    };
    let mut m = ProjectManifest::new(
        slug,
        if host_mode {
            ProjectMode::Host
        } else {
            ProjectMode::Docker
        },
    );
    m.hosts = hosts;
    m
}

/// The manifest that an entry stands for. `.henk.toml` lives inside each project
/// and henk keeps no index of where those are, so the entry itself is read.
pub fn manifest_from_entry(slug: &str, body: &str) -> (r: ProjectManifest)
    ensures
        r@ == manifest_of_links(slug@, file_links(slug@, body@)),
{
    manifest_from_links(slug, &parse_linked_hosts(slug, body))
}

/// Does henk's entry predate the failover to the error pages?
pub open spec fn legacy(body: Seq<char>) -> bool {
    contains(body, HENK_FILE_HEADER@) && !contains(body, "failover:"@)
}

/// The entry that replaces a legacy one; none when it is current, foreign, or
/// routes nothing.
pub open spec fn upgraded(slug: Seq<char>, body: Seq<char>) -> Option<Seq<char>> {
    if legacy(body) && file_links(slug, body).len() > 0 {
        Some(entry_text(manifest_of_links(slug, file_links(slug, body))))
    } else {
        None
    }
}

/// The entry that replaces a legacy one.
pub fn upgrade_entry(slug: &str, body: &str) -> (r: Option<String>)
    ensures
        opt_text(r) == upgraded(slug@, body@),
{
    if !has_text(body, HENK_FILE_HEADER) || has_text(body, "failover:") {
        return None;
    }
    let links = parse_linked_hosts(slug, body);
    assert(link_views(links@).len() == links@.len());
    if links.len() == 0 {
        return None;
    }
    Some(render(&manifest_from_links(slug, &links)))
}

/// The routing files whose entries are replaced, with their new text, in order.
pub open spec fn upgrades(files: Seq<RouteFile>) -> Seq<(Seq<char>, Seq<char>)>
    decreases files.len(),
{
    if files.len() == 0 {
        seq![]
    } else {
        let before = upgrades(files.drop_last());
        match project_slug(files.last().name@) {
            Some(slug) => match upgraded(slug, files.last().body@) {
                Some(text) => before.push((slug, text)),
                None => before,
            },
            None => before,
        }
    }
}

/// The view of a list of slugs with their new entries.
pub open spec fn entry_pairs(list: Seq<(String, String)>) -> Seq<(Seq<char>, Seq<char>)> {
    list.map_values(|p: (String, String)| (p.0@, p.1@))
}

/// The entries that `henk up` replaces: slug and new text.
pub fn migrate_legacy_entries(files: &Vec<RouteFile>) -> (r: Vec<(String, String)>)
    ensures
        entry_pairs(r@) == upgrades(files@),
{
    let mut out: Vec<(String, String)> = Vec::new();
    let mut i: usize = 0;
    assert(entry_pairs(out@) =~= upgrades(files@.take(0)));
    while i < files.len()
        invariant
            i <= files@.len(),
            entry_pairs(out@) == upgrades(files@.take(i as int)),
        decreases files@.len() - i,
    {
        assert(files@.take(i + 1).drop_last() =~= files@.take(i as int));
        assert(files@.take(i + 1).last() == files@[i as int]);
        let ghost before = entry_pairs(out@);
        if let Some(slug) = project_of(files[i].name.as_str()) {
            if let Some(text) = upgrade_entry(slug.as_str(), files[i].body.as_str()) {
                let ghost pair = (slug@, text@);
                out.push((slug, text));
                assert(entry_pairs(out@) =~= before.push(pair));
            }
        }
        i += 1;
    }
    assert(files@.take(i as int) =~= files@);
    out
}

/// A text holds what its middle holds.
pub proof fn lemma_contains_inside(a: Seq<char>, b: Seq<char>, c: Seq<char>, pat: Seq<char>)
    requires
        contains(b, pat),
    ensures
        contains(a + b + c, pat),
{
    let i = choose|i: int| occurs_at(b, pat, i);
    let whole = a + b + c;
    let k = a.len() + i;
    assert(whole.subrange(k, k + pat.len()) =~= b.subrange(i, i + pat.len()));
    assert(occurs_at(whole, pat, k));
}

/// The entry of a project with a host names its failover.
proof fn lemma_entry_fails_over(m: ManifestView)
    requires
        m.hosts.len() > 0,
    ensures
        contains(entry_text(m), "failover:"@),
{
    let n = m.hosts.len() - 1;
    let name = router_name(m.slug, n);
    let url = backend_url(m.hosts.last());
    let mark = ":\n      failover:\n        service: "@;
    reveal_strlit(":\n      failover:\n        service: ");
    reveal_strlit("failover:");
    assert(mark.subrange(8, 17) =~= "failover:"@);
    assert(occurs_at(mark, "failover:"@, 8));
    let pair = services_text(name, url);
    let rest = name + "-main\n        fallback: henk-error-pages\n    "@ + name
        + "-main:\n      loadBalancer:\n        healthCheck:\n          path: /\n        servers:\n          - url: \""@
        + url + "\"\n"@;
    assert(pair =~= ("    "@ + name) + mark + rest);
    lemma_contains_inside("    "@ + name, mark, rest, "failover:"@);
    let head = HENK_FILE_HEADER@ + "\nhttp:\n  routers:\n"@ + all_routers(m.slug, m.hosts)
        + "  services:\n"@ + all_services(m.slug, m.hosts.drop_last());
    assert(entry_text(m) =~= head + pair + Seq::<char>::empty());
    lemma_contains_inside(head, pair, Seq::<char>::empty(), "failover:"@);
}

/// The routers of a list hold the rule of each of its hosts.
proof fn lemma_routers_hold_rules(slug: Seq<char>, hosts: Seq<HostView>, i: int)
    requires
        0 <= i < hosts.len(),
    ensures
        contains(all_routers(slug, hosts), "Host(`"@ + hosts[i].host + "`)"@),
    decreases hosts.len(),
{
    let n = hosts.len() - 1;
    let name = router_name(slug, n);
    let host = hosts[i].host;
    let rule = "Host(`"@ + host + "`)"@;
    let before = all_routers(slug, hosts.drop_last());
    let block = routers_text(name, hosts.last().host);
    if i < n {
        assert(hosts.drop_last()[i] == hosts[i]);
        lemma_routers_hold_rules(slug, hosts.drop_last(), i);
        assert(all_routers(slug, hosts) =~= Seq::<char>::empty() + before + block);
        lemma_contains_inside(Seq::<char>::empty(), before, block, rule);
    } else {
        let open = ":\n      rule: \"Host(`"@;
        let close = "`)\"\n      entryPoints:\n        - websecure\n      tls: {}\n      service: "@;
        reveal_strlit(":\n      rule: \"Host(`");
        reveal_strlit(
            "`)\"\n      entryPoints:\n        - websecure\n      tls: {}\n      service: ",
        );
        reveal_strlit("Host(`");
        reveal_strlit("`)");
        let middle = open + host + close;
        let rest = name + "\n    "@ + name + "-http:\n      rule: \"Host(`"@ + host
            + "`)\"\n      entryPoints:\n        - web\n      middlewares:\n        - henk-https-redirect\n      service: "@
            + name + "\n"@;
        assert(middle.subrange(15, 15 + rule.len() as int) =~= rule);
        assert(occurs_at(middle, rule, 15));
        assert(block =~= ("    "@ + name) + middle + rest);
        lemma_contains_inside("    "@ + name, middle, rest, rule);
        assert(all_routers(slug, hosts) =~= before + block + Seq::<char>::empty());
        lemma_contains_inside(before, block, Seq::<char>::empty(), rule);
    }
}

/// The services of a list hold the backend of each of its hosts.
proof fn lemma_services_hold_backends(slug: Seq<char>, hosts: Seq<HostView>, i: int)
    requires
        0 <= i < hosts.len(),
    ensures
        contains(all_services(slug, hosts), "url: \""@ + backend_url(hosts[i]) + "\""@),
    decreases hosts.len(),
{
    let n = hosts.len() - 1;
    let name = router_name(slug, n);
    let url = backend_url(hosts[i]);
    let line = "url: \""@ + url + "\""@;
    let before = all_services(slug, hosts.drop_last());
    let block = services_text(name, backend_url(hosts.last()));
    if i < n {
        assert(hosts.drop_last()[i] == hosts[i]);
        lemma_services_hold_backends(slug, hosts.drop_last(), i);
        assert(all_services(slug, hosts) =~= Seq::<char>::empty() + before + block);
        lemma_contains_inside(Seq::<char>::empty(), before, block, line);
    } else {
        let head = "    "@ + name + ":\n      failover:\n        service: "@ + name
            + "-main\n        fallback: henk-error-pages\n    "@ + name;
        let open =
            "-main:\n      loadBalancer:\n        healthCheck:\n          path: /\n        servers:\n          - url: \""@;
        reveal_strlit(
            "-main:\n      loadBalancer:\n        healthCheck:\n          path: /\n        servers:\n          - url: \"",
        );
        reveal_strlit("\"\n");
        reveal_strlit("\"");
        reveal_strlit("url: \"");
        let middle = open + url + "\"\n"@;
        let k = open.len() - 6;
        assert(middle.subrange(k, k + line.len()) =~= line);
        assert(occurs_at(middle, line, k));
        assert(block =~= head + middle + Seq::<char>::empty());
        lemma_contains_inside(head, middle, Seq::<char>::empty(), line);
        assert(all_services(slug, hosts) =~= before + block + Seq::<char>::empty());
        lemma_contains_inside(before, block, Seq::<char>::empty(), line);
    }
}

/// The entry of a project routes every one of its hosts: it holds the rule of
/// the host and the URL that its requests go to. It is henk's own.
pub proof fn law_every_host_is_routed(m: ManifestView, i: int)
    requires
        0 <= i < m.hosts.len(),
    ensures
        contains(entry_text(m), "Host(`"@ + m.hosts[i].host + "`)"@),
        contains(entry_text(m), "url: \""@ + backend_url(m.hosts[i]) + "\""@),
        contains(entry_text(m), HENK_FILE_HEADER@),
{
    let routers = all_routers(m.slug, m.hosts);
    let services = all_services(m.slug, m.hosts);
    let rule = "Host(`"@ + m.hosts[i].host + "`)"@;
    let line = "url: \""@ + backend_url(m.hosts[i]) + "\""@;
    let head = HENK_FILE_HEADER@ + "\nhttp:\n  routers:\n"@;
    lemma_routers_hold_rules(m.slug, m.hosts, i);
    lemma_services_hold_backends(m.slug, m.hosts, i);
    assert(entry_text(m) =~= head + routers + ("  services:\n"@ + services));
    lemma_contains_inside(head, routers, "  services:\n"@ + services, rule);
    assert(entry_text(m) =~= (head + routers + "  services:\n"@) + services + Seq::<char>::empty());
    lemma_contains_inside(
        head + routers + "  services:\n"@,
        services,
        Seq::<char>::empty(),
        line,
    );
    let t = entry_text(m);
    assert(t.subrange(0, HENK_FILE_HEADER@.len() as int) =~= HENK_FILE_HEADER@);
    assert(occurs_at(t, HENK_FILE_HEADER@, 0));
}

/// An entry that henk renders is never migrated: a second `henk up` leaves every
/// migrated entry alone.
pub proof fn law_migration_settles(slug: Seq<char>, body: Seq<char>)
    ensures
        upgraded(slug, body) matches Some(text) ==> upgraded(slug, text) is None,
{
    if upgraded(slug, body) is Some {
        lemma_entry_fails_over(manifest_of_links(slug, file_links(slug, body)));
    }
}

/// A migration keeps every linked host and where its requests go.
pub proof fn law_migration_keeps_routes(slug: Seq<char>, links: Seq<LinkView>, i: int)
    requires
        0 <= i < links.len(),
    ensures
        manifest_of_links(slug, links).hosts.len() == links.len(),
        manifest_of_links(slug, links).hosts[i].host == links[i].host,
        backend_url(manifest_of_links(slug, links).hosts[i]) == links[i].url,
{
}

/// Foreign routing files are never migrated.
pub proof fn law_foreign_entries_stay(slug: Seq<char>, body: Seq<char>)
    requires
        !contains(body, HENK_FILE_HEADER@),
    ensures
        upgraded(slug, body) is None,
{
}

/// An entry of henk's without a failover is rewritten, with every route that it
/// had. One that fails over already, and one that routes nothing, is left alone.
pub proof fn law_legacy_entries_are_rewritten(slug: Seq<char>, body: Seq<char>, i: int)
    ensures
        contains(body, HENK_FILE_HEADER@) && !contains(body, "failover:"@) && file_links(
            slug,
            body,
        ).len() > 0 ==> upgraded(slug, body) is Some,
        contains(body, "failover:"@) ==> upgraded(slug, body) is None,
        file_links(slug, body).len() == 0 ==> upgraded(slug, body) is None,
        upgraded(slug, body) matches Some(text) ==> (0 <= i < file_links(slug, body).len() ==> (
        contains(text, "Host(`"@ + file_links(slug, body)[i].host + "`)"@) && contains(
            text,
            "url: \""@ + file_links(slug, body)[i].url + "\""@,
        ))),
{
    let links = file_links(slug, body);
    if upgraded(slug, body) is Some && 0 <= i < links.len() {
        let m = manifest_of_links(slug, links);
        law_migration_keeps_routes(slug, links, i);
        law_every_host_is_routed(m, i);
    }
}

/// Every routing file of a project that needs it is rewritten, under its slug.
pub proof fn law_every_legacy_file_is_rewritten(files: Seq<RouteFile>, i: int)
    requires
        0 <= i < files.len(),
    ensures
        project_slug(files[i].name@) matches Some(slug) ==> (upgraded(
            slug,
            files[i].body@,
        ) matches Some(text) ==> upgrades(files).contains((slug, text))),
    decreases files.len(),
{
    if project_slug(files[i].name@) is Some {
        let slug = project_slug(files[i].name@)->0;
        if upgraded(slug, files[i].body@) is Some {
            let pair = (slug, upgraded(slug, files[i].body@)->0);
            let all = upgrades(files);
            if i == files.len() - 1 {
                assert(all[all.len() - 1] == pair);
            } else {
                let rest = files.drop_last();
                assert(rest[i] == files[i]);
                law_every_legacy_file_is_rewritten(rest, i);
                let k = choose|k: int| 0 <= k < upgrades(rest).len() && upgrades(rest)[k] == pair;
                assert(all[k] == pair);
            }
        }
    }
}

/// What is rewritten is the routing file of a project that needs it.
pub proof fn law_only_legacy_files_are_rewritten(files: Seq<RouteFile>, k: int) -> (i: int)
    requires
        0 <= k < upgrades(files).len(),
    ensures
        0 <= i < files.len(),
        project_slug(files[i].name@) == Some(upgrades(files)[k].0),
        contains(files[i].body@, HENK_FILE_HEADER@),
        !contains(files[i].body@, "failover:"@),
        contains(upgrades(files)[k].1, "failover:"@),
    decreases files.len(),
{
    if files.len() == 0 {
        assert(false);
        0
    } else {
        let rest = files.drop_last();
        if k < upgrades(rest).len() {
            law_only_legacy_files_are_rewritten(rest, k)
        } else {
            let slug = project_slug(files.last().name@)->0;
            let links = file_links(slug, files.last().body@);
            lemma_entry_fails_over(manifest_of_links(slug, links));
            files.len() - 1
        }
    }
}

/// An entry whose first route leads to the host machine stands for a project in
/// Host mode; one whose first route leads to a container, for one in Docker mode.
pub proof fn law_first_route_decides_the_mode(slug: Seq<char>, links: Seq<LinkView>, port: u16)
    ensures
        manifest_of_links(slug, links).slug == slug,
        links.len() > 0 && links[0].url == "http://host.docker.internal:"@ + decimal(port as nat)
            ==> manifest_of_links(slug, links).mode == ProjectMode::Host,
        links.len() > 0 && !contains(links[0].url, "host.docker.internal"@) ==> manifest_of_links(
            slug,
            links,
        ).mode == ProjectMode::Docker,
        links.len() == 0 ==> manifest_of_links(slug, links).mode == ProjectMode::Docker,
{
    law_host_backends_are_probed(port);
    if links.len() > 0 && !contains(links[0].url, "host.docker.internal"@) {
        law_docker_backends_are_not_probed(links[0].url);
    }
}

/// Files are rewritten in the order in which they are listed.
pub proof fn law_rewrites_keep_the_order(a: Seq<RouteFile>, b: Seq<RouteFile>)
    ensures
        upgrades(a + b) == upgrades(a) + upgrades(b),
    decreases b.len(),
{
    if b.len() == 0 {
        assert(a + b =~= a);
        assert(upgrades(a) + upgrades(b) =~= upgrades(a));
    } else {
        assert((a + b).drop_last() =~= a + b.drop_last());
        assert((a + b).last() == b.last());
        law_rewrites_keep_the_order(a, b.drop_last());
        assert(upgrades(a + b) =~= upgrades(a) + upgrades(b));
    }
}

} // verus!
