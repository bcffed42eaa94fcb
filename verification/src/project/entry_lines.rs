//! What a project's entry says, line by line: which routers it has, what they
//! listen on, and where their requests go.

use vstd::prelude::*;
use vstd::string::*;

use crate::consts::HENK_FILE_HEADER;
use crate::outline::{
    block_holds, in_block, indent_of, lemma_indent, lemma_split_unlines, lemma_unlines_add,
    lemma_unlines_take, nested, opens_entry, unlines,
};
use crate::project::file_provider::{
    all_routers, all_services, backend_url, entry_text, router_name, routers_text, services_text,
};
use crate::project::manifest::{HostView, ManifestView};
use crate::text::{decimal, is_digit, lemma_decimal, split_of};

verus! {

/// The lines of a host's real router.
spec fn real_lines(name: Seq<char>, host: Seq<char>) -> Seq<Seq<char>> {
    seq![
        "    "@ + name + ":"@,
        "      rule: \"Host(`"@ + host + "`)\""@,
        "      entryPoints:"@,
        "        - websecure"@,
        "      tls: {}"@,
        "      service: "@ + name,
    ]
}

/// The lines of its redirecting twin.
spec fn twin_lines(name: Seq<char>, host: Seq<char>) -> Seq<Seq<char>> {
    seq![
        "    "@ + name + "-http:"@,
        "      rule: \"Host(`"@ + host + "`)\""@,
        "      entryPoints:"@,
        "        - web"@,
        "      middlewares:"@,
        "        - henk-https-redirect"@,
        "      service: "@ + name,
    ]
}

/// The lines of a host's two routers.
spec fn router_lines(name: Seq<char>, host: Seq<char>) -> Seq<Seq<char>> {
    real_lines(name, host) + twin_lines(name, host)
}

/// The lines of a host's failover.
spec fn failover_lines(name: Seq<char>) -> Seq<Seq<char>> {
    seq![
        "    "@ + name + ":"@,
        "      failover:"@,
        "        service: "@ + name + "-main"@,
        "        fallback: henk-error-pages"@,
    ]
}

/// The lines of its health-checked primary.
spec fn primary_lines(name: Seq<char>, url: Seq<char>) -> Seq<Seq<char>> {
    seq![
        "    "@ + name + "-main:"@,
        "      loadBalancer:"@,
        "        healthCheck:"@,
        "          path: /"@,
        "        servers:"@,
        "          - url: \""@ + url + "\""@,
    ]
}

/// The lines of a host's two services.
spec fn service_lines(name: Seq<char>, url: Seq<char>) -> Seq<Seq<char>> {
    failover_lines(name) + primary_lines(name, url)
}

/// The pieces of the texts around the names, line by line.
proof fn lemma_router_pieces()
    ensures
        ({
            let nl = seq!['\n'];
            let open = "      rule: \"Host(`"@;
            let shut = "`)\""@;
            let points = "      entryPoints:"@;
            let lead = "      service: "@;
            &&& ":\n      rule: \"Host(`"@ == ":"@ + nl + open
            &&& "`)\"\n      entryPoints:\n        - websecure\n      tls: {}\n      service: "@
                == shut + nl + points + nl + "        - websecure"@ + nl + "      tls: {}"@ + nl
                + lead
            &&& "\n    "@ == nl + "    "@
            &&& "-http:\n      rule: \"Host(`"@ == "-http:"@ + nl + open
            &&& "`)\"\n      entryPoints:\n        - web\n      middlewares:\n        - henk-https-redirect\n      service: "@
                == shut + nl + points + nl + "        - web"@ + nl + "      middlewares:"@ + nl
                + "        - henk-https-redirect"@ + nl + lead
            &&& "\n"@ == nl
        }),
{
    let nl = seq!['\n'];
    reveal_strlit(":");
    reveal_strlit("      rule: \"Host(`");
    reveal_strlit("`)\"");
    reveal_strlit("      entryPoints:");
    reveal_strlit("      service: ");
    reveal_strlit(":\n      rule: \"Host(`");
    reveal_strlit("`)\"\n      entryPoints:\n        - websecure\n      tls: {}\n      service: ");
    reveal_strlit("        - websecure");
    reveal_strlit("      tls: {}");
    reveal_strlit("\n    ");
    reveal_strlit("    ");
    reveal_strlit("-http:\n      rule: \"Host(`");
    reveal_strlit("-http:");
    reveal_strlit(
        "`)\"\n      entryPoints:\n        - web\n      middlewares:\n        - henk-https-redirect\n      service: ",
    );
    reveal_strlit("        - web");
    reveal_strlit("      middlewares:");
    reveal_strlit("        - henk-https-redirect");
    reveal_strlit("\n");
    assert(":\n      rule: \"Host(`"@ =~= ":"@ + nl + "      rule: \"Host(`"@);
    assert("`)\"\n      entryPoints:\n        - websecure\n      tls: {}\n      service: "@ =~= "`)\""@
        + nl + "      entryPoints:"@ + nl + "        - websecure"@ + nl + "      tls: {}"@ + nl
        + "      service: "@);
    assert("\n    "@ =~= nl + "    "@);
    assert("-http:\n      rule: \"Host(`"@ =~= "-http:"@ + nl + "      rule: \"Host(`"@);
    assert("`)\"\n      entryPoints:\n        - web\n      middlewares:\n        - henk-https-redirect\n      service: "@
        =~= "`)\""@ + nl + "      entryPoints:"@ + nl + "        - web"@ + nl
        + "      middlewares:"@ + nl + "        - henk-https-redirect"@ + nl
        + "      service: "@);
    assert("\n"@ =~= nl);
}

/// The pieces of the service texts, line by line.
proof fn lemma_service_pieces()
    ensures
        ({
            let nl = seq!['\n'];
            &&& ":\n      failover:\n        service: "@ == ":"@ + nl + "      failover:"@ + nl
                + "        service: "@
            &&& "-main\n        fallback: henk-error-pages\n    "@ == "-main"@ + nl
                + "        fallback: henk-error-pages"@ + nl + "    "@
            &&& "-main:\n      loadBalancer:\n        healthCheck:\n          path: /\n        servers:\n          - url: \""@
                == "-main:"@ + nl + "      loadBalancer:"@ + nl + "        healthCheck:"@ + nl
                + "          path: /"@ + nl + "        servers:"@ + nl + "          - url: \""@
            &&& "\"\n"@ == "\""@ + nl
        }),
{
    let nl = seq!['\n'];
    reveal_strlit(":\n      failover:\n        service: ");
    reveal_strlit(":");
    reveal_strlit("      failover:");
    reveal_strlit("        service: ");
    reveal_strlit("-main\n        fallback: henk-error-pages\n    ");
    reveal_strlit("-main");
    reveal_strlit("        fallback: henk-error-pages");
    reveal_strlit("    ");
    reveal_strlit(
        "-main:\n      loadBalancer:\n        healthCheck:\n          path: /\n        servers:\n          - url: \"",
    );
    reveal_strlit("-main:");
    reveal_strlit("      loadBalancer:");
    reveal_strlit("        healthCheck:");
    reveal_strlit("          path: /");
    reveal_strlit("        servers:");
    reveal_strlit("          - url: \"");
    reveal_strlit("\"\n");
    reveal_strlit("\"");
    assert(":\n      failover:\n        service: "@ =~= ":"@ + nl + "      failover:"@ + nl
        + "        service: "@);
    assert("-main\n        fallback: henk-error-pages\n    "@ =~= "-main"@ + nl
        + "        fallback: henk-error-pages"@ + nl + "    "@);
    assert("-main:\n      loadBalancer:\n        healthCheck:\n          path: /\n        servers:\n          - url: \""@
        =~= "-main:"@ + nl + "      loadBalancer:"@ + nl + "        healthCheck:"@ + nl
        + "          path: /"@ + nl + "        servers:"@ + nl + "          - url: \""@);
    assert("\"\n"@ =~= "\""@ + nl);
}

/// The text of a real router is that of its lines.
#[verifier::spinoff_prover]
#[verifier::rlimit(40)]
proof fn lemma_real_lines(name: Seq<char>, host: Seq<char>)
    ensures
        unlines(real_lines(name, host)) == "    "@ + name + ":\n      rule: \"Host(`"@ + host
            + "`)\"\n      entryPoints:\n        - websecure\n      tls: {}\n      service: "@ + name
            + seq!['\n'],
{
    let nl = seq!['\n'];
    let open = "      rule: \"Host(`"@;
    let shut = "`)\""@;
    let points = "      entryPoints:"@;
    let lead = "      service: "@;
    let l = real_lines(name, host);
    lemma_router_pieces();
    assert(l.take(0) =~= Seq::<Seq<char>>::empty());
    let u0 = unlines(l.take(0));
    let u1 = unlines(l.take(1));
    let u5 = unlines(l.take(5));
    assert(u0 =~= Seq::<char>::empty());
    lemma_unlines_take(l, 0);
    assert(u1 =~= "    "@ + name + ":"@ + nl);
    let p1 = "    "@ + name + ":\n      rule: \"Host(`"@ + host;
    assert(p1 =~= u1 + open + host);
    let p2 = p1 + "`)\"\n      entryPoints:\n        - websecure\n      tls: {}\n      service: "@;
    assert(p2 == u5 + lead) by {
        lemma_unlines_take(l, 1);
        lemma_unlines_take(l, 2);
        lemma_unlines_take(l, 3);
        lemma_unlines_take(l, 4);
        assert(u5 =~= u1 + open + host + shut + nl + points + nl + "        - websecure"@ + nl
            + "      tls: {}"@ + nl);
        assert(p2 =~= u1 + open + host + shut + nl + points + nl + "        - websecure"@ + nl
            + "      tls: {}"@ + nl + lead);
    }
    lemma_unlines_take(l, 5);
    assert(l.take(6) =~= l);
    assert(p2 + name + nl =~= unlines(l));
}

/// The text of a redirecting twin is that of its lines.
#[verifier::spinoff_prover]
#[verifier::rlimit(40)]
proof fn lemma_twin_lines(name: Seq<char>, host: Seq<char>)
    ensures
        unlines(twin_lines(name, host)) == "    "@ + name + "-http:\n      rule: \"Host(`"@ + host
            + "`)\"\n      entryPoints:\n        - web\n      middlewares:\n        - henk-https-redirect\n      service: "@
            + name + seq!['\n'],
{
    let nl = seq!['\n'];
    let open = "      rule: \"Host(`"@;
    let shut = "`)\""@;
    let points = "      entryPoints:"@;
    let lead = "      service: "@;
    let l = twin_lines(name, host);
    lemma_router_pieces();
    assert(l.take(0) =~= Seq::<Seq<char>>::empty());
    let u0 = unlines(l.take(0));
    let u1 = unlines(l.take(1));
    let u6 = unlines(l.take(6));
    assert(u0 =~= Seq::<char>::empty());
    lemma_unlines_take(l, 0);
    assert(u1 =~= "    "@ + name + "-http:"@ + nl);
    let p1 = "    "@ + name + "-http:\n      rule: \"Host(`"@ + host;
    assert(p1 =~= u1 + open + host);
    let p2 = p1
        + "`)\"\n      entryPoints:\n        - web\n      middlewares:\n        - henk-https-redirect\n      service: "@;
    assert(p2 == u6 + lead) by {
        lemma_unlines_take(l, 1);
        lemma_unlines_take(l, 2);
        lemma_unlines_take(l, 3);
        lemma_unlines_take(l, 4);
        lemma_unlines_take(l, 5);
        assert(u6 =~= u1 + open + host + shut + nl + points + nl + "        - web"@ + nl
            + "      middlewares:"@ + nl + "        - henk-https-redirect"@ + nl);
        assert(p2 =~= u1 + open + host + shut + nl + points + nl + "        - web"@ + nl
            + "      middlewares:"@ + nl + "        - henk-https-redirect"@ + nl + lead);
    }
    lemma_unlines_take(l, 6);
    assert(l.take(7) =~= l);
    assert(p2 + name + nl =~= unlines(l));
}

/// The text of a host's routers is that of their lines.
#[verifier::spinoff_prover]
#[verifier::rlimit(40)]
proof fn lemma_routers_are_lines(name: Seq<char>, host: Seq<char>)
    ensures
        routers_text(name, host) == unlines(router_lines(name, host)),
{
    let nl = seq!['\n'];
    lemma_router_pieces();
    lemma_real_lines(name, host);
    lemma_twin_lines(name, host);
    lemma_unlines_add(real_lines(name, host), twin_lines(name, host));
    let p = "    "@ + name + ":\n      rule: \"Host(`"@ + host
        + "`)\"\n      entryPoints:\n        - websecure\n      tls: {}\n      service: "@ + name;
    let q = "-http:\n      rule: \"Host(`"@;
    let r =
        "`)\"\n      entryPoints:\n        - web\n      middlewares:\n        - henk-https-redirect\n      service: "@;
    assert(p + (nl + "    "@) + name + q + host + r + name + nl =~= (p + nl) + ("    "@ + name + q
        + host + r + name + nl));
}

/// The text of a failover is that of its lines.
#[verifier::spinoff_prover]
#[verifier::rlimit(40)]
proof fn lemma_failover_lines(name: Seq<char>)
    ensures
        unlines(failover_lines(name)) + "    "@ == "    "@ + name
            + ":\n      failover:\n        service: "@ + name
            + "-main\n        fallback: henk-error-pages\n    "@,
{
    let nl = seq!['\n'];
    let l = failover_lines(name);
    lemma_service_pieces();
    assert(l.take(0) =~= Seq::<Seq<char>>::empty());
    assert(unlines(l.take(0)) =~= Seq::<char>::empty());
    let u2 = unlines(l.take(2));
    lemma_unlines_take(l, 0);
    lemma_unlines_take(l, 1);
    assert(u2 =~= "    "@ + name + ":"@ + nl + "      failover:"@ + nl);
    let p1 = "    "@ + name + ":\n      failover:\n        service: "@;
    assert(p1 =~= u2 + "        service: "@);
    lemma_unlines_take(l, 2);
    lemma_unlines_take(l, 3);
    assert(l.take(4) =~= l);
    assert(unlines(l) =~= u2 + "        service: "@ + name + "-main"@ + nl
        + "        fallback: henk-error-pages"@ + nl);
    assert(p1 + name + "-main\n        fallback: henk-error-pages\n    "@ =~= u2
        + "        service: "@ + name + "-main"@ + nl + "        fallback: henk-error-pages"@ + nl
        + "    "@);
}

/// The text of a primary is that of its lines.
#[verifier::spinoff_prover]
#[verifier::rlimit(40)]
proof fn lemma_primary_lines(name: Seq<char>, url: Seq<char>)
    ensures
        unlines(primary_lines(name, url)) == "    "@ + name
            + "-main:\n      loadBalancer:\n        healthCheck:\n          path: /\n        servers:\n          - url: \""@
            + url + "\"\n"@,
{
    let nl = seq!['\n'];
    let l = primary_lines(name, url);
    lemma_service_pieces();
    assert(l.take(0) =~= Seq::<Seq<char>>::empty());
    assert(unlines(l.take(0)) =~= Seq::<char>::empty());
    let u3 = unlines(l.take(3));
    let u5 = unlines(l.take(5));
    let front = "-main:"@ + nl + "      loadBalancer:"@ + nl + "        healthCheck:"@ + nl;
    let back = "          path: /"@ + nl + "        servers:"@ + nl + "          - url: \""@;
    let whole =
        "-main:\n      loadBalancer:\n        healthCheck:\n          path: /\n        servers:\n          - url: \""@;
    assert(whole =~= front + back);
    assert(u3 =~= "    "@ + name + front) by {
        lemma_unlines_take(l, 0);
        lemma_unlines_take(l, 1);
        lemma_unlines_take(l, 2);
    }
    assert(u3 + back =~= u5 + "          - url: \""@) by {
        lemma_unlines_take(l, 3);
        lemma_unlines_take(l, 4);
    }
    let p1 = "    "@ + name + whole;
    assert(p1 =~= "    "@ + name + front + back);
    lemma_unlines_take(l, 5);
    assert(l.take(6) =~= l);
    assert(p1 + url + "\"\n"@ =~= unlines(l));
}

/// The text of a host's services is that of their lines.
#[verifier::spinoff_prover]
#[verifier::rlimit(40)]
proof fn lemma_services_are_lines(name: Seq<char>, url: Seq<char>)
    ensures
        services_text(name, url) == unlines(service_lines(name, url)),
{
    lemma_failover_lines(name);
    lemma_primary_lines(name, url);
    lemma_unlines_add(failover_lines(name), primary_lines(name, url));
    let p = unlines(failover_lines(name));
    let q =
        "-main:\n      loadBalancer:\n        healthCheck:\n          path: /\n        servers:\n          - url: \""@;
    assert(p + "    "@ + name + q + url + "\"\n"@ =~= p + ("    "@ + name + q + url + "\"\n"@));
}

/// The lines of the routers of a list of hosts.
spec fn router_list(slug: Seq<char>, hosts: Seq<HostView>) -> Seq<Seq<char>>
    decreases hosts.len(),
{
    if hosts.len() == 0 {
        seq![]
    } else {
        router_list(slug, hosts.drop_last()) + router_lines(
            router_name(slug, hosts.len() - 1),
            hosts.last().host,
        )
    }
}

/// The lines of the services of a list of hosts.
spec fn service_list(slug: Seq<char>, hosts: Seq<HostView>) -> Seq<Seq<char>>
    decreases hosts.len(),
{
    if hosts.len() == 0 {
        seq![]
    } else {
        service_list(slug, hosts.drop_last()) + service_lines(
            router_name(slug, hosts.len() - 1),
            backend_url(hosts.last()),
        )
    }
}

/// The lines of an entry.
spec fn entry_list(m: ManifestView) -> Seq<Seq<char>> {
    seq![HENK_FILE_HEADER@, "http:"@, "  routers:"@] + router_list(m.slug, m.hosts) + seq![
        "  services:"@,
    ] + service_list(m.slug, m.hosts)
}

/// The texts of the routers and services are those of their lines.
proof fn lemma_lists_are_lines(slug: Seq<char>, hosts: Seq<HostView>)
    ensures
        all_routers(slug, hosts) == unlines(router_list(slug, hosts)),
        all_services(slug, hosts) == unlines(service_list(slug, hosts)),
    decreases hosts.len(),
{
    if hosts.len() > 0 {
        let before = hosts.drop_last();
        let name = router_name(slug, hosts.len() - 1);
        lemma_lists_are_lines(slug, before);
        lemma_routers_are_lines(name, hosts.last().host);
        lemma_services_are_lines(name, backend_url(hosts.last()));
        lemma_unlines_add(router_list(slug, before), router_lines(name, hosts.last().host));
        lemma_unlines_add(
            service_list(slug, before),
            service_lines(name, backend_url(hosts.last())),
        );
    }
}

/// The text of an entry is that of its lines.
proof fn lemma_entry_is_lines(m: ManifestView)
    ensures
        entry_text(m) == unlines(entry_list(m)),
{
    let nl = seq!['\n'];
    let head = seq![HENK_FILE_HEADER@, "http:"@, "  routers:"@];
    let mid = seq!["  services:"@];
    let routers = router_list(m.slug, m.hosts);
    let services = service_list(m.slug, m.hosts);
    lemma_lists_are_lines(m.slug, m.hosts);
    lemma_unlines_add(head, routers);
    lemma_unlines_add(head + routers, mid);
    lemma_unlines_add(head + routers + mid, services);
    assert(head.take(0) =~= Seq::<Seq<char>>::empty());
    assert(unlines(head.take(0)) =~= Seq::<char>::empty());
    lemma_unlines_take(head, 0);
    lemma_unlines_take(head, 1);
    lemma_unlines_take(head, 2);
    assert(head.take(3) =~= head);
    assert(mid.take(0) =~= Seq::<Seq<char>>::empty());
    assert(unlines(mid.take(0)) =~= Seq::<char>::empty());
    lemma_unlines_take(mid, 0);
    assert(mid.take(1) =~= mid);
    assert("\nhttp:\n  routers:\n"@ =~= nl + "http:"@ + nl + "  routers:"@ + nl) by {
        reveal_strlit("\nhttp:\n  routers:\n");
        reveal_strlit("http:");
        reveal_strlit("  routers:");
    }
    assert("  services:\n"@ =~= "  services:"@ + nl) by {
        reveal_strlit("  services:\n");
        reveal_strlit("  services:");
    }
    assert(unlines(head) =~= HENK_FILE_HEADER@ + "\nhttp:\n  routers:\n"@);
    assert(unlines(mid) =~= "  services:\n"@);
}

/// Where the lines of each host stand.
proof fn lemma_list_index(slug: Seq<char>, hosts: Seq<HostView>, i: int, k: int)
    ensures
        router_list(slug, hosts).len() == 13 * hosts.len(),
        service_list(slug, hosts).len() == 10 * hosts.len(),
        0 <= i < hosts.len() && 0 <= k < 13 ==> router_list(slug, hosts)[13 * i + k]
            == router_lines(router_name(slug, i), hosts[i].host)[k],
        0 <= i < hosts.len() && 0 <= k < 10 ==> service_list(slug, hosts)[10 * i + k]
            == service_lines(router_name(slug, i), backend_url(hosts[i]))[k],
    decreases hosts.len(),
{
    if hosts.len() > 0 {
        let before = hosts.drop_last();
        lemma_list_index(slug, before, i, k);
        if 0 <= i < before.len() {
            assert(before[i] == hosts[i]);
        }
    }
}

/// Neither the slug nor a host nor a backend holds a line break, and the slug
/// begins with something else than a blank.
pub open spec fn writable(m: ManifestView) -> bool {
    &&& !m.slug.contains('\n')
    &&& m.slug.len() > 0 ==> m.slug[0] != ' '
    &&& forall|i: int|
        0 <= i < m.hosts.len() ==> !(#[trigger] m.hosts[i]).host.contains('\n') && !backend_url(
            m.hosts[i],
        ).contains('\n')
}

/// Two texts without a line break hold none together.
proof fn lemma_no_break(a: Seq<char>, b: Seq<char>)
    requires
        !a.contains('\n'),
        !b.contains('\n'),
    ensures
        !(a + b).contains('\n'),
{
    assert forall|j: int| 0 <= j < (a + b).len() implies (a + b)[j] != '\n' by {
        if j < a.len() {
            assert(a.contains(a[j]));
        } else {
            assert(b.contains(b[j - a.len()]));
        }
    }
}

/// A router name holds no line break and begins with no blank.
proof fn lemma_name_plain(slug: Seq<char>, i: int)
    requires
        i >= 0,
        !slug.contains('\n'),
        slug.len() > 0 ==> slug[0] != ' ',
    ensures
        !router_name(slug, i).contains('\n'),
        router_name(slug, i).len() > 0 ==> router_name(slug, i)[0] != ' ',
{
    reveal_strlit("-");
    if i > 0 {
        let d = decimal((i + 1) as nat);
        lemma_decimal((i + 1) as nat);
        assert forall|j: int| 0 <= j < d.len() implies d[j] != '\n' by {
            assert(is_digit(d[j]));
        }
        lemma_no_break(slug, "-"@);
        lemma_no_break(slug + "-"@, d);
        assert(router_name(slug, i)[0] == (slug + "-"@)[0]);
    }
}

/// The indentation of a router's lines, and that none holds a line break.
proof fn lemma_router_indents(name: Seq<char>, host: Seq<char>, k: int)
    requires
        0 <= k < 13,
        !name.contains('\n'),
        name.len() > 0 ==> name[0] != ' ',
        !host.contains('\n'),
    ensures
        ({
            let l = router_lines(name, host);
            &&& !l[k].contains('\n')
            &&& indent_of(l[k]) == (if k == 0 || k == 6 {
                4int
            } else if k == 3 || k == 9 || k == 11 {
                8int
            } else {
                6int
            })
        }),
{
    let l = router_lines(name, host);
    reveal_strlit("    ");
    reveal_strlit(":");
    reveal_strlit("      rule: \"Host(`");
    reveal_strlit("`)\"");
    reveal_strlit("      entryPoints:");
    reveal_strlit("        - websecure");
    reveal_strlit("      tls: {}");
    reveal_strlit("      service: ");
    reveal_strlit("-http:");
    reveal_strlit("        - web");
    reveal_strlit("      middlewares:");
    reveal_strlit("        - henk-https-redirect");
    lemma_no_break("    "@, name);
    lemma_no_break("    "@ + name, ":"@);
    lemma_no_break("    "@ + name, "-http:"@);
    lemma_no_break("      rule: \"Host(`"@, host);
    lemma_no_break("      rule: \"Host(`"@ + host, "`)\""@);
    lemma_no_break("      service: "@, name);
    if k == 0 || k == 6 {
        lemma_indent(l[k], 4);
    } else if k == 3 || k == 9 || k == 11 {
        lemma_indent(l[k], 8);
    } else {
        lemma_indent(l[k], 6);
    }
}

/// The indentation of a service's lines, and that none holds a line break.
proof fn lemma_service_indents(name: Seq<char>, url: Seq<char>, k: int)
    requires
        0 <= k < 10,
        !name.contains('\n'),
        name.len() > 0 ==> name[0] != ' ',
        !url.contains('\n'),
    ensures
        ({
            let l = service_lines(name, url);
            &&& !l[k].contains('\n')
            &&& indent_of(l[k]) == (if k == 0 || k == 4 {
                4int
            } else if k == 1 || k == 5 {
                6int
            } else if k == 7 || k == 9 {
                10int
            } else {
                8int
            })
        }),
{
    let l = service_lines(name, url);
    reveal_strlit("    ");
    reveal_strlit(":");
    reveal_strlit("      failover:");
    reveal_strlit("        service: ");
    reveal_strlit("-main");
    reveal_strlit("        fallback: henk-error-pages");
    reveal_strlit("-main:");
    reveal_strlit("      loadBalancer:");
    reveal_strlit("        healthCheck:");
    reveal_strlit("          path: /");
    reveal_strlit("        servers:");
    reveal_strlit("          - url: \"");
    reveal_strlit("\"");
    lemma_no_break("    "@, name);
    lemma_no_break("    "@ + name, ":"@);
    lemma_no_break("    "@ + name, "-main:"@);
    lemma_no_break("        service: "@, name);
    lemma_no_break("        service: "@ + name, "-main"@);
    lemma_no_break("          - url: \""@, url);
    lemma_no_break("          - url: \""@ + url, "\""@);
    if k == 0 || k == 4 {
        lemma_indent(l[k], 4);
    } else if k == 1 || k == 5 {
        lemma_indent(l[k], 6);
    } else if k == 7 || k == 9 {
        lemma_indent(l[k], 10);
    } else {
        lemma_indent(l[k], 8);
    }
}

/// The lines of an entry, one by one.
proof fn lemma_entry_line(m: ManifestView, i: int, k: int)
    requires
        writable(m),
    ensures
        ({
            let lines = entry_list(m);
            let n = m.hosts.len() as int;
            &&& lines.len() == 4 + 23 * n
            &&& lines[0] == HENK_FILE_HEADER@ && indent_of(lines[0]) == 0
            &&& lines[1] == "http:"@ && indent_of(lines[1]) == 0
            &&& lines[2] == "  routers:"@ && indent_of(lines[2]) == 2
            &&& lines[3 + 13 * n] == "  services:"@ && indent_of(lines[3 + 13 * n]) == 2
            &&& 0 <= i < n && 0 <= k < 13 ==> lines[3 + 13 * i + k] == router_lines(
                router_name(m.slug, i),
                m.hosts[i].host,
            )[k] && indent_of(lines[3 + 13 * i + k]) == (if k == 0 || k == 6 {
                4int
            } else if k == 3 || k == 9 || k == 11 {
                8int
            } else {
                6int
            })
            &&& 0 <= i < n && 0 <= k < 10 ==> lines[4 + 13 * n + 10 * i + k] == service_lines(
                router_name(m.slug, i),
                backend_url(m.hosts[i]),
            )[k] && indent_of(lines[4 + 13 * n + 10 * i + k]) == (if k == 0 || k == 4 {
                4int
            } else if k == 1 || k == 5 {
                6int
            } else if k == 7 || k == 9 {
                10int
            } else {
                8int
            })
        }),
{
    let lines = entry_list(m);
    let n = m.hosts.len() as int;
    lemma_list_index(m.slug, m.hosts, i, k);
    reveal_strlit("# managed by henk — see https://github.com/fivespark/henk");
    reveal_strlit("http:");
    reveal_strlit("  routers:");
    reveal_strlit("  services:");
    lemma_indent(HENK_FILE_HEADER@, 0);
    lemma_indent("http:"@, 0);
    lemma_indent("  routers:"@, 2);
    lemma_indent("  services:"@, 2);
    if 0 <= i < n {
        lemma_name_plain(m.slug, i);
        if 0 <= k < 13 {
            lemma_router_indents(router_name(m.slug, i), m.hosts[i].host, k);
            assert(lines[3 + 13 * i + k] == router_list(m.slug, m.hosts)[13 * i + k]);
        }
        if 0 <= k < 10 {
            lemma_service_indents(router_name(m.slug, i), backend_url(m.hosts[i]), k);
            assert(lines[4 + 13 * n + 10 * i + k] == service_list(m.slug, m.hosts)[10 * i + k]);
        }
    }
}

/// Splitting an entry gives its lines.
proof fn lemma_entry_splits(m: ManifestView)
    requires
        writable(m),
    ensures
        split_of(entry_text(m), '\n') == entry_list(m).push(Seq::<char>::empty()),
{
    let lines = entry_list(m);
    let n = m.hosts.len() as int;
    lemma_entry_is_lines(m);
    lemma_entry_line(m, 0, 0);
    assert forall|j: int| 0 <= j < lines.len() implies !(#[trigger] lines[j]).contains('\n') by {
        if j < 3 || j == 3 + 13 * n {
            reveal_strlit("# managed by henk — see https://github.com/fivespark/henk");
            reveal_strlit("http:");
            reveal_strlit("  routers:");
            reveal_strlit("  services:");
        } else if j < 3 + 13 * n {
            let i = (j - 3) / 13;
            let k = (j - 3) % 13;
            lemma_entry_line(m, i, k);
            lemma_name_plain(m.slug, i);
            lemma_router_indents(router_name(m.slug, i), m.hosts[i].host, k);
        } else {
            let i = (j - 4 - 13 * n) / 10;
            let k = (j - 4 - 13 * n) % 10;
            lemma_entry_line(m, i, k);
            lemma_name_plain(m.slug, i);
            lemma_service_indents(router_name(m.slug, i), backend_url(m.hosts[i]), k);
        }
    }
    lemma_split_unlines(lines);
}

/// Everything between the two section heads is indented deeper than they are,
/// and so is everything behind the second one.
proof fn lemma_zones(m: ManifestView, x: int)
    requires
        writable(m),
    ensures
        ({
            let lines = split_of(entry_text(m), '\n');
            let n = m.hosts.len() as int;
            &&& lines.len() == 5 + 23 * n
            &&& lines[2] == "  routers:"@ && indent_of(lines[2]) == 2
            &&& lines[3 + 13 * n] == "  services:"@ && indent_of(lines[3 + 13 * n]) == 2
            &&& 3 <= x < 3 + 13 * n ==> indent_of(lines[x]) >= 4
            &&& 3 + 13 * n < x < 4 + 23 * n ==> indent_of(lines[x]) >= 4
            &&& 0 <= x < 2 || x == 4 + 23 * n ==> indent_of(lines[x]) == 0
        }),
{
    let n = m.hosts.len() as int;
    lemma_entry_splits(m);
    lemma_entry_line(m, 0, 0);
    if 3 <= x < 3 + 13 * n {
        lemma_entry_line(m, (x - 3) / 13, (x - 3) % 13);
    } else if 3 + 13 * n < x < 4 + 23 * n {
        lemma_entry_line(m, (x - 4 - 13 * n) / 10, (x - 4 - 13 * n) % 10);
    } else if x == 4 + 23 * n {
        lemma_indent(Seq::<char>::empty(), 0);
    }
}

/// The lines of the `i`-th host's routers and services, as they stand in the
/// entry.
proof fn lemma_line(m: ManifestView, i: int, k: int)
    requires
        writable(m),
        0 <= i < m.hosts.len(),
    ensures
        ({
            let lines = split_of(entry_text(m), '\n');
            let n = m.hosts.len() as int;
            let name = router_name(m.slug, i);
            &&& 0 <= k < 13 ==> lines[3 + 13 * i + k] == router_lines(name, m.hosts[i].host)[k]
                && indent_of(lines[3 + 13 * i + k]) == (if k == 0 || k == 6 {
                4int
            } else if k == 3 || k == 9 || k == 11 {
                8int
            } else {
                6int
            })
            &&& 0 <= k < 10 ==> lines[4 + 13 * n + 10 * i + k] == service_lines(
                name,
                backend_url(m.hosts[i]),
            )[k] && indent_of(lines[4 + 13 * n + 10 * i + k]) == (if k == 0 || k == 4 {
                4int
            } else if k == 1 || k == 5 {
                6int
            } else if k == 7 || k == 9 {
                10int
            } else {
                8int
            })
        }),
{
    lemma_entry_splits(m);
    lemma_entry_line(m, i, k);
}

/// How far the blocks of a host's two routers reach.
proof fn lemma_router_blocks(m: ManifestView, i: int, j: int)
    requires
        writable(m),
        0 <= i < m.hosts.len(),
    ensures
        ({
            let lines = split_of(entry_text(m), '\n');
            let r = 3 + 13 * i;
            &&& in_block(lines, r, j) <==> r < j <= r + 5
            &&& in_block(lines, r + 6, j) <==> r + 6 < j <= r + 12
            &&& in_block(lines, 2, r)
            &&& in_block(lines, 2, r + 6)
            &&& in_block(lines, r + 2, r + 3)
            &&& in_block(lines, r + 8, r + 9)
            &&& in_block(lines, r + 10, r + 11)
        }),
{
    let lines = split_of(entry_text(m), '\n');
    let n = m.hosts.len() as int;
    let r = 3 + 13 * i;
    lemma_zones(m, r);
    lemma_line(m, i, 0);
    lemma_line(m, i, 1);
    lemma_line(m, i, 2);
    lemma_line(m, i, 3);
    lemma_line(m, i, 4);
    lemma_line(m, i, 5);
    lemma_line(m, i, 6);
    lemma_line(m, i, 7);
    lemma_line(m, i, 8);
    lemma_line(m, i, 9);
    lemma_line(m, i, 10);
    lemma_line(m, i, 11);
    lemma_line(m, i, 12);
    if i + 1 < n {
        lemma_line(m, i + 1, 0);
    }
    assert(indent_of(lines[r + 13]) <= 4);
    assert forall|x: int| 2 < x <= r + 6 implies indent_of(#[trigger] lines[x]) > indent_of(
        lines[2],
    ) by {
        lemma_zones(m, x);
    }
    if in_block(lines, r, j) && j > r + 5 {
        assert(indent_of(lines[r + 6]) > indent_of(lines[r]));
    }
    if in_block(lines, r + 6, j) && j > r + 12 {
        assert(indent_of(lines[r + 13]) > indent_of(lines[r + 6]));
    }
    if r < j <= r + 5 {
        assert forall|x: int| r < x <= j implies indent_of(#[trigger] lines[x]) > indent_of(
            lines[r],
        ) by {
            assert(x == r + 1 || x == r + 2 || x == r + 3 || x == r + 4 || x == r + 5);
        }
    }
    if r + 6 < j <= r + 12 {
        assert forall|x: int| r + 6 < x <= j implies indent_of(#[trigger] lines[x]) > indent_of(
            lines[r + 6],
        ) by {
            assert(x == r + 7 || x == r + 8 || x == r + 9 || x == r + 10 || x == r + 11 || x == r
                + 12);
        }
    }
}

/// How far the blocks of a host's two services reach.
proof fn lemma_service_blocks(m: ManifestView, i: int)
    requires
        writable(m),
        0 <= i < m.hosts.len(),
    ensures
        ({
            let lines = split_of(entry_text(m), '\n');
            let s = 3 + 13 * m.hosts.len() as int;
            let f = s + 1 + 10 * i;
            &&& in_block(lines, s, f)
            &&& in_block(lines, s, f + 4)
            &&& in_block(lines, f, f + 1)
            &&& in_block(lines, f + 1, f + 2)
            &&& in_block(lines, f + 1, f + 3)
            &&& in_block(lines, f + 4, f + 6)
            &&& in_block(lines, f + 6, f + 7)
            &&& in_block(lines, f + 4, f + 8)
            &&& in_block(lines, f + 8, f + 9)
        }),
{
    let lines = split_of(entry_text(m), '\n');
    let s = 3 + 13 * m.hosts.len() as int;
    let f = s + 1 + 10 * i;
    lemma_zones(m, f);
    lemma_line(m, i, 0);
    lemma_line(m, i, 1);
    lemma_line(m, i, 2);
    lemma_line(m, i, 3);
    lemma_line(m, i, 4);
    lemma_line(m, i, 5);
    lemma_line(m, i, 6);
    lemma_line(m, i, 7);
    lemma_line(m, i, 8);
    lemma_line(m, i, 9);
    assert forall|x: int| s < x <= f + 9 implies indent_of(#[trigger] lines[x]) > indent_of(
        lines[s],
    ) by {
        lemma_zones(m, x);
    }
    assert forall|x: int| f + 4 < x <= f + 8 implies indent_of(#[trigger] lines[x]) > indent_of(
        lines[f + 4],
    ) by {
        assert(x == f + 5 || x == f + 6 || x == f + 7 || x == f + 8);
    }
    assert forall|x: int| f + 1 < x <= f + 3 implies indent_of(#[trigger] lines[x]) > indent_of(
        lines[f + 1],
    ) by {
        assert(x == f + 2 || x == f + 3);
    }
}

/// A rule names one host.
proof fn lemma_rule_host(a: Seq<char>, b: Seq<char>)
    requires
        "      rule: \"Host(`"@ + a + "`)\""@ == "      rule: \"Host(`"@ + b + "`)\""@,
    ensures
        a == b,
{
    let open = "      rule: \"Host(`"@;
    let shut = "`)\""@;
    let x = open + a + shut;
    let y = open + b + shut;
    assert(x.len() == y.len());
    assert(a =~= x.subrange(open.len() as int, open.len() as int + a.len()));
    assert(b =~= y.subrange(open.len() as int, open.len() as int + b.len()));
}

/// The lines of routers that are no rule differ from every rule, and the items
/// of the two routers differ.
proof fn lemma_router_lines_differ(name: Seq<char>, host: Seq<char>)
    ensures
        ({
            let rule = "      rule: \"Host(`"@ + host + "`)\""@;
            let web = "        - web"@;
            let secure = "        - websecure"@;
            let mids = "      middlewares:"@;
            let lead = "      service: "@ + name;
            let points = "      entryPoints:"@;
            let tls = "      tls: {}"@;
            let redirect = "        - henk-https-redirect"@;
            &&& rule != points && rule != secure && rule != tls && rule != lead && rule != web
                && rule != mids && rule != redirect
            &&& web != rule && web != points && web != secure && web != tls && web != lead
            &&& mids != rule && mids != points && mids != secure && mids != tls && mids != lead
            &&& redirect != rule && redirect != points && redirect != secure && redirect != tls
                && redirect != lead
            &&& secure != mids && secure != redirect && secure != points && secure != lead
        }),
{
    let rule = "      rule: \"Host(`"@ + host + "`)\""@;
    let lead = "      service: "@ + name;
    reveal_strlit("      rule: \"Host(`");
    reveal_strlit("      entryPoints:");
    reveal_strlit("        - websecure");
    reveal_strlit("      tls: {}");
    reveal_strlit("      service: ");
    reveal_strlit("        - web");
    reveal_strlit("      middlewares:");
    reveal_strlit("        - henk-https-redirect");
    assert(rule[6] == 'r');
    assert(lead[6] == 's');
    assert("      entryPoints:"@[6] == 'e');
    assert("      tls: {}"@[6] == 't');
    assert("      middlewares:"@[6] == 'm');
    assert("        - websecure"@[6] == ' ');
    assert("        - web"@[6] == ' ');
    assert("        - henk-https-redirect"@[6] == ' ');
    assert("        - henk-https-redirect"@[10] == 'h');
    assert("        - websecure"@[10] == 'w');
    assert("        - web"@.len() != "        - websecure"@.len());
}

/// Only the two routers of a host carry its rule.
proof fn lemma_only_two_routers(m: ManifestView, i: int, k: int)
    requires
        writable(m),
        0 <= i < m.hosts.len(),
        forall|j: int|
            0 <= j < m.hosts.len() && j != i ==> (#[trigger] m.hosts[j]).host != m.hosts[i].host,
        opens_entry(split_of(entry_text(m), '\n'), "  routers:"@, k),
        block_holds(
            split_of(entry_text(m), '\n'),
            k,
            "      rule: \"Host(`"@ + m.hosts[i].host + "`)\""@,
        ),
    ensures
        k == 3 + 13 * i || k == 9 + 13 * i,
{
    let lines = split_of(entry_text(m), '\n');
    let rule = "      rule: \"Host(`"@ + m.hosts[i].host + "`)\""@;
    let q = lemma_router_head(m, k);
    let j = choose|j: int| #[trigger] in_block(lines, k, j) && lines[j] == rule;
    lemma_router_blocks(m, q, j);
    let d = j - 3 - 13 * q;
    lemma_line(m, q, d);
    lemma_router_lines_differ(router_name(m.slug, q), m.hosts[i].host);
    assert(lines[j] == router_lines(router_name(m.slug, q), m.hosts[q].host)[d]);
    assert(d == 1 || d == 7);
    lemma_rule_host(m.hosts[q].host, m.hosts[i].host);
    assert(q == i);
}

/// Every host has two routers and no more. Both match its rule. The real one
/// listens on `websecure` alone, with TLS and without a middleware; its twin
/// listens on `web` alone and redirects to https. (Hosts that occur twice would
/// have twice as many.)
pub proof fn law_every_host_has_two_routers(m: ManifestView, i: int) -> (found: (int, int))
    requires
        writable(m),
        0 <= i < m.hosts.len(),
        forall|j: int|
            0 <= j < m.hosts.len() && j != i ==> (#[trigger] m.hosts[j]).host != m.hosts[i].host,
    ensures
        ({
            let lines = split_of(entry_text(m), '\n');
            let rule = "      rule: \"Host(`"@ + m.hosts[i].host + "`)\""@;
            let (own, twin) = found;
            &&& own != twin
            &&& opens_entry(lines, "  routers:"@, own)
            &&& opens_entry(lines, "  routers:"@, twin)
            &&& block_holds(lines, own, rule)
            &&& block_holds(lines, twin, rule)
            &&& forall|k: int|
                #![trigger block_holds(lines, k, rule)]
                opens_entry(lines, "  routers:"@, k) && block_holds(lines, k, rule) ==> k == own
                    || k == twin
            &&& nested(lines, own, "      entryPoints:"@, "        - websecure"@)
            &&& !block_holds(lines, own, "        - web"@)
            &&& block_holds(lines, own, "      tls: {}"@)
            &&& !block_holds(lines, own, "      middlewares:"@)
            &&& !block_holds(lines, own, "        - henk-https-redirect"@)
            &&& nested(lines, twin, "      entryPoints:"@, "        - web"@)
            &&& !block_holds(lines, twin, "        - websecure"@)
            &&& nested(lines, twin, "      middlewares:"@, "        - henk-https-redirect"@)
        }),
{
    let lines = split_of(entry_text(m), '\n');
    let host = m.hosts[i].host;
    let name = router_name(m.slug, i);
    let rule = "      rule: \"Host(`"@ + host + "`)\""@;
    let r = 3 + 13 * i;
    let t = r + 6;
    lemma_zones(m, r);
    lemma_line(m, i, 0);
    lemma_line(m, i, 1);
    lemma_line(m, i, 2);
    lemma_line(m, i, 3);
    lemma_line(m, i, 4);
    lemma_line(m, i, 6);
    lemma_line(m, i, 7);
    lemma_line(m, i, 8);
    lemma_line(m, i, 9);
    lemma_line(m, i, 10);
    lemma_line(m, i, 11);
    lemma_router_blocks(m, i, r + 1);
    lemma_router_blocks(m, i, r + 2);
    lemma_router_blocks(m, i, r + 4);
    lemma_router_blocks(m, i, t + 1);
    lemma_router_blocks(m, i, t + 2);
    lemma_router_blocks(m, i, t + 4);
    lemma_router_lines_differ(name, host);
    assert(block_holds(lines, r + 2, "        - websecure"@));
    assert(block_holds(lines, t + 2, "        - web"@));
    assert(block_holds(lines, t + 4, "        - henk-https-redirect"@));
    assert forall|k: int|
        #![trigger block_holds(lines, k, rule)]
        opens_entry(lines, "  routers:"@, k) && block_holds(lines, k, rule) implies k == r || k
        == t by {
        lemma_only_two_routers(m, i, k);
    }
    assert forall|j: int| #[trigger] in_block(lines, r, j) implies lines[j] != "        - web"@
        && lines[j] != "      middlewares:"@ && lines[j] != "        - henk-https-redirect"@ by {
        lemma_router_blocks(m, i, j);
        lemma_line(m, i, j - r);
        assert(lines[j] == router_lines(name, host)[j - r]);
    }
    assert forall|j: int| #[trigger] in_block(lines, t, j) implies lines[j]
        != "        - websecure"@ by {
        lemma_router_blocks(m, i, j);
        lemma_line(m, i, j - r);
        assert(lines[j] == router_lines(name, host)[j - r]);
    }
    (r, t)
}

/// The real router of a host leads to a service which fails over, from a primary
/// whose health is checked and whose only server is the host's backend, to the
/// error pages.
pub proof fn law_real_router_leads_to_the_backend(m: ManifestView, i: int) -> (found: (
    int,
    int,
    int,
    Seq<char>,
    Seq<char>,
))
    requires
        writable(m),
        0 <= i < m.hosts.len(),
    ensures
        ({
            let lines = split_of(entry_text(m), '\n');
            let rule = "      rule: \"Host(`"@ + m.hosts[i].host + "`)\""@;
            let (router, fail, main, service, primary) = found;
            &&& opens_entry(lines, "  routers:"@, router)
            &&& block_holds(lines, router, rule)
            &&& nested(lines, router, "      entryPoints:"@, "        - websecure"@)
            &&& block_holds(lines, router, "      service: "@ + service)
            &&& opens_entry(lines, "  services:"@, fail)
            &&& lines[fail] == "    "@ + service + ":"@
            &&& nested(lines, fail, "      failover:"@, "        service: "@ + primary)
            &&& nested(lines, fail, "      failover:"@, "        fallback: henk-error-pages"@)
            &&& opens_entry(lines, "  services:"@, main)
            &&& lines[main] == "    "@ + primary + ":"@
            &&& nested(lines, main, "        healthCheck:"@, "          path: /"@)
            &&& nested(
                lines,
                main,
                "        servers:"@,
                "          - url: \""@ + backend_url(m.hosts[i]) + "\""@,
            )
        }),
{
    let lines = split_of(entry_text(m), '\n');
    let name = router_name(m.slug, i);
    let main = name + "-main"@;
    let r = 3 + 13 * i;
    let s = 3 + 13 * m.hosts.len() as int;
    let f = s + 1 + 10 * i;
    lemma_zones(m, r);
    lemma_line(m, i, 0);
    lemma_line(m, i, 1);
    lemma_line(m, i, 2);
    lemma_line(m, i, 3);
    lemma_line(m, i, 4);
    lemma_line(m, i, 5);
    lemma_line(m, i, 6);
    lemma_line(m, i, 7);
    lemma_line(m, i, 8);
    lemma_line(m, i, 9);
    lemma_router_blocks(m, i, r + 1);
    lemma_router_blocks(m, i, r + 2);
    lemma_router_blocks(m, i, r + 5);
    lemma_service_blocks(m, i);
    assert(block_holds(lines, r + 2, "        - websecure"@));
    assert("        service: "@ + name + "-main"@ =~= "        service: "@ + main);
    assert(block_holds(lines, f + 1, "        service: "@ + main));
    assert(block_holds(lines, f + 1, "        fallback: henk-error-pages"@));
    assert("    "@ + name + "-main:"@ =~= "    "@ + main + ":"@) by {
        reveal_strlit("-main:");
        reveal_strlit("-main");
        reveal_strlit(":");
        assert("-main:"@ =~= "-main"@ + ":"@);
    }
    assert(block_holds(lines, f + 6, "          path: /"@));
    assert(block_holds(
        lines,
        f + 8,
        "          - url: \""@ + backend_url(m.hosts[i]) + "\""@,
    ));
    (r, f, f + 4, name, main)
}

/// Requests go to the target that a host names, as it is; without one, to the
/// service at its port on the proxy network. A missing service stands for the
/// host machine, and a missing port for the one of http.
pub proof fn law_backend_of_a_host(h: HostView)
    ensures
        h.target matches Some(t) ==> backend_url(h) == t,
        h.target is None && h.service is Some && h.port is Some ==> backend_url(h) == "http://"@
            + h.service->0 + ":"@ + decimal(h.port->0 as nat),
        h.target is None && h.service is Some && h.port is None ==> backend_url(h) == "http://"@
            + h.service->0 + ":"@ + decimal(80),
        h.target is None && h.service is None && h.port is Some ==> backend_url(h) == "http://"@
            + "host.docker.internal"@ + ":"@ + decimal(h.port->0 as nat),
        h.target is None && h.service is None && h.port is None ==> backend_url(h) == "http://"@
            + "host.docker.internal"@ + ":"@ + decimal(80),
{
}

/// The first router is named by the slug alone; those of further hosts are
/// numbered, the second by 2.
pub proof fn law_routers_are_numbered(slug: Seq<char>, i: int)
    requires
        i > 0,
    ensures
        router_name(slug, 0) == slug,
        router_name(slug, i) == slug + "-"@ + decimal((i + 1) as nat),
        router_name(slug, 1) == slug + "-"@ + decimal(2),
{
}

/// Where a router begins.
proof fn lemma_router_head(m: ManifestView, k: int) -> (q: int)
    requires
        writable(m),
        opens_entry(split_of(entry_text(m), '\n'), "  routers:"@, k),
    ensures
        0 <= q < m.hosts.len(),
        k == 3 + 13 * q || k == 9 + 13 * q,
{
    let lines = split_of(entry_text(m), '\n');
    let n = m.hosts.len() as int;
    reveal_strlit("  routers:");
    reveal_strlit("  services:");
    assert("  routers:"@[2] == 'r' && "  services:"@[2] == 's');
    lemma_zones(m, k);
    let s = choose|s: int| #[trigger]
        in_block(lines, s, k) && lines[s] == "  routers:"@ && indent_of(lines[k]) == indent_of(
            lines[s],
        ) + 2;
    lemma_zones(m, s);
    assert(s == 2);
    if k >= 3 + 13 * n {
        assert(indent_of(lines[3 + 13 * n]) > indent_of(lines[2]));
    }
    let q = (k - 3) / 13;
    lemma_line(m, q, (k - 3) % 13);
    q
}

/// Where a service begins.
proof fn lemma_service_head(m: ManifestView, k: int) -> (q: int)
    requires
        writable(m),
        opens_entry(split_of(entry_text(m), '\n'), "  services:"@, k),
    ensures
        0 <= q < m.hosts.len(),
        k == 4 + 13 * m.hosts.len() + 10 * q || k == 8 + 13 * m.hosts.len() + 10 * q,
{
    let lines = split_of(entry_text(m), '\n');
    let n = m.hosts.len() as int;
    reveal_strlit("  routers:");
    reveal_strlit("  services:");
    assert("  routers:"@[2] == 'r' && "  services:"@[2] == 's');
    lemma_zones(m, k);
    let s = choose|s: int| #[trigger]
        in_block(lines, s, k) && lines[s] == "  services:"@ && indent_of(lines[k]) == indent_of(
            lines[s],
        ) + 2;
    lemma_zones(m, s);
    assert(s == 3 + 13 * n);
    let q = (k - 4 - 13 * n) / 10;
    lemma_line(m, q, (k - 4 - 13 * n) % 10);
    q
}

/// Router names are numbered apart, and none ends like a twin or a primary.
proof fn lemma_names_differ(slug: Seq<char>, i: int, j: int)
    requires
        i >= 0,
        j >= 0,
    ensures
        i != j ==> router_name(slug, i) != router_name(slug, j),
        router_name(slug, i) != router_name(slug, j) + "-http"@,
        router_name(slug, i) != router_name(slug, j) + "-main"@,
{
    let a = router_name(slug, i);
    let b = router_name(slug, j);
    reveal_strlit("-");
    reveal_strlit("-http");
    reveal_strlit("-main");
    lemma_decimal((i + 1) as nat);
    lemma_decimal((j + 1) as nat);
    let c = decimal((i + 1) as nat);
    let e = decimal((j + 1) as nat);
    if i > 0 {
        assert(a.last() == c.last());
        assert(is_digit(c[c.len() - 1]));
        assert((b + "-http"@).last() == 'p');
        assert((b + "-main"@).last() == 'n');
    }
    if a == b && i > 0 && j > 0 {
        let k = slug.len() as int + 1;
        assert(a.skip(k) =~= c);
        assert(b.skip(k) =~= e);
    }
}

/// An entry names each of its routers and each of its services once: where two
/// of a section begin alike, they are the same.
pub proof fn law_names_in_an_entry_are_distinct(m: ManifestView, a: int, b: int)
    requires
        writable(m),
        split_of(entry_text(m), '\n')[a] == split_of(entry_text(m), '\n')[b],
    ensures
        opens_entry(split_of(entry_text(m), '\n'), "  routers:"@, a) && opens_entry(
            split_of(entry_text(m), '\n'),
            "  routers:"@,
            b,
        ) ==> a == b,
        opens_entry(split_of(entry_text(m), '\n'), "  services:"@, a) && opens_entry(
            split_of(entry_text(m), '\n'),
            "  services:"@,
            b,
        ) ==> a == b,
{
    let lines = split_of(entry_text(m), '\n');
    let n = m.hosts.len() as int;
    if opens_entry(lines, "  routers:"@, a) && opens_entry(lines, "  routers:"@, b) {
        let p = lemma_router_head(m, a);
        let q = lemma_router_head(m, b);
        lemma_line(m, p, a - 3 - 13 * p);
        lemma_line(m, q, b - 3 - 13 * q);
        lemma_heads_differ(m.slug, p, q, "-http"@, a == 9 + 13 * p, b == 9 + 13 * q);
        reveal_strlit("-http:");
        reveal_strlit("-http");
        reveal_strlit(":");
        assert("-http:"@ =~= "-http"@ + ":"@);
        assert("    "@ + router_name(m.slug, p) + "-http:"@ =~= "    "@ + (router_name(m.slug, p)
            + "-http"@) + ":"@);
        assert("    "@ + router_name(m.slug, q) + "-http:"@ =~= "    "@ + (router_name(m.slug, q)
            + "-http"@) + ":"@);
    }
    if opens_entry(lines, "  services:"@, a) && opens_entry(lines, "  services:"@, b) {
        let p = lemma_service_head(m, a);
        let q = lemma_service_head(m, b);
        lemma_line(m, p, a - 4 - 13 * n - 10 * p);
        lemma_line(m, q, b - 4 - 13 * n - 10 * q);
        lemma_heads_differ(
            m.slug,
            p,
            q,
            "-main"@,
            a == 8 + 13 * n + 10 * p,
            b == 8 + 13 * n + 10 * q,
        );
        reveal_strlit("-main:");
        reveal_strlit("-main");
        reveal_strlit(":");
        assert("-main:"@ =~= "-main"@ + ":"@);
        assert("    "@ + router_name(m.slug, p) + "-main:"@ =~= "    "@ + (router_name(m.slug, p)
            + "-main"@) + ":"@);
        assert("    "@ + router_name(m.slug, q) + "-main:"@ =~= "    "@ + (router_name(m.slug, q)
            + "-main"@) + ":"@);
    }
}

/// The lines with which two entries begin are the same only for one name and one
/// kind.
proof fn lemma_heads_differ(
    slug: Seq<char>,
    p: int,
    q: int,
    suffix: Seq<char>,
    first: bool,
    second: bool,
)
    requires
        p >= 0,
        q >= 0,
        suffix == "-http"@ || suffix == "-main"@,
    ensures
        ({
            let a = if first {
                router_name(slug, p) + suffix
            } else {
                router_name(slug, p)
            };
            let b = if second {
                router_name(slug, q) + suffix
            } else {
                router_name(slug, q)
            };
            "    "@ + a + ":"@ == "    "@ + b + ":"@ ==> p == q && first == second
        }),
{
    let x = router_name(slug, p);
    let y = router_name(slug, q);
    let a = if first {
        x + suffix
    } else {
        x
    };
    let b = if second {
        y + suffix
    } else {
        y
    };
    lemma_names_differ(slug, p, q);
    lemma_names_differ(slug, q, p);
    let s = "    "@ + a + ":"@;
    let t = "    "@ + b + ":"@;
    if s == t {
        let k = "    "@.len() as int;
        assert(s.len() == t.len());
        assert(a =~= s.subrange(k, k + a.len()));
        assert(b =~= t.subrange(k, k + b.len()));
        if first && second {
            assert(x =~= a.take(x.len() as int));
            assert(y =~= b.take(y.len() as int));
        }
    }
}

} // verus!
