//! What `henk link` prints.

use vstd::prelude::*;
use vstd::string::*;

use crate::detect::backend::lemma_last_of;
use crate::paint::{bold, bold_of, green, green_of};
use crate::project::detect::{DetectionView, ProjectDetection};
use crate::project::manifest::{host_views, HostView, ManifestView, ProjectManifest, ProjectMode};
use crate::project::override_file::{OverrideTarget, TargetView};
use crate::stack::paths::{join, joined};
use crate::text::{
    begins, contains, decimal, decimal_u16, ends, lemma_contains_either, lemma_contains_itself,
    lemma_contains_pair, occurs_at, opt_text, rsplit_once, rsplit_once_of,
};

verus! {

/// A line that is printed only when there is something to say.
pub open spec fn optional_line(head: Seq<char>, value: Option<Seq<char>>, tail: Seq<char>) -> Seq<
    char,
> {
    match value {
        Some(v) => head + v + tail,
        None => seq![],
    }
}

/// A port as text.
pub open spec fn opt_decimal(port: Option<u16>) -> Option<Seq<char>> {
    match port {
        Some(p) => Some(decimal(p as nat)),
        None => None,
    }
}

/// The name of a mode.
pub open spec fn mode_name(mode: ProjectMode) -> Seq<char> {
    match mode {
        ProjectMode::Docker => "Docker"@,
        ProjectMode::Host => "Host"@,
    }
}

/// What detection found, as it is printed.
pub open spec fn detection_text(d: DetectionView) -> Seq<char> {
    "\n"@ + bold_of("henk — project detection"@) + "\n\n  mode:           "@ + mode_name(d.mode)
        + "\n  default host:   "@ + d.default_host + "\n"@ + optional_line(
        "  web service:    "@,
        d.web_service,
        "\n"@,
    ) + optional_line("  web port:       "@, opt_decimal(d.web_port), "\n"@) + (
    if d.vite_detected {
        "  vite:           detected (sub-host offered after main link in M4b)\n"@
    } else {
        seq![]
    }) + optional_line(
        "  port collision: service publishes :"@,
        opt_decimal(d.port_collision),
        " — APP_PORT prompt incoming\n"@,
    ) + "\n"@
}

/// Writes a line that is printed only when there is something to say.
fn line_if(head: &str, value: &Option<String>, tail: &str) -> (r: String)
    ensures
        r@ == optional_line(head@, opt_text(*value), tail@),
{
    match value {
        Some(v) => head.to_owned().concat(v.as_str()).concat(tail),
        None => {
            let none = String::new();
            assert(none@ =~= Seq::<char>::empty());
            none
        },
    }
}

/// A port as text.
fn port_text(port: Option<u16>) -> (r: Option<String>)
    ensures
        opt_text(r) == opt_decimal(port),
{
    match port {
        Some(p) => Some(decimal_u16(p)),
        None => None,
    }
}

/// What detection found, as it is printed.
pub fn print_detection(d: &ProjectDetection) -> (r: String)
    ensures
        r@ == detection_text(d@),
{
    let mode = match d.mode {
        ProjectMode::Docker => "Docker",
        ProjectMode::Host => "Host",
    };
    let vite = if d.vite_detected {
        "  vite:           detected (sub-host offered after main link in M4b)\n".to_owned()
    } else {
        let none = String::new();
        assert(none@ =~= Seq::<char>::empty());
        none
    };
    "\n".to_owned().concat(bold("henk — project detection").as_str()).concat(
        "\n\n  mode:           ",
    ).concat(mode).concat("\n  default host:   ").concat(d.default_host.as_str()).concat(
        "\n",
    ).concat(line_if("  web service:    ", &d.web_service, "\n").as_str()).concat(
        line_if("  web port:       ", &port_text(d.web_port), "\n").as_str(),
    ).concat(vite.as_str()).concat(
        line_if(
            "  port collision: service publishes :",
            &port_text(d.port_collision),
            " — APP_PORT prompt incoming\n",
        ).as_str(),
    ).concat("\n")
}

/// The last component of a path.
pub open spec fn file_name_of(path: Seq<char>) -> Seq<char> {
    match rsplit_once_of(path, '/') {
        Some((_, name)) => name,
        None => path,
    }
}

/// The last component of a path.
fn file_name(path: &str) -> (r: String)
    ensures
        r@ == file_name_of(path@),
{
    match rsplit_once(path, '/') {
        Some((_, name)) => name,
        None => path.to_owned(),
    }
}

/// Where the override went, as it is printed.
pub open spec fn override_announcement(target: TargetView) -> Seq<char> {
    match target {
        TargetView::Canonical(p) => "✓ wrote "@ + p + " (auto-merged by Compose)\n"@,
        TargetView::Fallback { path, existing_canonical } => "✓ wrote "@ + path + " (your "@
            + existing_canonical
            + " already exists, so Compose won't auto-merge ours)\n  add this to your project's .env so Compose picks both up:\n    COMPOSE_FILE="@
            + file_name_of(existing_canonical) + ":"@ + file_name_of(path) + "\n"@,
    }
}

/// Where the override went, as it is printed.
pub fn announce_override_target(target: &OverrideTarget) -> (r: String)
    ensures
        r@ == override_announcement(target@),
{
    match target {
        OverrideTarget::Canonical(p) => "✓ wrote ".to_owned().concat(p.as_str()).concat(
            " (auto-merged by Compose)\n",
        ),
        OverrideTarget::Fallback { path, existing_canonical } => "✓ wrote ".to_owned().concat(
            path.as_str(),
        ).concat(" (your ").concat(existing_canonical.as_str()).concat(
            " already exists, so Compose won't auto-merge ours)\n  add this to your project's .env so Compose picks both up:\n    COMPOSE_FILE=",
        ).concat(file_name(existing_canonical.as_str()).as_str()).concat(":").concat(
            file_name(path.as_str()).as_str(),
        ).concat("\n"),
    }
}

/// The Vite offer, as it is asked.
pub fn offer_vite_subhost(vite_host: &str) -> (r: String)
    ensures
        r@ == "\n  • Vite detected. Add `"@ + vite_host@ + "` for HTTPS HMR? [Y/n] \n    "@,
{
    "\n  • Vite detected. Add `".to_owned().concat(vite_host).concat(
        "` for HTTPS HMR? [Y/n] \n    ",
    )
}

/// The copy-paste snippet for `vite.config.*`.
pub open spec fn vite_snippet_text(vite_host: Seq<char>) -> Seq<char> {
    "\n"@ + bold_of("Vite HMR — copy/paste:"@)
        + "\n\n  // vite.config.{js,ts,mjs}\n  export default defineConfig({\n    server: {\n      host: '0.0.0.0',\n      port: 5173,\n      strictPort: true,\n      hmr: {\n        host: '"@
        + vite_host
        + "',\n        protocol: 'wss',\n        clientPort: 443,\n      },\n      // dev origin for Laravel/PHP-rendered <script src> tags\n      origin: 'https://"@
        + vite_host + "',\n    },\n  })\n\n"@
}

/// The copy-paste snippet for `vite.config.*`. Vite configs vary too much to be
/// edited automatically.
pub fn print_vite_snippet(vite_host: &str) -> (r: String)
    ensures
        r@ == vite_snippet_text(vite_host@),
{
    "\n".to_owned().concat(bold("Vite HMR — copy/paste:").as_str()).concat(
        "\n\n  // vite.config.{js,ts,mjs}\n  export default defineConfig({\n    server: {\n      host: '0.0.0.0',\n      port: 5173,\n      strictPort: true,\n      hmr: {\n        host: '",
    ).concat(vite_host).concat(
        "',\n        protocol: 'wss',\n        clientPort: 443,\n      },\n      // dev origin for Laravel/PHP-rendered <script src> tags\n      origin: 'https://",
    ).concat(vite_host).concat("',\n    },\n  })\n\n")
}

/// The Host-mode reminder.
pub open spec fn host_hint_text(port: u16) -> Seq<char> {
    let p = decimal(port as nat);
    "\n"@ + bold_of("Host mode: bind your dev server to 0.0.0.0"@)
        + "\n\n  Traefik runs in Docker and reaches your dev server via\n  `host.docker.internal`, which only sees ports bound on the\n  IPv4 wildcard. By default Nuxt/Vite/Next bind to 127.0.0.1\n  or `[::1]` only — that gives you a 502 through https://.\n\n  Pick whichever applies:\n\n    Nuxt:  npm run dev -- --host 0.0.0.0 --port "@
        + p + "\n    Vite:  npm run dev -- --host 0.0.0.0 --port "@ + p
        + "\n    Next:  npx next dev -H 0.0.0.0 -p "@ + p
        + "\n\n  Or set the bind address in your framework's config so\n  `npm run dev` does the right thing without flags.\n\n"@
}

/// The Host-mode reminder: Traefik only reaches ports bound on the IPv4
/// wildcard.
pub fn print_host_mode_hint(port: u16) -> (r: String)
    ensures
        r@ == host_hint_text(port),
{
    let p = decimal_u16(port);
    "\n".to_owned().concat(bold("Host mode: bind your dev server to 0.0.0.0").as_str()).concat(
        "\n\n  Traefik runs in Docker and reaches your dev server via\n  `host.docker.internal`, which only sees ports bound on the\n  IPv4 wildcard. By default Nuxt/Vite/Next bind to 127.0.0.1\n  or `[::1]` only — that gives you a 502 through https://.\n\n  Pick whichever applies:\n\n    Nuxt:  npm run dev -- --host 0.0.0.0 --port ",
    ).concat(p.as_str()).concat("\n    Vite:  npm run dev -- --host 0.0.0.0 --port ").concat(
        p.as_str(),
    ).concat("\n    Next:  npx next dev -H 0.0.0.0 -p ").concat(p.as_str()).concat(
        "\n\n  Or set the bind address in your framework's config so\n  `npm run dev` does the right thing without flags.\n\n",
    )
}

/// One URL per host.
pub open spec fn urls_text(hosts: Seq<HostView>) -> Seq<char>
    decreases hosts.len(),
{
    if hosts.len() == 0 {
        seq![]
    } else {
        urls_text(hosts.drop_last()) + "  https://"@ + hosts.last().host + "\n"@
    }
}

/// The closing summary of a link.
pub open spec fn link_summary(m: ManifestView, dir: Seq<char>) -> Seq<char> {
    "\n"@ + bold_of(green_of("✓ linked."@)) + "\n"@ + urls_text(m.hosts) + "\n  marker:    "@ + joined(
        dir,
        ".henk.toml"@,
    ) + "\n  routing:   ~/.config/henk/dynamic/"@ + m.slug
        + ".yml\n\nNext: bring up your project (e.g. `npm run dev`, `sail up`, `docker compose up -d`).\n"@
}

/// The closing summary of a link.
pub fn print_summary(m: &ProjectManifest, dir: &str) -> (r: String)
    ensures
        r@ == link_summary(m@, dir@),
{
    let ghost all = m@.hosts;
    let mut urls = String::new();
    let mut i: usize = 0;
    assert(urls@ =~= urls_text(all.take(0)));
    while i < m.hosts.len()
        invariant
            i <= m.hosts@.len(),
            all == host_views(m.hosts@),
            urls@ == urls_text(all.take(i as int)),
        decreases m.hosts@.len() - i,
    {
        assert(all.take(i + 1).drop_last() =~= all.take(i as int));
        assert(all.take(i + 1).last() == m.hosts@[i as int]@);
        urls = urls.concat("  https://").concat(m.hosts[i].host.as_str()).concat("\n");
        i += 1;
    }
    assert(all.take(i as int) =~= all);
    "\n".to_owned().concat(bold(green("✓ linked.").as_str()).as_str()).concat("\n").concat(
        urls.as_str(),
    ).concat("\n  marker:    ").concat(join(dir, ".henk.toml").as_str()).concat(
        "\n  routing:   ~/.config/henk/dynamic/",
    ).concat(m.slug.as_str()).concat(
        ".yml\n\nNext: bring up your project (e.g. `npm run dev`, `sail up`, `docker compose up -d`).\n",
    )
}

/// The last component of a path in a directory is the name of the file.
proof fn lemma_file_name(dir: Seq<char>, name: Seq<char>)
    requires
        !name.contains('/'),
    ensures
        file_name_of(dir + "/"@ + name) == name,
{
    reveal_strlit("/");
    let path = dir + "/"@ + name;
    let n = dir.len() as int;
    assert(path[n] == '/');
    assert forall|j: int| n < j < path.len() implies path[j] != '/' by {
        assert(path[j] == name[j - n - 1]);
    }
    lemma_last_of(path, '/', n);
    assert(path.skip(n + 1) =~= name);
}

/// When another override is in the way, the user is told which file was written
/// and which two files Compose has to read: first their own, then henk's.
pub proof fn law_fallback_names_both_files(
    dir: Seq<char>,
    own: Seq<char>,
    dir_of_ours: Seq<char>,
    ours: Seq<char>,
)
    requires
        !own.contains('/'),
        !ours.contains('/'),
    ensures
        ({
            let target = TargetView::Fallback {
                path: dir_of_ours + "/"@ + ours,
                existing_canonical: dir + "/"@ + own,
            };
            let text = override_announcement(target);
            &&& begins(text, "✓ wrote "@ + (dir_of_ours + "/"@ + ours))
            &&& contains(text, own + ":"@ + ours)
            &&& ends(text, own + ":"@ + ours + "\n"@)
        }),
{
    let path = dir_of_ours + "/"@ + ours;
    let existing_canonical = dir + "/"@ + own;
    let text = override_announcement(TargetView::Fallback { path, existing_canonical });
    lemma_file_name(dir, own);
    lemma_file_name(dir_of_ours, ours);
    let first = "✓ wrote "@ + path;
    let both = own + ":"@ + ours;
    let head = first + " (your "@ + existing_canonical
        + " already exists, so Compose won't auto-merge ours)\n  add this to your project's .env so Compose picks both up:\n    COMPOSE_FILE="@;
    assert(text.subrange(0, first.len() as int) =~= first);
    assert(text == head + own + ":"@ + ours + "\n"@);
    assert(head + own + ":"@ =~= head + (own + ":"@));
    lemma_contains_pair(head, own + ":"@, ours);
    lemma_contains_either(head + own + ":"@ + ours, "\n"@, both);
    let tail = both + "\n"@;
    assert(text.subrange(text.len() - tail.len(), text.len() as int) =~= tail);
}

/// When Compose merges the override by itself, the user is told where it is and
/// that there is nothing to do.
pub proof fn law_canonical_is_merged(path: Seq<char>)
    ensures
        override_announcement(TargetView::Canonical(path)) == "✓ wrote "@ + path
            + " (auto-merged by Compose)\n"@,
        !(path.contains('=')) ==> !override_announcement(TargetView::Canonical(path)).contains('='),
{
    reveal_strlit("✓ wrote ");
    reveal_strlit(" (auto-merged by Compose)\n");
    let t = override_announcement(TargetView::Canonical(path));
    if !path.contains('=') {
        let a = "✓ wrote "@.len() as int;
        assert forall|j: int| 0 <= j < t.len() implies t[j] != '=' by {
            if a <= j < a + path.len() {
                assert(t[j] == path[j - a]);
            }
        }
    }
}

/// Each host has its URL in the list.
proof fn lemma_urls_hold(hosts: Seq<HostView>, i: int)
    requires
        0 <= i < hosts.len(),
    ensures
        contains(urls_text(hosts), "  https://"@ + hosts[i].host + "\n"@),
    decreases hosts.len(),
{
    let before = urls_text(hosts.drop_last());
    let last = hosts.last().host;
    let line = "  https://"@ + hosts[i].host + "\n"@;
    if i == hosts.len() - 1 {
        assert(before + "  https://"@ + last =~= before + ("  https://"@ + last));
        lemma_contains_pair(before, "  https://"@ + last, "\n"@);
    } else {
        assert(hosts.drop_last()[i] == hosts[i]);
        lemma_urls_hold(hosts.drop_last(), i);
        lemma_contains_either(before, "  https://"@, line);
        lemma_contains_either(before + "  https://"@, last, line);
        lemma_contains_either(before + "  https://"@ + last, "\n"@, line);
    }
}

/// The summary lists the URL of every host, and says where the marker and the
/// routing file are.
pub proof fn law_summary_lists_every_url(m: ManifestView, dir: Seq<char>, i: int)
    ensures
        0 <= i < m.hosts.len() ==> contains(
            link_summary(m, dir),
            "  https://"@ + m.hosts[i].host + "\n"@,
        ),
        contains(link_summary(m, dir), joined(dir, ".henk.toml"@)),
        contains(
            link_summary(m, dir),
            "\n  routing:   ~/.config/henk/dynamic/"@ + m.slug,
        ),
{
    let urls = urls_text(m.hosts);
    let marker = joined(dir, ".henk.toml"@);
    let t0 = "\n"@ + bold_of(green_of("✓ linked."@)) + "\n"@;
    let t1 = t0 + urls;
    let t2 = t1 + "\n  marker:    "@;
    let t3 = t2 + marker;
    let t4 = t3 + "\n  routing:   ~/.config/henk/dynamic/"@;
    let t5 = t4 + m.slug;
    let close = ".yml\n\nNext: bring up your project (e.g. `npm run dev`, `sail up`, `docker compose up -d`).\n"@;
    assert(link_summary(m, dir) == t5 + close);
    if 0 <= i < m.hosts.len() {
        let line = "  https://"@ + m.hosts[i].host + "\n"@;
        lemma_urls_hold(m.hosts, i);
        lemma_contains_either(t0, urls, line);
        lemma_contains_either(t1, "\n  marker:    "@, line);
        lemma_contains_either(t2, marker, line);
        lemma_contains_either(t3, "\n  routing:   ~/.config/henk/dynamic/"@, line);
        lemma_contains_either(t4, m.slug, line);
        lemma_contains_either(t5, close, line);
    }
    lemma_contains_itself(marker);
    lemma_contains_either(t2, marker, marker);
    lemma_contains_either(t3, "\n  routing:   ~/.config/henk/dynamic/"@, marker);
    lemma_contains_either(t4, m.slug, marker);
    lemma_contains_either(t5, close, marker);
    let route = "\n  routing:   ~/.config/henk/dynamic/"@ + m.slug;
    lemma_contains_pair(t3, "\n  routing:   ~/.config/henk/dynamic/"@, m.slug);
    lemma_contains_either(t5, close, route);
}

/// The reminder names the port in the command of each framework, and the address
/// to bind to.
pub proof fn law_reminder_names_the_port(port: u16)
    ensures
        contains(
            host_hint_text(port),
            "\n    Vite:  npm run dev -- --host 0.0.0.0 --port "@ + decimal(port as nat),
        ),
        contains(
            host_hint_text(port),
            "\n    Next:  npx next dev -H 0.0.0.0 -p "@ + decimal(port as nat),
        ),
{
    let p = decimal(port as nat);
    let intro = "\n\n  Traefik runs in Docker and reaches your dev server via\n  `host.docker.internal`, which only sees ports bound on the\n  IPv4 wildcard. By default Nuxt/Vite/Next bind to 127.0.0.1\n  or `[::1]` only — that gives you a 502 through https://.\n\n  Pick whichever applies:\n\n    Nuxt:  npm run dev -- --host 0.0.0.0 --port "@;
    let close = "\n\n  Or set the bind address in your framework's config so\n  `npm run dev` does the right thing without flags.\n\n"@;
    let vite = "\n    Vite:  npm run dev -- --host 0.0.0.0 --port "@;
    let next = "\n    Next:  npx next dev -H 0.0.0.0 -p "@;
    let t0 = "\n"@ + bold_of("Host mode: bind your dev server to 0.0.0.0"@) + intro + p;
    let t1 = t0 + vite + p;
    let t2 = t1 + next;
    let t3 = t2 + p;
    assert(host_hint_text(port) == t3 + close);
    lemma_contains_pair(t0, vite, p);
    lemma_contains_either(t1, next, vite + p);
    lemma_contains_either(t2, p, vite + p);
    lemma_contains_either(t3, close, vite + p);
    lemma_contains_pair(t1, next, p);
    lemma_contains_either(t3, close, next + p);
}

/// The snippet for Vite sends the browser to the given host, for its updates and
/// for its scripts.
pub proof fn law_snippet_names_the_host(vite_host: Seq<char>)
    ensures
        contains(vite_snippet_text(vite_host), "'https://"@ + vite_host),
        contains(vite_snippet_text(vite_host), "host: '"@ + vite_host),
        contains(vite_snippet_text(vite_host), "host: '0.0.0.0'"@),
{
    let start = "\n\n  // vite.config.{js,ts,mjs}\n  export default defineConfig({\n    server: {\n      host: '0.0.0.0',\n      port: 5173,\n      strictPort: true,\n      hmr: {\n        host: '"@;
    let start_head = "\n\n  // vite.config.{js,ts,mjs}\n  export default defineConfig({\n    server: {\n      host: '0.0.0.0',\n      port: 5173,\n      strictPort: true,\n      hmr: {\n        "@;
    let mid = "',\n        protocol: 'wss',\n        clientPort: 443,\n      },\n      // dev origin for Laravel/PHP-rendered <script src> tags\n      origin: 'https://"@;
    let mid_head = "',\n        protocol: 'wss',\n        clientPort: 443,\n      },\n      // dev origin for Laravel/PHP-rendered <script src> tags\n      origin: "@;
    let close = "',\n    },\n  })\n\n"@;
    let title = "\n"@ + bold_of("Vite HMR — copy/paste:"@);
    lemma_snippet_parts();
    let t0 = title + start;
    let t1 = t0 + vite_host;
    let t2 = t1 + mid;
    let t3 = t2 + vite_host;
    assert(vite_snippet_text(vite_host) == t3 + close);
    let bind = "host: '0.0.0.0'"@;
    lemma_contains_either(title, start, bind);
    lemma_contains_either(t0, vite_host, bind);
    lemma_contains_either(t1, mid, bind);
    lemma_contains_either(t2, vite_host, bind);
    lemma_contains_either(t3, close, bind);
    let hmr = "host: '"@ + vite_host;
    assert(t0 =~= (title + start_head) + "host: '"@);
    lemma_contains_pair(title + start_head, "host: '"@, vite_host);
    lemma_contains_either(t1, mid, hmr);
    lemma_contains_either(t2, vite_host, hmr);
    lemma_contains_either(t3, close, hmr);
    let origin = "'https://"@ + vite_host;
    assert(t2 =~= (t1 + mid_head) + "'https://"@);
    lemma_contains_pair(t1 + mid_head, "'https://"@, vite_host);
    lemma_contains_either(t3, close, origin);
}

/// How the fixed parts of the snippet end, and what the first one holds.
proof fn lemma_snippet_parts()
    ensures
        "\n\n  // vite.config.{js,ts,mjs}\n  export default defineConfig({\n    server: {\n      host: '0.0.0.0',\n      port: 5173,\n      strictPort: true,\n      hmr: {\n        host: '"@
            == "\n\n  // vite.config.{js,ts,mjs}\n  export default defineConfig({\n    server: {\n      host: '0.0.0.0',\n      port: 5173,\n      strictPort: true,\n      hmr: {\n        "@
            + "host: '"@,
        "',\n        protocol: 'wss',\n        clientPort: 443,\n      },\n      // dev origin for Laravel/PHP-rendered <script src> tags\n      origin: 'https://"@
            == "',\n        protocol: 'wss',\n        clientPort: 443,\n      },\n      // dev origin for Laravel/PHP-rendered <script src> tags\n      origin: "@
            + "'https://"@,
        contains(
            "\n\n  // vite.config.{js,ts,mjs}\n  export default defineConfig({\n    server: {\n      host: '0.0.0.0',\n      port: 5173,\n      strictPort: true,\n      hmr: {\n        host: '"@,
            "host: '0.0.0.0'"@,
        ),
{
    reveal_strlit(
        "\n\n  // vite.config.{js,ts,mjs}\n  export default defineConfig({\n    server: {\n      host: '0.0.0.0',\n      port: 5173,\n      strictPort: true,\n      hmr: {\n        host: '",
    );
    reveal_strlit(
        "\n\n  // vite.config.{js,ts,mjs}\n  export default defineConfig({\n    server: {\n      host: '0.0.0.0',\n      port: 5173,\n      strictPort: true,\n      hmr: {\n        ",
    );
    reveal_strlit(
        "',\n        protocol: 'wss',\n        clientPort: 443,\n      },\n      // dev origin for Laravel/PHP-rendered <script src> tags\n      origin: 'https://",
    );
    reveal_strlit(
        "',\n        protocol: 'wss',\n        clientPort: 443,\n      },\n      // dev origin for Laravel/PHP-rendered <script src> tags\n      origin: ",
    );
    reveal_strlit("host: '");
    reveal_strlit("'https://");
    reveal_strlit("host: '0.0.0.0'");
    let start = "\n\n  // vite.config.{js,ts,mjs}\n  export default defineConfig({\n    server: {\n      host: '0.0.0.0',\n      port: 5173,\n      strictPort: true,\n      hmr: {\n        host: '"@;
    let k = "\n\n  // vite.config.{js,ts,mjs}\n  export default defineConfig({\n    server: {\n      "@.len()
        as int;
    reveal_strlit(
        "\n\n  // vite.config.{js,ts,mjs}\n  export default defineConfig({\n    server: {\n      ",
    );
    assert(start.subrange(k, k + "host: '0.0.0.0'"@.len()) =~= "host: '0.0.0.0'"@);
    assert(occurs_at(start, "host: '0.0.0.0'"@, k));
}

/// What detection found is shown: the mode and the host always, the service, the
/// port and the collision when there are any.
pub proof fn law_detection_is_shown(d: DetectionView)
    ensures
        contains(
            detection_text(d),
            "\n\n  mode:           "@ + (match d.mode {
                ProjectMode::Docker => "Docker"@,
                ProjectMode::Host => "Host"@,
            }),
        ),
        contains(detection_text(d), "\n  default host:   "@ + d.default_host),
        d.web_service matches Some(s) ==> contains(
            detection_text(d),
            "  web service:    "@ + s + "\n"@,
        ),
        d.web_port matches Some(p) ==> contains(
            detection_text(d),
            "  web port:       "@ + decimal(p as nat) + "\n"@,
        ),
        d.vite_detected ==> contains(
            detection_text(d),
            "  vite:           detected (sub-host offered after main link in M4b)\n"@,
        ),
        d.port_collision matches Some(p) ==> contains(
            detection_text(d),
            "  port collision: service publishes :"@ + decimal(p as nat)
                + " — APP_PORT prompt incoming\n"@,
        ),
{
    let title = "\n"@ + bold_of("henk — project detection"@);
    let mode = mode_name(d.mode);
    let service = optional_line("  web service:    "@, d.web_service, "\n"@);
    let port = optional_line("  web port:       "@, opt_decimal(d.web_port), "\n"@);
    let vite = if d.vite_detected {
        "  vite:           detected (sub-host offered after main link in M4b)\n"@
    } else {
        seq![]
    };
    let collision = optional_line(
        "  port collision: service publishes :"@,
        opt_decimal(d.port_collision),
        " — APP_PORT prompt incoming\n"@,
    );
    let t1 = title + "\n\n  mode:           "@ + mode;
    let t2 = t1 + "\n  default host:   "@ + d.default_host;
    let t3 = t2 + "\n"@;
    let t4 = t3 + service;
    let t5 = t4 + port;
    let t6 = t5 + vite;
    let t7 = t6 + collision;
    assert(detection_text(d) == t7 + "\n"@);
    let a = "\n\n  mode:           "@ + mode;
    lemma_contains_pair(title, "\n\n  mode:           "@, mode);
    lemma_contains_either(t1, "\n  default host:   "@, a);
    lemma_contains_either(t1 + "\n  default host:   "@, d.default_host, a);
    lemma_contains_either(t2, "\n"@, a);
    lemma_rest_is_shown(t3, service, port, vite, collision, a);
    let b = "\n  default host:   "@ + d.default_host;
    lemma_contains_pair(t1, "\n  default host:   "@, d.default_host);
    lemma_contains_either(t2, "\n"@, b);
    lemma_rest_is_shown(t3, service, port, vite, collision, b);
    lemma_contains_itself(service);
    lemma_rest_is_shown(t3, service, port, vite, collision, service);
    lemma_contains_itself(port);
    lemma_rest_is_shown(t3, service, port, vite, collision, port);
    lemma_contains_itself(vite);
    lemma_rest_is_shown(t3, service, port, vite, collision, vite);
    lemma_contains_itself(collision);
    lemma_rest_is_shown(t3, service, port, vite, collision, collision);
}

/// A text holds what one of its parts holds.
proof fn lemma_rest_is_shown(
    t: Seq<char>,
    a: Seq<char>,
    b: Seq<char>,
    c: Seq<char>,
    d: Seq<char>,
    pat: Seq<char>,
)
    requires
        contains(t, pat) || contains(a, pat) || contains(b, pat) || contains(c, pat) || contains(
            d,
            pat,
        ),
    ensures
        contains(t + a + b + c + d + "\n"@, pat),
{
    if contains(t, pat) || contains(a, pat) {
        lemma_contains_either(t, a, pat);
    }
    if contains(t + a, pat) || contains(b, pat) {
        lemma_contains_either(t + a, b, pat);
    }
    if contains(t + a + b, pat) || contains(c, pat) {
        lemma_contains_either(t + a + b, c, pat);
    }
    lemma_contains_either(t + a + b + c, d, pat);
    lemma_contains_either(t + a + b + c + d, "\n"@, pat);
}

} // verus!
