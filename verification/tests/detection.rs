//! Detection: the table, the TLD, and the reachability of linked hosts.

use henk::detect::backend::{
    after_plain, classify, host_from_rule, http_probe, http_probe_command, ipv6_only, is_alive,
    linked_hosts, listeners_are_ipv6_only, listeners_command, observe, parse_linked_hosts,
    probe_all, resolve_backend_url, LinkedHost, NextProbe, Observation, PortResponse, RouteFile,
};
use henk::detect::brew::{
    brew_list_command, brew_version_command, probe_dnsmasq, probe_homebrew, probe_mkcert,
    probe_nss, PackageFacts,
};
use henk::detect::coexistence::{
    ddev_item, herd_detected, herd_item, lando_item, valet_detected, valet_item,
};
use henk::detect::docker::{
    docker_info_command, probe_foreign_traefik, probe_proxy_network, proxy_network_command,
    traefik_command,
};
use henk::detect::ports::{port_command, probe_port};
use henk::detect::report::{
    henk_traefik_published_ports, item, traefik_ports_command, DetectionItem, DetectionReport,
};
use henk::detect::tld::{clean, decide, is_reserved};
use henk::detect::{docker, resolver, run_all, HostFacts, Status, TldReason};
use henk::project::env_file::FileState;
use henk::runner::{CommandOutput, Invocation, Reply};
use henk::yaml;

fn obs(plain: PortResponse, with_host: Option<u16>, ipv6_only_listener: bool) -> Observation {
    Observation { plain, with_host, ipv6_only_listener }
}

fn said(stdout: &str) -> Reply {
    Reply::Output(CommandOutput {
        status: 0,
        stdout: stdout.to_string(),
        stderr: String::new(),
    })
}

fn refused(stdout: &str, stderr: &str) -> Reply {
    Reply::Output(CommandOutput {
        status: 1,
        stdout: stdout.to_string(),
        stderr: stderr.to_string(),
    })
}

fn line(cmd: &Invocation) -> String {
    format!("{} {}", cmd.program, cmd.args.join(" "))
}

fn row(item: &DetectionItem) -> (&str, Status, &str) {
    (item.name, item.status, item.detail.as_str())
}

#[test]
fn ipv6_only_bind_is_a_blocker_with_the_fix_in_it() {
    let (status, detail) = classify(3001, "app.test", obs(PortResponse::Refused, None, true));
    assert_eq!(status, Status::Block);
    assert!(detail.contains("IPv6 loopback"));
    assert!(detail.contains("0.0.0.0"));
}

#[test]
fn nothing_listening_is_a_warning_not_a_blocker() {
    let (status, detail) = classify(3001, "app.test", obs(PortResponse::Refused, None, false));
    assert_eq!(status, Status::Warn);
    assert!(detail.contains("nothing listening"));
}

#[test]
fn ws_only_port_explains_the_426() {
    let (status, detail) = classify(3001, "app.test", obs(PortResponse::Code(426), None, false));
    assert_eq!(status, Status::Block);
    assert!(detail.contains("WebSocket"));
    assert!(detail.contains("0.0.0.0"));
}

#[test]
fn rejected_hostname_points_at_allowed_hosts() {
    let (status, detail) = classify(
        3001,
        "calculation-tool.test",
        obs(PortResponse::Code(302), Some(403), false),
    );
    assert_eq!(status, Status::Block);
    assert!(detail.contains("calculation-tool.test"));
    assert!(detail.contains("allowedHosts"));
}

#[test]
fn redirect_on_root_is_healthy() {
    let (status, _) = classify(
        3001,
        "app.test",
        obs(PortResponse::Code(302), Some(302), false),
    );
    assert_eq!(status, Status::Okay);
}

#[test]
fn non_alive_status_suggests_health_path() {
    let (status, detail) = classify(8000, "app.test", obs(PortResponse::Code(401), None, false));
    assert_eq!(status, Status::Warn);
    assert!(detail.contains("health_path"));
}

#[test]
fn lsof_all_ipv6_loopback_is_ipv6_only() {
    let out = "COMMAND PID USER FD TYPE DEVICE SIZE/OFF NODE NAME\n\
               node 85096 me 14u IPv6 0xe544 0t0 TCP [::1]:3001 (LISTEN)\n";
    assert!(listeners_are_ipv6_only(out));
}

#[test]
fn lsof_with_a_wildcard_listener_is_not_ipv6_only() {
    let out = "COMMAND PID USER FD TYPE DEVICE SIZE/OFF NODE NAME\n\
               node 85096 me 14u IPv6 0xe544 0t0 TCP [::1]:3001 (LISTEN)\n\
               node 85096 me 134u IPv6 0x6fed 0t0 TCP *:3001 (LISTEN)\n";
    assert!(!listeners_are_ipv6_only(out));
}

#[test]
fn lsof_empty_is_not_ipv6_only() {
    assert!(!listeners_are_ipv6_only(""));
}

const FAILOVER: &str = r#"
http:
  routers:
    calculation-tool:
      rule: "Host(`calculation-tool.test`)"
      service: calculation-tool
  services:
    calculation-tool:
      failover:
        service: calculation-tool-main
        fallback: henk-error-pages
    calculation-tool-main:
      loadBalancer:
        servers:
          - url: "http://host.docker.internal:3001"
"#;

#[test]
fn parses_hosts_and_follows_the_failover_to_the_primary() {
    let hosts = parse_linked_hosts("calculation-tool", FAILOVER);
    assert_eq!(hosts.len(), 1);
    assert_eq!(hosts[0].host, "calculation-tool.test");
    assert_eq!(hosts[0].url, "http://host.docker.internal:3001");
    assert_eq!(hosts[0].host_mode_port(), Some(3001));
}

#[test]
fn the_https_redirect_router_is_not_a_second_linked_host() {
    let body = r#"
http:
  routers:
    calculation-tool:
      rule: "Host(`calculation-tool.test`)"
      service: calculation-tool
    calculation-tool-http:
      rule: "Host(`calculation-tool.test`)"
      entryPoints:
        - web
      middlewares:
        - henk-https-redirect
      service: calculation-tool
  services:
    calculation-tool:
      failover:
        service: calculation-tool-main
        fallback: henk-error-pages
    calculation-tool-main:
      loadBalancer:
        servers:
          - url: "http://host.docker.internal:3001"
"#;
    let hosts = parse_linked_hosts("calculation-tool", body);
    assert_eq!(hosts.len(), 1, "one linked host, not two");
}

#[test]
fn parses_files_written_before_the_failover_rendering() {
    let body = r#"
http:
  routers:
    sparkle:
      rule: "Host(`sparkle.test`)"
      service: sparkle
  services:
    sparkle:
      loadBalancer:
        servers:
          - url: "http://host.docker.internal:3000"
"#;
    let hosts = parse_linked_hosts("sparkle", body);
    assert_eq!(hosts.len(), 1);
    assert_eq!(hosts[0].host_mode_port(), Some(3000));
}

#[test]
fn docker_mode_backends_are_not_probed_from_the_host() {
    let body = r#"
http:
  routers:
    spatiebalk:
      rule: "Host(`spatiebalk.test`)"
      service: spatiebalk
  services:
    spatiebalk:
      loadBalancer:
        servers:
          - url: "http://laravel.test:80"
"#;
    let hosts = parse_linked_hosts("spatiebalk", body);
    assert_eq!(hosts.len(), 1);
    assert_eq!(hosts[0].host_mode_port(), None);
}

#[test]
fn a_body_that_is_no_yaml_links_nothing() {
    assert!(parse_linked_hosts("x", "a: [").is_empty());
    assert!(parse_linked_hosts("x", "").is_empty());
    assert!(parse_linked_hosts("x", "http:\n  routers: 3\n").is_empty());
}

#[test]
fn failovers_that_go_in_a_circle_have_no_backend() {
    let services = yaml::parse(
        "a:\n  failover:\n    service: b\nb:\n  failover:\n    service: a\n",
    )
    .unwrap();
    assert_eq!(resolve_backend_url(&services, "a"), None);
    assert_eq!(resolve_backend_url(&services, "missing"), None);
}

#[test]
fn a_chain_of_failovers_is_followed_to_its_end() {
    let services = yaml::parse(
        "a:\n  failover:\n    service: b\nb:\n  failover:\n    service: c\nc:\n  loadBalancer:\n    servers:\n      - url: \"http://web:80\"\n",
    )
    .unwrap();
    assert_eq!(resolve_backend_url(&services, "a"), Some("http://web:80".to_string()));
}

#[test]
fn the_host_of_a_rule() {
    assert_eq!(host_from_rule("Host(`app.test`)"), Some("app.test".to_string()));
    assert_eq!(
        host_from_rule("Host(`a.test`) && PathPrefix(`/x`)"),
        Some("a.test".to_string())
    );
    assert_eq!(host_from_rule("Host(`open"), None);
    assert_eq!(host_from_rule("PathPrefix(`/`)"), None);
}

#[test]
fn only_2xx_and_3xx_are_alive() {
    assert!(!is_alive(199));
    assert!(is_alive(200));
    assert!(is_alive(399));
    assert!(!is_alive(400));
}

#[test]
fn the_verdicts_word_for_word() {
    assert_eq!(
        classify(3001, "app.test", obs(PortResponse::Code(200), Some(200), false)),
        (Status::Okay, "reachable on port 3001 (200)".to_string())
    );
    assert_eq!(
        classify(3001, "app.test", obs(PortResponse::Refused, None, false)).1,
        "nothing listening on port 3001 — is the dev server running?"
    );
    assert_eq!(
        classify(3001, "app.test", obs(PortResponse::Refused, None, true)).1,
        "port 3001 is bound to the IPv6 loopback only — Docker reaches the host over IPv4, so Traefik can't see it. Restart the dev server on 0.0.0.0 (`nuxt dev --host`, `vite --host`, `next dev -H 0.0.0.0`)"
    );
    assert_eq!(
        classify(3001, "app.test", obs(PortResponse::Code(426), Some(403), false)).1,
        "port 3001 only answers WebSocket upgrades — that's the HMR socket, not the app. The app is bound to the IPv6 loopback; restart the dev server on 0.0.0.0"
    );
    assert_eq!(
        classify(3001, "app.test", obs(PortResponse::Code(200), Some(403), false)).1,
        "the dev server rejects the hostname `app.test` — add it to the framework's allowed hosts (Vite: `server.allowedHosts`, Nuxt: `vite.server.allowedHosts`)"
    );
    assert_eq!(
        classify(8000, "app.test", obs(PortResponse::Code(401), None, false)).1,
        "responds 401 on / — Traefik's health check counts that as down. Point it at a path that returns 2xx/3xx with `health_path` in .henk.toml"
    );
}

#[test]
fn the_port_is_knocked_on_with_curl() {
    assert_eq!(
        line(&http_probe_command(3001, None)),
        "curl -s -o /dev/null -w %{http_code} --max-time 2 http://127.0.0.1:3001/"
    );
    let with_host = http_probe_command(3001, Some("app.test"));
    assert_eq!(with_host.args[7], "-H");
    assert_eq!(with_host.args[8], "Host: app.test");
    assert_eq!(with_host.args[9], "http://127.0.0.1:3001/");
    assert_eq!(line(&listeners_command(3001)), "lsof -nP -iTCP:3001 -sTCP:LISTEN");
}

#[test]
fn curl_replies_become_responses() {
    assert_eq!(http_probe(&said("\n 302 \n")), PortResponse::Code(302));
    assert_eq!(http_probe(&said("000")), PortResponse::Refused);
    assert_eq!(http_probe(&said("")), PortResponse::Refused);
    assert_eq!(http_probe(&said("99999")), PortResponse::Refused);
    assert_eq!(http_probe(&refused("200", "")), PortResponse::Refused);
    assert_eq!(http_probe(&Reply::Unavailable), PortResponse::Refused);
}

#[test]
fn what_is_asked_after_the_first_knock() {
    assert_eq!(after_plain(PortResponse::Code(200)), NextProbe::WithHost);
    assert_eq!(after_plain(PortResponse::Code(500)), NextProbe::Nothing);
    assert_eq!(after_plain(PortResponse::Refused), NextProbe::Listeners);
    let o = observe(PortResponse::Code(200), Some(PortResponse::Code(403)), None);
    assert_eq!(o.with_host, Some(403));
    assert!(!o.ipv6_only_listener);
    let o = observe(
        PortResponse::Refused,
        None,
        Some(said("HEAD\nnode 1 me 1u IPv6 0x 0t0 TCP [::1]:3001 (LISTEN)\n")),
    );
    assert_eq!(o.with_host, None);
    assert!(o.ipv6_only_listener);
}

#[test]
fn a_failed_lsof_shows_no_listeners() {
    let table = "HEAD\nnode 1 me 1u IPv6 0x 0t0 TCP [::1]:3001 (LISTEN)\n";
    assert!(ipv6_only(&said(table)));
    assert!(!ipv6_only(&refused(table, "")));
    assert!(!ipv6_only(&Reply::Unavailable));
}

fn file(name: &str, body: &str) -> RouteFile {
    RouteFile { name: name.to_string(), body: body.to_string() }
}

#[test]
fn linked_hosts_are_listed_by_slug_and_host() {
    let two = r#"
http:
  routers:
    b:
      rule: "Host(`z.b.test`)"
      service: b
    b2:
      rule: "Host(`a.b.test`)"
      service: b
  services:
    b:
      loadBalancer:
        servers:
          - url: "http://web:80"
"#;
    let files = vec![
        file("calculation-tool.yml", FAILOVER),
        file("b.yml", two),
        file("_henk.yml", two),
        file("notes.txt", two),
        file("other.yaml", two),
    ];
    let links = linked_hosts(&files);
    let names: Vec<&str> = links.iter().map(|l| l.host.as_str()).collect();
    assert_eq!(names, vec!["a.b.test", "z.b.test", "calculation-tool.test"]);
    assert_eq!(links[0].slug, "b");
}

#[test]
fn only_backends_on_the_host_get_a_verdict() {
    let links = vec![
        LinkedHost {
            slug: "a".to_string(),
            host: "a.test".to_string(),
            url: "http://web:80".to_string(),
        },
        LinkedHost {
            slug: "b".to_string(),
            host: "b.test".to_string(),
            url: "http://host.docker.internal:3001/".to_string(),
        },
    ];
    let seen = vec![
        obs(PortResponse::Refused, None, false),
        obs(PortResponse::Code(200), Some(200), false),
    ];
    let items = probe_all(&links, &seen);
    assert_eq!(items.len(), 1);
    assert_eq!(items[0].host, "b.test");
    assert_eq!(items[0].status, Status::Okay);
}

#[test]
fn ports_of_backends() {
    let port = |url: &str| {
        LinkedHost {
            slug: String::new(),
            host: String::new(),
            url: url.to_string(),
        }
        .host_mode_port()
    };
    assert_eq!(port("http://host.docker.internal:65535"), Some(65535));
    assert_eq!(port("http://host.docker.internal:65536"), None);
    assert_eq!(port("http://host.docker.internal"), None);
    assert_eq!(port("https://host.docker.internal:80"), None);
    assert_eq!(port("http://host.docker.internal:80/path:9"), Some(80));
}

#[test]
fn defaults_to_test_when_nothing_present() {
    let c = decide(None, false, false);
    assert_eq!(c.value(), "test");
    assert_eq!(c.reason(), TldReason::Default);
}

#[test]
fn falls_back_to_henk_when_valet_present() {
    let c = decide(None, true, false);
    assert_eq!(c.value(), "henk");
    assert_eq!(c.reason(), TldReason::ValetHerdFallback);
}

#[test]
fn falls_back_to_henk_when_herd_present() {
    let c = decide(None, false, true);
    assert_eq!(c.value(), "henk");
    assert_eq!(c.reason(), TldReason::ValetHerdFallback);
}

#[test]
fn falls_back_to_henk_when_both_present() {
    let c = decide(None, true, true);
    assert_eq!(c.value(), "henk");
    assert_eq!(c.reason(), TldReason::ValetHerdFallback);
}

#[test]
fn user_override_wins_over_valet_detection() {
    let c = decide(Some(".foo"), true, false);
    assert_eq!(c.value(), "foo");
    assert_eq!(c.reason(), TldReason::UserOverride);
}

#[test]
fn user_override_strips_leading_dot_and_lowercases() {
    let c = decide(Some(".LOCAL"), false, false);
    assert_eq!(c.value(), "local");
}

#[test]
fn is_reserved_flags_localhost_invalid() {
    assert!(is_reserved("localhost"));
    assert!(is_reserved(".localhost"));
    assert!(is_reserved("invalid"));
    assert!(!is_reserved("test"));
    assert!(!is_reserved("henk"));
}

#[test]
fn summary_string_renders_chosen_tld() {
    let c = decide(None, false, false);
    let s = c.summary();
    assert!(s.contains(".test"));
    assert!(s.contains("default"));

    let c = decide(None, true, false);
    let s = c.summary();
    assert!(s.contains(".henk"));
    assert!(s.contains("Valet"));
}

#[test]
fn cleaning_a_tld_twice_is_cleaning_it_once() {
    let once = clean("..Foo.BAR");
    assert_eq!(once, "foo.bar");
    assert_eq!(clean(once.as_str()), once);
    assert!(is_reserved("..LOCAL"));
}

fn facts() -> HostFacts {
    HostFacts {
        docker: true,
        docker_info: said("29.0.1\n"),
        brew: true,
        brew_version: said("Homebrew 4.5.0\nmore\n"),
        mkcert: PackageFacts { in_path: true, in_brew: false },
        nss: PackageFacts { in_path: false, in_brew: true },
        dnsmasq: PackageFacts { in_path: false, in_brew: false },
        valet: false,
        herd: false,
        ddev: false,
        lando: true,
        resolver: FileState::Missing,
        traefik_ports: said(""),
        port_80: refused("", ""),
        port_443: refused("", ""),
        proxy_network: said(""),
        traefik_containers: said(""),
    }
}

#[test]
fn init_dry_run_renders_detection_table() {
    let report = run_all(&facts(), None);
    let stdout = report.print();
    assert!(stdout.contains("environment detection"));
    assert!(stdout.contains("Docker"));
    assert!(stdout.contains("Homebrew"));
    assert!(stdout.contains("/etc/resolver/<tld>"));
    assert!(stdout.contains("TLD:"));
}

#[test]
fn the_whole_table_in_order() {
    let report = run_all(&facts(), None);
    assert!(!report.has_blockers());
    let names: Vec<&str> = report.items.iter().map(|i| i.name).collect();
    assert_eq!(
        names,
        vec![
            "Docker",
            "Homebrew",
            "mkcert",
            "nss",
            "dnsmasq",
            "Laravel Valet",
            "Laravel Herd",
            "DDEV",
            "Lando",
            "/etc/resolver/<tld>",
            "host TCP :80",
            "host TCP :443",
            "henk-proxy network",
            "foreign Traefik",
        ]
    );
    assert_eq!(row(&report.items[0]), ("Docker", Status::Okay, "running (29.0.1)"));
    assert_eq!(row(&report.items[1]), ("Homebrew", Status::Okay, "Homebrew 4.5.0"));
    assert_eq!(row(&report.items[2]), ("mkcert", Status::Okay, "installed"));
    assert_eq!(row(&report.items[3]), ("nss", Status::Okay, "installed (via brew)"));
    assert_eq!(
        row(&report.items[4]),
        ("dnsmasq", Status::Warn, "missing — `henk init` will offer `brew install dnsmasq`")
    );
    assert_eq!(
        row(&report.items[9]),
        (
            "/etc/resolver/<tld>",
            Status::Okay,
            "/etc/resolver/test absent (will be created with sudo)"
        )
    );
    assert_eq!(
        row(&report.items[10]),
        ("host TCP :80", Status::Okay, "free (will be used for http)")
    );
    let text = report.print();
    let mut lines = text.lines();
    assert_eq!(lines.next(), Some(""));
    assert_eq!(lines.next(), Some("\u{1b}[1mhenk — environment detection\u{1b}[0m"));
    assert_eq!(lines.next(), Some(""));
    assert_eq!(
        lines.next(),
        Some(format!("  \u{1b}[32m✓\u{1b}[39m  {:19}   running (29.0.1)", "Docker").as_str())
    );
    assert!(text.ends_with(
        "\u{1b}[32mNo blockers — `henk init` is ready to run.\u{1b}[39m\n\n"
    ));
}

#[test]
fn a_blocker_is_announced() {
    let mut f = facts();
    f.docker = false;
    let report = run_all(&f, Some("dev"));
    assert!(report.has_blockers());
    assert_eq!(report.tld.value(), "dev");
    assert_eq!(
        row(&report.items[0]),
        ("Docker", Status::Block, "not found in $PATH (install Docker Desktop)")
    );
    assert!(report.print().ends_with(
        "\u{1b}[1m\u{1b}[31mBlockers above must be resolved before `henk init` can proceed.\u{1b}[39m\u{1b}[0m\n\n"
    ));
}

#[test]
fn ports_held_by_our_own_proxy_do_not_block() {
    let mut f = facts();
    f.port_80 = said("p42\nccom.docker\nn*:80\n");
    f.port_443 = said("p7\ncnginx\nn*:443\n");
    f.traefik_ports = said("0.0.0.0:80->80/tcp, 127.0.0.1:19080->8080/tcp\n");
    let report = run_all(&f, None);
    assert_eq!(
        row(&report.items[10]),
        ("host TCP :80", Status::Info, "bound by henk-traefik (will be reused)")
    );
    assert_eq!(
        row(&report.items[11]),
        (
            "host TCP :443",
            Status::Block,
            "in use by `nginx` (pid 7) — needed for https; stop it or pick another port"
        )
    );
}

#[test]
fn published_ports_are_read_from_docker_ps() {
    assert_eq!(
        henk_traefik_published_ports(&said(
            "0.0.0.0:80->80/tcp, [::]:443->443/tcp, 127.0.0.1:19080->8080/tcp, 9000/tcp\n"
        )),
        vec![80, 443, 19080]
    );
    assert!(henk_traefik_published_ports(&refused("0.0.0.0:80->80/tcp", "")).is_empty());
    assert!(henk_traefik_published_ports(&Reply::Unavailable).is_empty());
    assert_eq!(
        line(&traefik_ports_command()),
        "docker ps --filter name=henk-traefik --format {{.Ports}}"
    );
}

#[test]
fn who_holds_a_port() {
    assert_eq!(
        probe_port("p", "http", &said("p42\nn*:80\n")).detail,
        "in use by `unknown` (pid 42) — needed for http; stop it or pick another port"
    );
    assert_eq!(
        probe_port("p", "http", &said("cnginx\np42\n")).detail,
        "in use by `nginx` (pid ?) — needed for http; stop it or pick another port"
    );
    assert_eq!(probe_port("p", "http", &said(" \n")).status, Status::Okay);
    let gone = probe_port("p", "http", &Reply::Unavailable);
    assert_eq!(
        row(&gone),
        ("p", Status::Warn, "could not invoke `lsof` — is it installed?")
    );
    assert_eq!(line(&port_command(443)), "lsof -nP -sTCP:LISTEN -F pcn -iTCP:443");
}

#[test]
fn docker_in_every_state() {
    assert_eq!(docker::probe(true, &said("\n")).detail, "running (unknown)");
    let down = docker::probe(true, &refused("", "no daemon"));
    assert_eq!(down.status, Status::Block);
    assert_eq!(down.detail, "installed but daemon not reachable (start Docker Desktop)");
    let broken = docker::probe(true, &Reply::Unavailable);
    assert_eq!(broken.status, Status::Block);
    assert_eq!(broken.detail, "could not invoke `docker info`");
    assert_eq!(line(&docker_info_command()), "docker info --format {{.ServerVersion}}");
}

#[test]
fn the_proxy_network_in_every_state() {
    let there = probe_proxy_network(&said("henk-proxy-2\n henk-proxy \n"));
    assert_eq!(
        row(&there),
        (
            "henk-proxy network",
            Status::Info,
            "exists (will be reused if it's ours, else aborts)"
        )
    );
    let other = probe_proxy_network(&said("henk-proxy-2\n"));
    assert_eq!(row(&other), ("henk-proxy network", Status::Okay, "absent (will be created)"));
    let unknown = probe_proxy_network(&refused("", ""));
    assert_eq!(
        row(&unknown),
        ("henk-proxy network", Status::Warn, "could not query Docker networks")
    );
    assert_eq!(
        line(&proxy_network_command()),
        "docker network ls --filter name=henk-proxy --format {{.Name}}"
    );
}

#[test]
fn our_own_proxy_is_not_foreign() {
    let ours = probe_foreign_traefik(&said("henk-traefik\n"));
    assert_eq!(row(&ours), ("foreign Traefik", Status::Okay, "none running"));
    let foreign = probe_foreign_traefik(&said("edge\nhenk-traefik\n\n proxy \n"));
    assert_eq!(
        row(&foreign),
        ("foreign Traefik", Status::Warn, "found: edge, proxy (may compete for ports)")
    );
    let unknown = probe_foreign_traefik(&Reply::Unavailable);
    assert_eq!(
        row(&unknown),
        ("foreign Traefik", Status::Info, "could not enumerate (Docker probe failed)")
    );
    assert_eq!(
        line(&traefik_command()),
        "docker ps --filter ancestor=traefik --format {{.Names}}"
    );
}

#[test]
fn homebrew_in_every_state() {
    let gone = probe_homebrew(false, &Reply::Unavailable);
    assert_eq!(row(&gone), ("Homebrew", Status::Block, "not installed (https://brew.sh)"));
    let broken = probe_homebrew(true, &refused("", ""));
    assert_eq!(
        row(&broken),
        ("Homebrew", Status::Warn, "found in $PATH but `brew --version` failed")
    );
    assert_eq!(probe_homebrew(true, &said("")).detail, "installed");
    assert_eq!(line(&brew_version_command()), "brew --version");
    assert_eq!(line(&brew_list_command("nss")), "brew list --versions nss");
    let both = PackageFacts { in_path: true, in_brew: true };
    assert_eq!(probe_mkcert(&both).name, "mkcert");
    assert_eq!(probe_nss(&both).name, "nss");
    assert_eq!(probe_dnsmasq(&both).detail, "installed");
}

#[test]
fn other_tools_are_noticed() {
    assert!(valet_detected(true, false) && valet_detected(false, true));
    assert!(!valet_detected(false, false));
    assert!(herd_detected(true, false) && herd_detected(false, true));
    assert!(!herd_detected(false, false));
    assert_eq!(
        row(&valet_item(true)),
        (
            "Laravel Valet",
            Status::Warn,
            "detected — henk will avoid `.test` to coexist"
        )
    );
    assert_eq!(row(&herd_item(false)), ("Laravel Herd", Status::Okay, "not detected"));
    assert_eq!(
        row(&ddev_item(true)),
        ("DDEV", Status::Info, "detected — fine unless it's running on :80/:443")
    );
    assert_eq!(row(&lando_item(false)), ("Lando", Status::Okay, "not detected"));
}

#[test]
fn the_resolver_file_in_every_state() {
    let ours = resolver::probe(
        "test",
        &FileState::Text(
            "# managed by henk — see https://github.com/fivespark/henk\nnameserver 127.0.0.1\n"
                .to_string(),
        ),
    );
    assert_eq!(ours.status, Status::Info);
    assert_eq!(ours.detail, "/etc/resolver/test exists (managed by henk; reused)");
    let foreign = resolver::probe("test", &FileState::Text("nameserver 127.0.0.1\n".to_string()));
    assert_eq!(foreign.status, Status::Block);
    assert_eq!(
        foreign.detail,
        "/etc/resolver/test exists but isn't ours — pick a different TLD with --tld"
    );
    let unreadable = resolver::probe("test", &FileState::Unreadable);
    assert_eq!(unreadable.status, Status::Warn);
    assert_eq!(unreadable.detail, "/etc/resolver/test exists but is unreadable");
}

#[test]
fn glyphs_are_coloured() {
    assert_eq!(Status::Okay.glyph(), "\u{1b}[32m✓\u{1b}[39m");
    assert_eq!(Status::Warn.glyph(), "\u{1b}[33m!\u{1b}[39m");
    assert_eq!(Status::Block.glyph(), "\u{1b}[31m✗\u{1b}[39m");
    assert_eq!(Status::Info.glyph(), "\u{1b}[90mi\u{1b}[39m");
}

#[test]
fn the_name_column_is_measured_in_bytes() {
    let report = DetectionReport {
        items: vec![
            item("é", Status::Info, "x".to_string()),
            item("a", Status::Info, "y".to_string()),
        ],
        tld: decide(None, false, false),
    };
    let text = report.print();
    assert!(text.contains("  é    x\n"));
    assert!(text.contains("  a    y\n"));
}
