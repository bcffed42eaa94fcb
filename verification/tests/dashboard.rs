//! The live dashboard.

use henk::config::{Config, Ports};
use henk::detect::backend::{twins_in, RouteFile};
use henk::runner::{CommandOutput, Reply};
use henk::tui::dashboard::{
    collect_projects, dnsmasq_command, drop_twins, initial_selection, move_selection, on_key,
    parse_project_row, project_row, refresh_due, render_cert_panel, render_footer,
    render_project_detail, render_project_list, render_title, DashboardAction, DashboardFacts,
    DashboardState, Key, StyledLine, Tint,
};
use henk::yaml::Yaml;

fn said(stdout: &str) -> Reply {
    Reply::Output(CommandOutput {
        status: 0,
        stdout: stdout.to_string(),
        stderr: String::new(),
    })
}

fn text(line: &StyledLine) -> String {
    line.pieces.iter().map(|p| p.text.as_str()).collect()
}

#[test]
fn parse_project_row_extracts_hosts_and_backends() {
    let body = r#"
http:
  routers:
    spatiebalk:
      rule: "Host(`spatiebalk.test`)"
      service: spatiebalk
    spatiebalk-vite:
      rule: "Host(`vite.spatiebalk.test`)"
      service: spatiebalk-vite
  services:
    spatiebalk:
      loadBalancer:
        servers:
          - url: "http://laravel.test:80"
    spatiebalk-vite:
      loadBalancer:
        servers:
          - url: "http://laravel.test:5173"
"#;
    let row = parse_project_row("spatiebalk".into(), body);
    assert_eq!(row.slug, "spatiebalk");
    assert_eq!(
        row.hosts,
        vec!["spatiebalk.test".to_string(), "vite.spatiebalk.test".to_string()]
    );
    assert_eq!(row.backends.len(), 2);
    assert_eq!(row.mode, "docker");
}

#[test]
fn parse_project_row_detects_host_mode_from_backend_url() {
    let body = r#"
services:
  sparkle:
    loadBalancer:
      servers:
        - url: "http://host.docker.internal:3000"
http:
  routers:
    sparkle:
      rule: "Host(`sparkle.test`)"
"#;
    let row = parse_project_row("sparkle".into(), body);
    assert_eq!(row.mode, "host");
}

#[test]
fn a_redirect_twin_is_not_listed() {
    let body = "http:\n  routers:\n    a:\n      rule: \"Host(`a.test`)\"\n      service: a\n    a-http:\n      rule: \"Host(`a.test`)\"\n      middlewares:\n        - henk-https-redirect\n      service: a\n";
    assert_eq!(parse_project_row("a".into(), body).hosts, vec!["a.test"]);
    let two = "http:\n  routers:\n    a:\n      rule: \"Host(`a.test`) || Host(`b.test`)\"\n      middlewares: [other]\n";
    assert_eq!(parse_project_row("a".into(), two).hosts, vec!["a.test", "b.test"]);
    // What is no YAML, and what stands outside a router, still counts.
    assert_eq!(parse_project_row("a".into(), "a: [ Host(`a.test`)").hosts, vec!["a.test"]);
    let noted = format!("# was Host(`old.test`)\n{body}");
    assert_eq!(parse_project_row("a".into(), &noted).hosts, vec!["old.test", "a.test"]);
    assert!(parse_project_row("a".into(), "a: [").hosts.is_empty());
    let words = |list: &[&str]| list.iter().map(|s| s.to_string()).collect::<Vec<String>>();
    let named = words(&["a", "a", "b", "c", "b"]);
    assert_eq!(drop_twins(named, &words(&["a", "b", "d"])), words(&["a", "b", "c"]));
    let text = |s: &str| Yaml::Text(s.to_string());
    let router = |middleware: &str| {
        Yaml::Mapping(vec![
            (text("rule"), text(&format!("rule of {middleware}"))),
            (text("middlewares"), Yaml::Sequence(vec![text(middleware)])),
        ])
    };
    let routers = Yaml::Mapping(vec![
        (text("a"), router("other")),
        (text("a-http"), router("henk-https-redirect")),
    ]);
    let doc = Yaml::Mapping(vec![(
        text("http"),
        Yaml::Mapping(vec![(text("routers"), routers)]),
    )]);
    assert_eq!(twins_in(&doc), vec!["rule of henk-https-redirect"]);
}

#[test]
fn one_backend_on_the_host_decides_the_mode() {
    let urls = vec!["http://web:80".to_string(), "http://host.docker.internal:1".to_string()];
    assert_eq!(project_row("a".to_string(), vec![], urls).mode, "host");
    assert_eq!(project_row("a".to_string(), vec![], vec![]).mode, "docker");
}

#[test]
fn the_selection_goes_round() {
    assert_eq!(move_selection(Some(0), 3, -1), Some(2));
    assert_eq!(move_selection(Some(2), 3, 1), Some(0));
    assert_eq!(move_selection(None, 3, 1), Some(1));
    assert_eq!(move_selection(None, 3, -1), Some(2));
    assert_eq!(move_selection(Some(5), 3, 1), Some(0));
    assert_eq!(move_selection(Some(1), 0, 1), Some(1));
    assert_eq!(move_selection(Some(1), 4, -9), Some(0));
    assert_eq!(move_selection(move_selection(Some(2), 3, 1), 3, -1), Some(2));
    assert_eq!(move_selection(Some(0), 2, i32::MIN), Some(0));
    assert_eq!(initial_selection(0), None);
    assert_eq!(initial_selection(2), Some(0));
}

#[test]
fn keys_do_what_the_footer_says() {
    assert_eq!(on_key(Key::Char('q'), false), DashboardAction::Quit);
    assert_eq!(on_key(Key::Esc, false), DashboardAction::Quit);
    assert_eq!(on_key(Key::Char('c'), true), DashboardAction::Quit);
    assert_eq!(on_key(Key::Char('c'), false), DashboardAction::Ignore);
    assert_eq!(on_key(Key::Char('r'), false), DashboardAction::Refresh);
    assert_eq!(on_key(Key::Up, false), DashboardAction::Previous);
    assert_eq!(on_key(Key::Char('k'), false), DashboardAction::Previous);
    assert_eq!(on_key(Key::Down, false), DashboardAction::Following);
    assert_eq!(on_key(Key::Char('j'), true), DashboardAction::Following);
    assert_eq!(on_key(Key::Other, true), DashboardAction::Ignore);
    assert_eq!(text(&render_footer()), "q quit  ·  r refresh  ·  ↑/k ↓/j navigate");
    assert!(!refresh_due(1999));
    assert!(refresh_due(2000));
}

fn facts() -> DashboardFacts {
    DashboardFacts {
        traefik: said("henk-traefik\n"),
        dnsmasq: Reply::Unavailable,
        cert: Some((
            said("X509v3 Subject Alternative Name:\n  DNS:*.dev, DNS:dev\n"),
            said("notAfter=soon\n"),
        )),
        files: vec![
            RouteFile {
                name: "b.yml".to_string(),
                body: "http:\n  routers:\n    b:\n      rule: \"Host(`b.dev`)\"\n  services:\n    b:\n      loadBalancer:\n        servers:\n          - url: \"http://web:80\"\n"
                    .to_string(),
            },
            RouteFile { name: "_henk.yml".to_string(), body: String::new() },
            RouteFile { name: "a.yml".to_string(), body: String::new() },
        ],
    }
}

fn configured() -> Option<Config> {
    Some(Config {
        schema_version: 1,
        tld: "dev".to_string(),
        ports: Ports { http: 8080, https: 8443, dnsmasq: 53, dashboard: 9000 },
        update_check: true,
    })
}

#[test]
fn the_state_is_collected_and_refreshed() {
    let mut s = DashboardState::collect(&configured(), &facts());
    assert_eq!(s.tld, "dev");
    assert!(s.traefik_running);
    assert!(!s.dnsmasq_answering);
    assert_eq!(s.cert_sans, vec!["*.dev", "dev"]);
    assert_eq!(s.cert_expires, Some("soon".to_string()));
    let slugs: Vec<&str> = s.projects.iter().map(|p| p.slug.as_str()).collect();
    assert_eq!(slugs, vec!["a", "b"]);
    let mut later = facts();
    later.cert = None;
    later.traefik = said("");
    later.dnsmasq = said("");
    later.files = vec![];
    s.refresh(&later);
    assert_eq!(s.tld, "dev");
    assert!(!s.traefik_running && s.dnsmasq_answering);
    assert!(s.cert_sans.is_empty() && s.cert_expires.is_none() && s.projects.is_empty());
    assert_eq!(dnsmasq_command("dev").args[4], "henk-dashboard-probe.dev");
}

#[test]
fn an_uninitialised_host_shows_the_defaults() {
    let s = DashboardState::collect(&None, &facts());
    assert_eq!(
        text(&render_title(&s)),
        "henk dashboard  ·  .test  ·  stack: running  ·  dnsmasq: :53 silent  ·  ports 80/443/19080"
    );
}

#[test]
fn panels_in_full() {
    let s = DashboardState::collect(&configured(), &facts());
    let title = render_title(&s);
    assert_eq!(title.pieces[0].tint, Tint::Cyan);
    assert!(title.pieces[0].bold);
    assert_eq!(title.pieces[3].tint, Tint::Green);
    assert_eq!(title.pieces[5].tint, Tint::Red);
    let list: Vec<String> = render_project_list(&s).iter().map(text).collect();
    assert_eq!(list, vec!["● a  (0)", "● b  (1)"]);
    let detail: Vec<String> = render_project_detail(&s, Some(1)).iter().map(text).collect();
    assert_eq!(
        detail,
        vec![
            "slug:    b",
            "mode:    docker",
            "",
            "hosts",
            "  https://b.dev",
            "",
            "backends",
            "  http://web:80",
        ]
    );
    let short: Vec<String> = render_project_detail(&s, Some(0)).iter().map(text).collect();
    assert_eq!(short, vec!["slug:    a", "mode:    docker", "", "hosts"]);
    assert_eq!(text(&render_project_detail(&s, None)[0]), "no project selected");
    assert_eq!(text(&render_project_detail(&s, Some(7))[0]), "no project selected");
    let cert: Vec<String> = render_cert_panel(&s).iter().map(text).collect();
    assert_eq!(cert, vec!["cert: 2 SANs  ·  expires soon", "*.dev, dev"]);
}

#[test]
fn empty_panels() {
    let mut f = facts();
    f.cert = None;
    f.files = vec![];
    let s = DashboardState::collect(&None, &f);
    assert_eq!(text(&render_project_list(&s)[0]), "(no linked projects)");
    assert_eq!(text(&render_cert_panel(&s)[0]), "no wildcard cert on disk yet");
    assert!(collect_projects(&vec![]).is_empty());
}
