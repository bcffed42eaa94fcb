//! The global stack: templates, certificates, DNS, and its lifecycle.

use henk::config::Config;
use henk::consts::HENK_FILE_HEADER;
use henk::manifest::{steps, StateManifest};
use henk::project::env_file::FileState;
use henk::runner::{
    container_command, container_running, failure, has_line, CommandOutput, Invocation, Reply,
    SystemRunner,
};
use henk::stack::assets::{
    COMPOSE_TMPL, DYNAMIC_TMPL, ERRORPAGE_NGINX_TMPL, TRAEFIK_TMPL,
};
use henk::stack::certinfo::{
    cert_enddate_command, cert_text_command, dig_command, dnsmasq_answering, read_cert_expiry,
    read_cert_sans,
};
use henk::stack::certs::{
    ca_command, cert_path, cert_path_from, cert_path_in, ensure_ca_installed, ensure_wildcard,
    key_path, key_path_from, key_path_in, wildcard_issued,
};
use henk::stack::dnsmasq::{
    brew_install_command, brew_installed, brew_prefix, brew_prefix_command, config_path, ensure,
    remove_drop_in, start_service, start_service_command, write_drop_in, DnsmasqStep,
};
use henk::stack::lifecycle::{
    announce_init, compose_restart, compose_restart_command, compose_up, compose_up_command, down,
    ensure_network, init_full, network_created, owned_network_command, print_up_summary,
    require_docker, require_ports_free, stack_set_up, stopped, up, InitStep, PortReplies, UpStep,
};
use henk::stack::paths::{
    config_dir, config_dir_from, data_dir_in, dynamic_projects_dir, dynamic_projects_dir_from,
    errorpage_nginx_path, errorpage_nginx_path_from, errorpage_path, errorpage_path_from,
    errorpages_dir, errorpages_dir_from, home, home_from, join, traefik_compose_path,
    traefik_compose_path_from, traefik_dir, traefik_dir_from, traefik_dynamic_path,
    traefik_dynamic_path_from, traefik_static_path, traefik_static_path_from, Home, HomePath,
    PathError,
};
use henk::stack::resolver::{
    ensure_removed, ensure_written, install_action, install_with_sudo, removed, resolver_path,
    status, InstallAction, InstallEvent, InstallState, ResolverStatus,
};
use henk::stack::templates::{
    app_error_page, boot_config_changed, down_page, render, render_all, render_html_page,
    unlinked_page, vars_from, write_if_changed, ErrorPage,
};
use henk::stack::{dnsmasq, resolver, templates};

fn cfg() -> Config {
    Config::default()
}

fn said(stdout: &str) -> Reply {
    Reply::Output(CommandOutput {
        status: 0,
        stdout: stdout.to_string(),
        stderr: String::new(),
    })
}

fn refused(stdout: &str, stderr: &str) -> Reply {
    Reply::Output(CommandOutput {
        status: 1,
        stdout: stdout.to_string(),
        stderr: stderr.to_string(),
    })
}

fn line(cmd: &Invocation) -> String {
    format!("{} {}", cmd.program, cmd.args.join(" "))
}

fn pages() -> Vec<ErrorPage> {
    vec![down_page(), app_error_page(), unlinked_page()]
}

fn page(name: &str) -> ErrorPage {
    pages().into_iter().find(|page| page.name == name).expect("page exists")
}

#[test]
fn drop_in_carries_header_and_address_directive() {
    let body = dnsmasq::render("test");
    assert!(body.contains("# managed by henk"));
    assert!(body.contains("address=/.test/127.0.0.1"));
    assert!(!body.contains("{{"));
}

#[test]
fn drop_in_substitutes_fallback_tld() {
    let body = dnsmasq::render("henk");
    assert!(body.contains("address=/.henk/127.0.0.1"));
}

#[test]
fn compose_template_substitutes_ports_and_header() {
    let rendered = render(COMPOSE_TMPL, &vars_from(&cfg()));
    assert!(rendered.contains("# managed by henk"));
    assert!(rendered.contains("\"80:80\""));
    assert!(rendered.contains("\"443:443\""));
    assert!(rendered.contains("127.0.0.1:19080:8080"));
    assert!(rendered.contains("name: henk-proxy"));
    assert!(rendered.contains("error-pages"), "ships the branded error-pages service");
    assert!(
        rendered.contains("../errorpages:/usr/share/nginx/html"),
        "the whole errorpages dir is the web root, so a new page needs no compose change"
    );
    assert!(!rendered.contains("{{"), "no template residue: \n{rendered}");
}

#[test]
fn every_page_renders_as_html_and_as_text() {
    let vars = vars_from(&cfg());
    for page in pages() {
        let html = render_html_page(&page, &vars);
        assert!(html.contains(page.title), "{}: title in the shell", page.name);
        assert!(html.contains("<main>"), "{}: body in the shell", page.name);
        assert!(html.contains("<style>"), "{}: shared chrome", page.name);
        assert!(!html.contains("{{"), "{}: html residue", page.name);

        let text = render(page.text, &vars);
        assert!(!text.contains("</"), "{}: text carries markup", page.name);
        assert!(!text.contains("{{"), "{}: text residue", page.name);
    }
}

#[test]
fn down_page_names_the_three_causes_and_hands_off_to_doctor() {
    let vars = vars_from(&cfg());
    let down = page("down");
    for rendered in [render_html_page(&down, &vars), render(down.text, &vars)] {
        assert!(rendered.contains("0.0.0.0"), "the loopback-bind fix");
        assert!(rendered.contains("allowedHosts"), "the rejected-host fix");
        assert!(rendered.contains("henk doctor"), "hands off to the probe");
        assert!(rendered.contains(".test"), "TLD substituted");
    }
}

#[test]
fn app_error_page_does_not_blame_the_dev_server() {
    let vars = vars_from(&cfg());
    let app_error = page("app-error");
    for rendered in [render_html_page(&app_error, &vars), render(app_error.text, &vars)] {
        assert!(!rendered.contains("0.0.0.0"));
        assert!(!rendered.contains("allowedHosts"));
        assert!(!rendered.contains("isn't running"));
    }
}

#[test]
fn unlinked_page_points_at_status_and_link() {
    let vars = vars_from(&cfg());
    let unlinked = page("unlinked");
    for rendered in [render_html_page(&unlinked, &vars), render(unlinked.text, &vars)] {
        assert!(rendered.contains("henk status"));
        assert!(rendered.contains("henk link"));
    }
}

#[test]
fn error_page_nginx_answers_an_error_status_not_200() {
    let rendered = render(ERRORPAGE_NGINX_TMPL, &vars_from(&cfg()));
    assert!(rendered.contains("return 503;"));
    assert!(rendered.contains("return 404;"));
    assert!(rendered.contains("error_page 404 500 501 502 503 504 505 /henk-page;"));
    assert!(rendered.contains("listen 8080;"), "matches the Traefik service URL");
    assert!(!rendered.contains("{{"));
}

#[test]
fn error_page_nginx_negotiates_format_and_page() {
    let rendered = render(ERRORPAGE_NGINX_TMPL, &vars_from(&cfg()));
    assert!(
        rendered.contains("map $http_accept $henk_ext"),
        "html for browsers, text for curl and coding agents"
    );
    assert!(rendered.contains("map $request_uri $henk_body"));
    assert!(rendered.contains("try_files /$henk_body.$henk_ext"));
    assert!(rendered.contains("Vary Accept"), "the two variants are cacheable");
    for page in pages() {
        assert!(rendered.contains(page.name), "nginx can reach the {} page", page.name);
    }
}

#[test]
fn traefik_template_uses_file_provider_only() {
    let rendered = render(TRAEFIK_TMPL, &vars_from(&cfg()));
    assert!(rendered.contains("file:"), "needs file provider");
    assert!(!rendered.contains("docker:"), "must NOT enable docker provider");
    assert!(!rendered.contains("{{"));
}

#[test]
fn entrypoints_default_to_the_error_middleware() {
    let rendered = render(TRAEFIK_TMPL, &vars_from(&cfg()));
    assert_eq!(
        rendered.matches("henk-errors@file").count(),
        2,
        "errors middleware default on web + websecure"
    );
}

#[test]
fn dynamic_template_carries_wildcard_cert_paths() {
    let rendered = render(DYNAMIC_TMPL, &vars_from(&cfg()));
    assert!(rendered.contains("certFile: /certs/_wildcard.test.pem"));
    assert!(rendered.contains("keyFile: /certs/_wildcard.test-key.pem"));
    assert!(rendered.contains("# managed by henk"));
    assert!(!rendered.contains("{{"));
}

#[test]
fn web_entrypoint_does_not_redirect_wholesale() {
    let rendered = render(TRAEFIK_TMPL, &vars_from(&cfg()));
    assert!(!rendered.contains("redirections:"));
}

#[test]
fn catchall_answers_unlinked_hosts_on_both_entrypoints() {
    let rendered = render(DYNAMIC_TMPL, &vars_from(&cfg()));
    assert!(rendered.contains("henk-catchall:"));
    assert!(rendered.contains("henk-catchall-http:"));
    assert!(rendered.contains("priority: 1"));
    assert!(
        rendered.contains("path: /unlinked"),
        "replacePath gives nginx a path to key the unlinked page off"
    );
    assert!(
        rendered.contains("henk-https-redirect:"),
        "the per-host routers reference it by name"
    );
    assert!(!rendered.contains("{{"));
}

#[test]
fn dynamic_template_defines_error_middleware_and_service() {
    let rendered = render(DYNAMIC_TMPL, &vars_from(&cfg()));
    assert!(rendered.contains("henk-errors:"), "errors middleware defined");
    assert!(rendered.contains("henk-error-pages:"), "error service defined");
    assert!(
        rendered.contains("http://error-pages:8080"),
        "points at the error-pages container"
    );
    assert!(!rendered.contains("{{"));
}

#[test]
fn fallback_tld_substitutes_throughout() {
    let cfg = Config { tld: "henk".into(), ..Config::default() };
    let v = vars_from(&cfg);
    assert!(render(DYNAMIC_TMPL, &v).contains("Host(`traefik.henk`)"));
    assert!(render(DYNAMIC_TMPL, &v).contains("certFile: /certs/_wildcard.henk.pem"));
}

#[test]
fn rendering_substitutes_every_variable() {
    let vars = vars_from(&cfg());
    assert_eq!(
        render("{{TLD}}/{{HTTP_PORT}}/{{HTTPS_PORT}}/{{DASHBOARD_PORT}}", &vars),
        "test/80/443/19080"
    );
    assert_eq!(render("no variables {TLD}", &vars), "no variables {TLD}");
    assert_eq!(render("{{OTHER}}", &vars), "{{OTHER}}");
}

#[test]
fn the_rendered_stack_lies_under_the_config_directory() {
    let files = render_all(&cfg(), "/Users/me");
    let paths: Vec<&str> = files.iter().map(|f| f.path.as_str()).collect();
    assert_eq!(
        paths,
        vec![
            "/Users/me/.config/henk/traefik/compose.yml",
            "/Users/me/.config/henk/traefik/traefik.yml",
            "/Users/me/.config/henk/dynamic/_henk.yml",
            "/Users/me/.config/henk/errorpages/down.html",
            "/Users/me/.config/henk/errorpages/down.txt",
            "/Users/me/.config/henk/errorpages/app-error.html",
            "/Users/me/.config/henk/errorpages/app-error.txt",
            "/Users/me/.config/henk/errorpages/unlinked.html",
            "/Users/me/.config/henk/errorpages/unlinked.txt",
            "/Users/me/.config/henk/errorpages/nginx.conf",
        ]
    );
    let boot: Vec<bool> = files.iter().map(|f| f.boot).collect();
    assert_eq!(
        boot,
        vec![false, true, false, false, false, false, false, false, false, true]
    );
}

#[test]
fn only_changed_boot_config_asks_for_a_restart() {
    let files = render_all(&cfg(), "/Users/me");
    let mut on_disk: Vec<Option<String>> =
        files.iter().map(|f| Some(f.contents.clone())).collect();
    assert!(!boot_config_changed(&files, &on_disk));
    on_disk[0] = None;
    assert!(!boot_config_changed(&files, &on_disk));
    on_disk[1] = Some("old".to_string());
    assert!(boot_config_changed(&files, &on_disk));
    assert!(!write_if_changed(&Some("x".to_string()), "x"));
    assert!(write_if_changed(&Some("y".to_string()), "x"));
    assert!(write_if_changed(&None, "x"));
    assert_eq!(templates::staging_path("/a/down.html"), "/a/down.html.tmp");
}

#[test]
fn the_resolver_file_is_ours_once_written() {
    let written = ensure_written("test", &FileState::Missing).unwrap().unwrap();
    assert_eq!(written, format!("{HENK_FILE_HEADER}\nnameserver 127.0.0.1\n"));
    assert_eq!(written, resolver::render());
    let file = FileState::Text(written);
    assert!(matches!(status(&file), ResolverStatus::Ours));
    assert_eq!(ensure_written("test", &file), Ok(None));
    let stale = FileState::Text(format!("{HENK_FILE_HEADER}\nport 35353\n"));
    assert_eq!(ensure_written("test", &stale), Ok(Some(resolver::render())));
    assert_eq!(resolver_path("test"), "/etc/resolver/test");
}

#[test]
fn foreign_resolver_files_are_refused() {
    let foreign = FileState::Text("nameserver 127.0.0.1\n".to_string());
    assert!(matches!(status(&foreign), ResolverStatus::Foreign));
    assert!(matches!(status(&FileState::Unreadable), ResolverStatus::Foreign));
    assert!(matches!(status(&FileState::Missing), ResolverStatus::Missing));
    assert_eq!(
        ensure_written("test", &foreign).unwrap_err(),
        "/etc/resolver/test exists but is not managed by henk.\nRefusing to overwrite. Either remove that file manually or pick a different TLD."
    );
    assert_eq!(
        ensure_removed("test", &foreign).unwrap_err(),
        "/etc/resolver/test exists but is not managed by henk; not removing"
    );
    assert_eq!(ensure_removed("test", &FileState::Missing), Ok(None));
    let ours = FileState::Text(resolver::render());
    let cmd = ensure_removed("test", &ours).unwrap().unwrap();
    assert_eq!(line(&cmd), "sudo rm -f /etc/resolver/test");
    assert_eq!(removed("test", &said("")), Ok(()));
    assert_eq!(
        removed("test", &refused("a\n", "b\n")).unwrap_err(),
        "could not remove /etc/resolver/test:\na\nb"
    );
    assert_eq!(
        removed("test", &Reply::Unavailable).unwrap_err(),
        "sudo rm /etc/resolver/<tld>"
    );
}

#[test]
fn the_resolver_file_is_installed_with_sudo() {
    let tmp = resolver::staging_path("/tmp", "test", 42);
    assert_eq!(tmp, "/tmp/henk-resolver-test-42");
    let at = |s: &InstallState| install_action(s, "/tmp/henk-resolver-test-42", "test");
    let go = |s: InstallState, e: InstallEvent| {
        install_with_sudo(s, &e, "/tmp/henk-resolver-test-42", "test")
    };
    let s = InstallState::Staging;
    assert!(matches!(at(&s), InstallAction::Stage));
    let s = go(s, InstallEvent::Staged);
    match at(&s) {
        InstallAction::Run(cmd) => {
            assert_eq!(line(&cmd), "sudo install -d -m 0755 /etc/resolver")
        }
        _ => panic!("the directory is made first"),
    }
    let s = go(s, InstallEvent::Ran(said("")));
    match at(&s) {
        InstallAction::Run(cmd) => assert_eq!(
            line(&cmd),
            "sudo install -m 0644 /tmp/henk-resolver-test-42 /etc/resolver/test"
        ),
        _ => panic!("the file is installed second"),
    }
    let s = go(s, InstallEvent::Ran(said("")));
    assert!(matches!(at(&s), InstallAction::CleanUp));
    let s = go(s, InstallEvent::CleanedUp);
    assert!(matches!(at(&s), InstallAction::Finish(Ok(()))));
}

#[test]
fn a_refused_directory_is_cleaned_up_after() {
    let go = |s: InstallState, e: InstallEvent| install_with_sudo(s, &e, "/tmp/x", "test");
    let s = go(InstallState::Staging, InstallEvent::Staged);
    let s = go(s, InstallEvent::Ran(refused("", "denied\n")));
    assert!(matches!(install_action(&s, "/tmp/x", "test"), InstallAction::CleanUp));
    let s = go(s, InstallEvent::CleanedUp);
    match install_action(&s, "/tmp/x", "test") {
        InstallAction::Finish(Err(e)) => {
            assert_eq!(e, "could not ensure /etc/resolver exists:\n\ndenied")
        }
        _ => panic!("the failure is reported"),
    }
}

#[test]
fn mkcert_commands_and_their_outcomes() {
    assert_eq!(line(&ca_command()), "mkcert -install");
    assert_eq!(ensure_ca_installed(&said("")), Ok(()));
    assert_eq!(
        ensure_ca_installed(&refused("out \n", "err\n\n")).unwrap_err(),
        "mkcert -install failed:\nout\nerr"
    );
    assert_eq!(
        ensure_ca_installed(&Reply::Unavailable).unwrap_err(),
        "running `mkcert -install`"
    );
    let extra = vec!["traefik.test".to_string()];
    let cmd = ensure_wildcard("/Users/me", "test", false, &extra, true, false).unwrap();
    assert_eq!(
        line(&cmd),
        "mkcert -cert-file /Users/me/.config/henk/traefik/certs/_wildcard.test.pem -key-file /Users/me/.config/henk/traefik/certs/_wildcard.test-key.pem *.test test traefik.test"
    );
    assert!(ensure_wildcard("/Users/me", "test", false, &extra, true, true).is_none());
    assert!(ensure_wildcard("/Users/me", "test", true, &extra, true, true).is_some());
    assert_eq!(wildcard_issued(&said("")), Ok(()));
    assert_eq!(
        wildcard_issued(&refused("a", "b")).unwrap_err(),
        "mkcert wildcard generation failed:\na\nb"
    );
    assert_eq!(
        wildcard_issued(&Reply::Unavailable).unwrap_err(),
        "running `mkcert -cert-file ... -key-file ... *.<tld> <tld>`"
    );
}

#[test]
fn certificates_lie_under_the_home_directory() {
    assert_eq!(
        cert_path_in("/Users/me", "test"),
        "/Users/me/.config/henk/traefik/certs/_wildcard.test.pem"
    );
    assert_eq!(
        key_path_in("/Users/me", "test"),
        "/Users/me/.config/henk/traefik/certs/_wildcard.test-key.pem"
    );
    if let Ok(Home::Text(h)) = home() {
        assert_eq!(cert_path("test").unwrap().text(), Some(cert_path_in(&h, "test")));
        assert_eq!(key_path("test").unwrap().text(), Some(key_path_in(&h, "test")));
    }
}

#[test]
fn paths_lie_under_the_home_directory() {
    assert_eq!(join("/a", "b"), "/a/b");
    assert_eq!(join("/a/", "b"), "/a/b");
    assert_eq!(data_dir_in("/Users/me"), "/Users/me/.local/share/henk");
    if home().is_err() {
        assert!(config_dir() == Err(PathError::NoHome));
    }
    if let Ok(Home::Text(h)) = home() {
        assert!(!h.is_empty());
        let base = join(join(&h, ".config").as_str(), "henk");
        let is = |p: Result<HomePath, PathError>, tail: &str| {
            assert_eq!(p.unwrap().text(), Some(format!("{base}{tail}")));
        };
        is(config_dir(), "");
        is(traefik_dir(), "/traefik");
        is(traefik_compose_path(), "/traefik/compose.yml");
        is(traefik_static_path(), "/traefik/traefik.yml");
        is(dynamic_projects_dir(), "/dynamic");
        is(traefik_dynamic_path(), "/dynamic/_henk.yml");
        is(errorpages_dir(), "/errorpages");
        is(errorpage_path("x.txt"), "/errorpages/x.txt");
        is(errorpage_nginx_path(), "/errorpages/nginx.conf");
    }
    assert_eq!(home_from(None), Err(PathError::NoHome));
    assert_eq!(home_from(Some(me())), Ok(me()));
    assert_eq!(home_from(Some(Home::Raw(vec![0xff]))), Ok(Home::Raw(vec![0xff])));
    assert_eq!(PathError::NoHome.message(), "could not resolve $HOME");
}

fn me() -> Home {
    Home::Text("/Users/me".to_string())
}

/// Every path, for a home directory that may be missing.
fn all_paths(found: fn() -> Result<Home, PathError>) -> Vec<Result<HomePath, PathError>> {
    vec![
        config_dir_from(found()),
        traefik_dir_from(found()),
        traefik_compose_path_from(found()),
        traefik_static_path_from(found()),
        dynamic_projects_dir_from(found()),
        traefik_dynamic_path_from(found()),
        errorpages_dir_from(found()),
        errorpage_nginx_path_from(found()),
        errorpage_path_from(found(), "down.html"),
        cert_path_from(found(), "test"),
        key_path_from(found(), "test"),
    ]
}

const BELOW: [&str; 11] = [
    ".config/henk",
    ".config/henk/traefik",
    ".config/henk/traefik/compose.yml",
    ".config/henk/traefik/traefik.yml",
    ".config/henk/dynamic",
    ".config/henk/dynamic/_henk.yml",
    ".config/henk/errorpages",
    ".config/henk/errorpages/nginx.conf",
    ".config/henk/errorpages/down.html",
    ".config/henk/traefik/certs/_wildcard.test.pem",
    ".config/henk/traefik/certs/_wildcard.test-key.pem",
];

#[test]
fn a_path_follows_what_was_found_of_the_home_directory() {
    for (path, below) in all_paths(|| Ok(me())).into_iter().zip(BELOW) {
        assert_eq!(path.unwrap().text(), Some(format!("/Users/me/{below}")));
    }
    for path in all_paths(|| Err(PathError::NoHome)) {
        assert_eq!(path, Err(PathError::NoHome));
    }
    let elsewhere = errorpage_path_from(Ok(me()), "/etc/x").unwrap();
    assert_eq!(elsewhere.text(), Some("/etc/x".to_string()));
}

#[test]
fn a_home_directory_need_not_be_utf8() {
    let raw = || Ok(Home::Raw(vec![b'/', 0xff]));
    for (path, below) in all_paths(raw).into_iter().zip(BELOW) {
        let path = path.unwrap();
        assert_eq!(path.home, Home::Raw(vec![b'/', 0xff]));
        assert_eq!(path.below, below);
        assert_eq!(path.text(), None);
    }
    let elsewhere = errorpage_path_from(raw(), "/etc/x").unwrap();
    assert_eq!(elsewhere.text(), Some("/etc/x".to_string()));
}

#[test]
fn homebrew_dnsmasq_is_installed_written_and_restarted() {
    assert_eq!(line(&brew_prefix_command()), "brew --prefix");
    assert_eq!(brew_prefix(&said("\n/opt/homebrew\n")), Ok("/opt/homebrew".to_string()));
    assert_eq!(
        brew_prefix(&said(" \n")).unwrap_err(),
        "`brew --prefix` produced no output"
    );
    assert_eq!(
        brew_prefix(&refused("a\n", "b")).unwrap_err(),
        "could not resolve Homebrew prefix:\na\nb"
    );
    assert_eq!(brew_prefix(&Reply::Unavailable).unwrap_err(), "running `brew --prefix`");
    assert_eq!(
        config_path("/opt/homebrew", "test"),
        "/opt/homebrew/etc/dnsmasq.d/henk-test.conf"
    );
    assert_eq!(
        ensure(false, false),
        vec![DnsmasqStep::Install, DnsmasqStep::WriteDropIn, DnsmasqStep::Restart]
    );
    assert_eq!(ensure(true, false), vec![DnsmasqStep::WriteDropIn, DnsmasqStep::Restart]);
    assert_eq!(ensure(false, true), vec![DnsmasqStep::WriteDropIn, DnsmasqStep::Restart]);
    assert_eq!(line(&brew_install_command("dnsmasq")), "brew install dnsmasq");
    assert_eq!(brew_installed("dnsmasq", Some(0)), Ok(()));
    assert_eq!(
        brew_installed("dnsmasq", Some(-1)).unwrap_err(),
        "`brew install dnsmasq` failed with exit code -1"
    );
    assert_eq!(
        brew_installed("dnsmasq", None).unwrap_err(),
        "running `brew install dnsmasq`"
    );
    assert_eq!(write_drop_in(&None, "test"), Some(dnsmasq::render("test")));
    assert_eq!(write_drop_in(&Some(dnsmasq::render("test")), "test"), None);
    assert_eq!(line(&start_service_command()), "sudo brew services restart dnsmasq");
    assert_eq!(start_service(&said("")), Ok(()));
    assert_eq!(
        start_service(&refused("", "no")).unwrap_err(),
        "could not start dnsmasq:\n\nno"
    );
    assert_eq!(
        start_service(&Reply::Unavailable).unwrap_err(),
        "sudo brew services restart dnsmasq"
    );
    assert_eq!(
        remove_drop_in("/opt/homebrew", "test", true),
        Some("/opt/homebrew/etc/dnsmasq.d/henk-test.conf".to_string())
    );
    assert_eq!(remove_drop_in("/opt/homebrew", "test", false), None);
}

#[test]
fn up_restarts_only_when_boot_config_changed() {
    let run = |changed: bool| {
        let mut steps = vec![UpStep::RequireDocker];
        while *steps.last().unwrap() != UpStep::Done {
            let next = up(*steps.last().unwrap(), changed);
            steps.push(next);
        }
        steps
    };
    assert_eq!(
        run(true),
        vec![
            UpStep::RequireDocker,
            UpStep::RequirePorts,
            UpStep::Render,
            UpStep::Migrate,
            UpStep::Network,
            UpStep::ComposeUp,
            UpStep::Restart,
            UpStep::RecordVersion,
            UpStep::Summary,
            UpStep::Done,
        ]
    );
    assert!(!run(false).contains(&UpStep::Restart));
    assert_eq!(run(false).len(), 9);
}

#[test]
fn the_full_setup_runs_in_order() {
    let mut steps = vec![InitStep::RequireDocker];
    while *steps.last().unwrap() != InitStep::Done {
        let next = init_full(*steps.last().unwrap());
        steps.push(next);
    }
    assert_eq!(
        steps,
        vec![
            InitStep::RequireDocker,
            InitStep::RequirePorts,
            InitStep::Authority,
            InitStep::Certificate,
            InitStep::Dnsmasq,
            InitStep::Resolver,
            InitStep::Up,
            InitStep::Done,
        ]
    );
    assert_eq!(
        announce_init(InitStep::Certificate, "test"),
        "⤷ issuing wildcard cert for *.test (with traefik.test as explicit SAN) ...\n"
    );
    assert_eq!(
        announce_init(InitStep::Resolver, "test"),
        "⤷ writing /etc/resolver/test (sudo prompt incoming if not cached) ...\n"
    );
    assert_eq!(announce_init(InitStep::RequireDocker, "test"), "");
}

fn port_replies(http: Reply, https: Reply, dashboard: Reply) -> PortReplies {
    PortReplies { http, https, dashboard }
}

#[test]
fn docker_and_free_ports_are_required() {
    assert_eq!(require_docker(&said("29")), Ok(()));
    assert_eq!(
        require_docker(&refused("", "")).unwrap_err(),
        "Docker is not running. Start Docker Desktop and try again."
    );
    assert!(require_docker(&Reply::Unavailable).is_err());
    let free = || refused("", "");
    assert_eq!(require_ports_free(false, &port_replies(free(), free(), free())), Ok(()));
    let busy = || said("p9\ncnginx\n");
    assert_eq!(require_ports_free(true, &port_replies(busy(), busy(), busy())), Ok(()));
    assert_eq!(
        require_ports_free(false, &port_replies(busy(), free(), busy())).unwrap_err(),
        "cannot bind required ports — Traefik would silently lose these bindings under Docker Desktop:\n  · in use by `nginx` (pid 9) — needed for http; stop it or pick another port\n  · in use by `nginx` (pid 9) — needed for Traefik dashboard; stop it or pick another port\nStop the offending process(es) and re-run."
    );
}

#[test]
fn the_proxy_network_is_created_when_missing() {
    let ours = said("henk-proxy\n");
    assert!(ensure_network(&said("henk-proxy\n"), &ours, false).unwrap().is_none());
    assert!(ensure_network(&refused("henk-proxy\n", ""), &ours, false).unwrap().is_none());
    assert_eq!(
        line(&ensure_network(&said("other\n"), &said(""), true).unwrap().unwrap()),
        "docker network create --label henk.managed=true henk-proxy"
    );
    assert!(ensure_network(&Reply::Unavailable, &Reply::Unavailable, false).unwrap().is_some());
    assert_eq!(
        line(&owned_network_command()),
        "docker network ls --filter name=henk-proxy --filter label=henk.managed=true --format {{.Name}}"
    );
    assert_eq!(network_created(&said("id")), Ok(()));
    assert_eq!(
        network_created(&refused("a", "b")).unwrap_err(),
        "could not create network `henk-proxy`:\na\nb"
    );
    assert_eq!(
        network_created(&Reply::Unavailable).unwrap_err(),
        "creating docker network `henk-proxy`"
    );
}

#[test]
fn a_foreign_proxy_network_is_refused() {
    for owned in [said(""), said("other\n"), refused("", "no"), Reply::Unavailable] {
        assert_eq!(
            ensure_network(&said("henk-proxy\n"), &owned, false).unwrap_err(),
            "a Docker network named `henk-proxy` exists, but henk did not create it.\nRefusing to use it. Remove it with `docker network rm henk-proxy` and re-run."
        );
    }
}

#[test]
fn a_network_from_before_the_label_is_reused() {
    let listed = said("henk-proxy\n");
    assert!(ensure_network(&listed, &said(""), true).unwrap().is_none());
    assert!(!stack_set_up(&None, false));
    assert!(stack_set_up(&None, true));
    let mut s = StateManifest::default();
    s.mark_step_failed(steps::STACK_UP, "x");
    s.open_init_run();
    assert!(!stack_set_up(&Some(s), false));
    let mut s = StateManifest::default();
    s.mark_step_complete(steps::STACK_UP, None, None);
    assert!(stack_set_up(&Some(s), false));
    let mut s = StateManifest::default();
    s.open_init_run();
    s.close_init_run("success");
    assert!(stack_set_up(&Some(s), false));
}

#[test]
fn the_dynamic_config_serves_the_issued_certificate() {
    let cfg = Config { tld: "dev.x".to_string(), ..Config::default() };
    let served = render(DYNAMIC_TMPL, &vars_from(&cfg));
    for (field, path) in [
        ("certFile", cert_path_in("/h", "dev.x")),
        ("keyFile", key_path_in("/h", "dev.x")),
    ] {
        let name = path.strip_prefix("/h/.config/henk/traefik/certs/").unwrap();
        assert!(served.contains(&format!("{field}: /certs/{name}\n")));
    }
}

#[test]
fn every_file_of_the_stack_carries_the_header() {
    let files = render_all(&Config::default(), "/h");
    assert_eq!(files.len(), 10);
    for f in files {
        if f.path.ends_with(".html") {
            assert!(f.contents.contains(HENK_FILE_HEADER), "{}", f.path);
        } else {
            assert!(f.contents.starts_with(HENK_FILE_HEADER), "{}", f.path);
        }
    }
}

#[test]
fn the_drop_in_begins_with_the_header() {
    let text = write_drop_in(&None, "test").unwrap();
    assert!(text.starts_with(&format!("{HENK_FILE_HEADER}\naddress=/.test/")));
}

#[test]
fn compose_commands_and_their_outcomes() {
    assert_eq!(
        line(&compose_up_command("/c.yml")),
        "docker compose -f /c.yml up -d --remove-orphans"
    );
    assert_eq!(line(&compose_restart_command("/c.yml")), "docker compose -f /c.yml restart");
    assert_eq!(line(&down("/c.yml", true).unwrap()), "docker compose -f /c.yml down");
    assert_eq!(
        down("/c.yml", false).unwrap_err(),
        "henk stack is not configured at /c.yml. Run `henk init` first."
    );
    assert_eq!(compose_up(&said("")), Ok(()));
    assert_eq!(
        compose_up(&refused("a", "b")).unwrap_err(),
        "docker compose up failed:\na\nb"
    );
    assert_eq!(
        compose_up(&Reply::Unavailable).unwrap_err(),
        "running `docker compose up -d`"
    );
    assert_eq!(
        compose_restart(&refused("a", "b")).unwrap_err(),
        "docker compose restart failed:\na\nb"
    );
    assert_eq!(
        compose_restart(&Reply::Unavailable).unwrap_err(),
        "running `docker compose restart`"
    );
    assert_eq!(
        stopped(&refused("a", "b")).unwrap_err(),
        "docker compose down failed:\na\nb"
    );
    assert_eq!(
        stopped(&Reply::Unavailable).unwrap_err(),
        "running `docker compose down`"
    );
    assert_eq!(
        print_up_summary(&cfg()),
        "\n✓ henk stack is up.\n  Traefik dashboard: https://traefik.test (or http://localhost:19080)\n"
    );
}

#[test]
fn certificates_are_read_through_openssl() {
    assert_eq!(line(&cert_text_command("/c.pem")), "openssl x509 -in /c.pem -noout -text");
    assert_eq!(
        line(&cert_enddate_command("/c.pem")),
        "openssl x509 -in /c.pem -noout -enddate"
    );
    let text = "Certificate:\n    X509v3 extensions:\n            X509v3 Subject Alternative Name: critical\n                DNS:*.test, DNS:test, IP Address:127.0.0.1, DNS:a.test\n    Signature\n";
    assert_eq!(
        read_cert_sans(&said(text)),
        Some(vec!["*.test".to_string(), "test".to_string(), "a.test".to_string()])
    );
    assert_eq!(read_cert_sans(&said("X509v3 Subject Alternative Name:")), None);
    assert_eq!(read_cert_sans(&said("no names\n")), None);
    assert_eq!(read_cert_sans(&refused(text, "")), None);
    assert_eq!(read_cert_sans(&Reply::Unavailable), None);
    assert_eq!(
        read_cert_expiry(&said("notAfter=Aug  1 10:00:00 2028 GMT\n")),
        Some("Aug  1 10:00:00 2028 GMT".to_string())
    );
    assert_eq!(read_cert_expiry(&said("expires never")), None);
    assert_eq!(read_cert_expiry(&refused("notAfter=x", "")), None);
    assert_eq!(read_cert_expiry(&Reply::Unavailable), None);
}

#[test]
fn dnsmasq_is_asked_with_dig() {
    assert_eq!(
        line(&dig_command("henk-status-probe", "test")),
        "dig +short +time=1 +tries=1 @127.0.0.1 henk-status-probe.test"
    );
    assert!(dnsmasq_answering(&said("")));
    assert!(!dnsmasq_answering(&refused("", "")));
    assert!(!dnsmasq_answering(&Reply::Unavailable));
}

#[test]
fn containers_are_found_by_their_exact_name() {
    assert_eq!(
        line(&container_command("henk-traefik")),
        "docker ps --filter name=henk-traefik --format {{.Names}}"
    );
    assert!(container_running(&said("other\n henk-traefik \n"), "henk-traefik"));
    assert!(!container_running(&said("henk-traefik-2\n"), "henk-traefik"));
    assert!(!container_running(&refused("henk-traefik\n", ""), "henk-traefik"));
    assert!(!container_running(&Reply::Unavailable, "henk-traefik"));
    assert!(has_line("a\r\nb\n", "a"));
}

#[test]
fn command_output_is_summarised() {
    let out = CommandOutput {
        status: 3,
        stdout: "\n  first \nsecond\n".to_string(),
        stderr: "oops \n".to_string(),
    };
    assert!(!out.ok());
    assert_eq!(out.first_line(), Some("first".to_string()));
    assert_eq!(failure("it failed", &out), "it failed:\n\n  first \nsecond\noops");
    let silent = CommandOutput { status: 0, stdout: " \n".to_string(), stderr: String::new() };
    assert!(silent.ok());
    assert_eq!(silent.first_line(), None);
    assert_eq!(SystemRunner::new(), SystemRunner);
}
