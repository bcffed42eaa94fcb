//! Projects: reading them, and what linking and unlinking them does.

use henk::consts::{HENK_FILE_HEADER, PROJECT_MANIFEST_VERSION};
use henk::detect::backend::{parse_linked_hosts, RouteFile};
use henk::project::compose::{
    expand_shell_defaults, find_compose_path, parse_port_string, parse_port_value, ComposeFile,
    ComposeService, PublishedPort,
};
use henk::project::detect::{
    default_host_for, detect, detect_host_mode_port, detect_vite, env_url_port,
    port_from_package_json, port_from_url, web_candidates, ProjectDetection, ProjectFiles,
    ServiceCandidate,
};
use henk::project::env_file::{append_if_absent, has_key, parse, read, strip_value, EnvFile, FileState};
use henk::project::link::{
    accept_vite, accepted, alt_ports, build_host_entry, build_service_memberships,
    certificate_names, chosen_service, collect_extra_sans, collision_question, derive_slug,
    handle_port_collision, needs_pick, pick_free_alt_port, pick_web_service, plan, register,
    resolve, vite_offer, LinkAction, LinkError, LinkRequest, Pick,
};
use henk::project::link_report;
use henk::project::manifest::{HostEntry, ProjectManifest, ProjectMode};
use henk::project::override_file::{ours, target, OverrideTarget, ServiceMembership};
use henk::project::preflight::{
    analyze, check_sail_vite_port_collision, print_report, read_env, read_nuxt_config,
    read_vite_config, ConfigFile, Issue, PreflightFiles, Severity,
};
use henk::project::unlink::{
    collect_remaining_sans, drop_hosts, remove_manifest_file, UnlinkAction, UnlinkError,
};
use henk::project::{file_provider, override_file, unlink};
use henk::table::Table;
use henk::yaml::{self, Yaml};

fn owned(list: &[&str]) -> Vec<String> {
    list.iter().map(|s| s.to_string()).collect()
}

/// Reads the services of a compose file.
fn compose(body: &str) -> ComposeFile {
    let doc = yaml::parse(body).unwrap();
    let mut services: Table<ComposeService> = Table::new();
    if let Some(Yaml::Mapping(entries)) = doc.field("services") {
        for (name, svc) in entries {
            let ports = match svc.field("ports") {
                Some(Yaml::Sequence(_)) => match yaml::parse(body).unwrap() {
                    Yaml::Mapping(top) => take_ports(top, name.as_str().unwrap()),
                    _ => Vec::new(),
                },
                _ => Vec::new(),
            };
            let image = svc.field("image").and_then(|v| v.as_str()).cloned();
            let networks = svc.field("networks").map(names);
            services.insert(
                name.as_str().unwrap().clone(),
                ComposeService { image, build: None, ports, networks },
            );
        }
    }
    ComposeFile { services }
}

/// A copy of a list or mapping of names.
fn names(v: &Yaml) -> Yaml {
    let name = |v: &Yaml| v.as_str().cloned().map_or(Yaml::Null, Yaml::Text);
    match v {
        Yaml::Sequence(list) => Yaml::Sequence(list.iter().map(name).collect()),
        Yaml::Mapping(list) => {
            Yaml::Mapping(list.iter().map(|(k, _)| (name(k), Yaml::Null)).collect())
        }
        _ => Yaml::Null,
    }
}

/// Takes the ports of one service out of a document.
fn take_ports(top: Vec<(Yaml, Yaml)>, service: &str) -> Vec<Yaml> {
    for (_, services) in top {
        if let Yaml::Mapping(list) = services {
            for (name, svc) in list {
                if name.as_str().map(|n| n.as_str()) == Some(service) {
                    if let Yaml::Mapping(fields) = svc {
                        for (key, value) in fields {
                            if key.as_str().map(|k| k.as_str()) == Some("ports") {
                                if let Yaml::Sequence(ports) = value {
                                    return ports;
                                }
                            }
                        }
                    }
                }
            }
        }
    }
    Vec::new()
}

fn service<'a>(cf: &'a ComposeFile, name: &str) -> &'a ComposeService {
    cf.services.get(name).unwrap()
}

#[test]
fn parses_spatiebalk_shaped_compose() {
    let cf = compose(
        r#"
services:
    laravel.test:
        image: sail-8.4/app
        ports:
            - "${APP_PORT:-80}:80"
            - "${VITE_PORT:-5173}:${VITE_PORT:-5173}"
            - "${REVERB_PORT:-8081}:${REVERB_PORT:-8081}"
        depends_on:
            - pgsql
    pgsql:
        image: postgres:17-alpine
        ports:
            - "5432:5432"
"#,
    );
    assert!(cf.services.get("laravel.test").is_some());
    assert!(cf.services.get("pgsql").is_some());

    let app = service(&cf, "laravel.test");
    let ports = app.published_ports();
    assert_eq!(ports.len(), 3);
    assert_eq!(ports[0], PublishedPort { host: 80, container: 80 });
    assert_eq!(ports[1], PublishedPort { host: 5173, container: 5173 });

    assert!(!app.looks_like_datastore("laravel.test"));
    assert!(service(&cf, "pgsql").looks_like_datastore("pgsql"));
}

#[test]
fn parses_long_form_ports() {
    let cf = compose(
        r#"
services:
  web:
    image: nginx
    ports:
      - target: 80
        published: 8080
"#,
    );
    let ports = service(&cf, "web").published_ports();
    assert_eq!(ports[0], PublishedPort { host: 8080, container: 80 });
}

#[test]
fn parses_ip_prefixed_ports() {
    let cf = compose(
        r#"
services:
  web:
    image: nginx
    ports:
      - "127.0.0.1:8080:80"
"#,
    );
    let ports = service(&cf, "web").published_ports();
    assert_eq!(ports[0], PublishedPort { host: 8080, container: 80 });
}

#[test]
fn datastore_pattern_filters_redis_and_postgres() {
    let cf = compose(
        r#"
services:
  redis:
    image: redis:7
  cache:
    image: redis:7
  postgres:
    image: postgres:16
  web:
    image: nginx
"#,
    );
    assert!(service(&cf, "redis").looks_like_datastore("redis"));
    assert!(service(&cf, "cache").looks_like_datastore("cache"));
    assert!(service(&cf, "postgres").looks_like_datastore("postgres"));
    assert!(!service(&cf, "web").looks_like_datastore("web"));
}

#[test]
fn port_specs_of_every_shape() {
    assert_eq!(parse_port_string("5173"), Some(PublishedPort { host: 5173, container: 5173 }));
    assert_eq!(
        parse_port_string(" 80 : 8080 "),
        Some(PublishedPort { host: 80, container: 8080 })
    );
    assert_eq!(parse_port_string("1:2:3:4"), None);
    assert_eq!(parse_port_string("80:65536"), None);
    assert_eq!(parse_port_string("${PORT}:80"), None);
    assert_eq!(parse_port_string("80:80/tcp"), None);
    assert_eq!(
        parse_port_value(&Yaml::Number(Some(3000))),
        Some(PublishedPort { host: 3000, container: 3000 })
    );
    assert_eq!(parse_port_value(&Yaml::Number(Some(65536))), None);
    assert_eq!(parse_port_value(&Yaml::Number(None)), None);
    assert_eq!(parse_port_value(&Yaml::Bool(true)), None);
    let only_target = yaml::parse("target: 80").unwrap();
    assert_eq!(
        parse_port_value(&only_target),
        Some(PublishedPort { host: 80, container: 80 })
    );
    let no_target = yaml::parse("published: 80").unwrap();
    assert_eq!(parse_port_value(&no_target), None);
}

#[test]
fn defaults_in_port_specs_are_expanded() {
    assert_eq!(expand_shell_defaults("${APP_PORT:-80}:80"), "80:80");
    assert_eq!(expand_shell_defaults("${A:-1}:${B:-2}"), "1:2");
    assert_eq!(expand_shell_defaults("${A}:80"), "${A}:80");
}

#[test]
fn the_compose_file_is_looked_for_in_order() {
    assert_eq!(
        find_compose_path("/p", &vec![false, true, false, true]),
        Some("/p/compose.yml".to_string())
    );
    assert_eq!(
        find_compose_path("/p", &vec![false, false, false, true]),
        Some("/p/docker-compose.yml".to_string())
    );
    assert_eq!(find_compose_path("/p", &vec![false, false, false, false]), None);
}

fn env(pairs: &[(&str, &str)]) -> Table<String> {
    let mut t: Table<String> = Table::new();
    for (k, v) in pairs {
        t.insert(k.to_string(), v.to_string());
    }
    t
}

#[test]
fn extracts_port_from_app_url_with_port() {
    let env = env(&[("APP_URL", "http://localhost:8055")]);
    assert_eq!(env_url_port(&env), Some(8055));
}

#[test]
fn defaults_port_to_80_for_unportforhttp_url() {
    let env = env(&[("APP_URL", "http://localhost")]);
    assert_eq!(env_url_port(&env), Some(80));
}

#[test]
fn defaults_host_to_slug_when_no_test_url() {
    let env = env(&[]);
    assert_eq!(default_host_for(&env, "spatiebalk", "test"), "spatiebalk.test");
}

#[test]
fn host_default_picks_test_url_host_when_present() {
    let env = env(&[("APP_URL", "http://customname.test")]);
    assert_eq!(default_host_for(&env, "ignored", "test"), "customname.test");
}

#[test]
fn vite_detected_via_package_json() {
    let body = r#"{"devDependencies":{"vite":"^7.0.0"}}"#;
    assert!(detect_vite(&vec![false, false, false], &Some(body.to_string())));
}

#[test]
fn vite_detected_via_config_file() {
    assert!(detect_vite(&vec![false, true, false], &None));
    assert!(!detect_vite(&vec![false, false, false], &None));
}

#[test]
fn host_mode_falls_back_to_3000_when_nothing_known() {
    assert_eq!(detect_host_mode_port(&env(&[]), &None), 3000);
}

#[test]
fn package_json_port_extracted_from_dev_script() {
    let body = r#"{"scripts":{"dev":"next dev --port 4200"}}"#;
    assert_eq!(port_from_package_json(body), Some(4200));
}

#[test]
fn ports_of_urls_and_scripts() {
    assert_eq!(port_from_url("https://localhost"), Some(443));
    assert_eq!(port_from_url("http://localhost:3000/path"), Some(3000));
    assert_eq!(port_from_url("localhost"), Some(80));
    assert_eq!(port_from_url("http://localhost:x"), None);
    assert_eq!(port_from_package_json(r#"{"scripts":{"dev":"vite --port=5174"}}"#), Some(5174));
    assert_eq!(port_from_package_json(r#"{"scripts":{"dev":"vite"}}"#), None);
    assert_eq!(port_from_package_json(r#"{"dev":"x --port 99999"}"#), None);
    assert_eq!(
        detect_host_mode_port(&env(&[]), &Some("--port 4321".to_string())),
        4321
    );
    assert_eq!(
        detect_host_mode_port(
            &env(&[("PUBLIC_URL", "http://localhost:8055")]),
            &Some("--port 4321".to_string())
        ),
        8055
    );
}

fn no_files() -> ProjectFiles {
    ProjectFiles {
        env_local: FileState::Missing,
        env: FileState::Missing,
        compose: None,
        vite_configs: vec![false, false, false],
        package_json: None,
    }
}

#[test]
fn a_project_without_compose_file_runs_on_the_host() {
    let d = detect(&no_files(), "sparkle", "test").unwrap();
    assert_eq!(d.mode, ProjectMode::Host);
    assert_eq!(d.web_port, Some(3000));
    assert_eq!(d.default_host, "sparkle.test");
    assert_eq!(d.web_service, None);
    assert!(!d.vite_detected);
}

#[test]
fn an_unreadable_env_file_is_an_error() {
    let mut files = no_files();
    files.env = FileState::Unreadable;
    assert_eq!(detect(&files, "sparkle", "test").unwrap_err(), EnvFile::Env);
    files.env_local = FileState::Unreadable;
    assert_eq!(detect(&files, "sparkle", "test").unwrap_err(), EnvFile::EnvLocal);
}

#[test]
fn a_compose_project_with_one_web_service() {
    let mut files = no_files();
    files.compose = Some(compose(
        r#"
services:
    laravel.test:
        image: sail-8.4/app
        ports:
            - "${APP_PORT:-80}:80"
            - "5173:5173"
    pgsql:
        image: postgres:17-alpine
        ports:
            - "5432:5432"
"#,
    ));
    let d = detect(&files, "spatiebalk", "test").unwrap();
    assert_eq!(d.mode, ProjectMode::Docker);
    assert_eq!(d.web_service, Some("laravel.test".to_string()));
    assert_eq!(d.web_port, Some(80));
    assert_eq!(d.port_collision, Some(80));
    assert_eq!(d.candidates.len(), 1);
    assert_eq!(d.candidates[0].host_port, 80);
}

#[test]
fn candidates_publish_a_port_and_are_no_datastores() {
    let cf = compose(
        r#"
services:
  api:
    image: node
    ports:
      - "8080:3000"
  mailhog:
    image: mailhog/mailhog
    ports:
      - "8025:8025"
  redis:
    image: redis:7
    ports:
      - "6379:6379"
  worker:
    image: node
"#,
    );
    let found = web_candidates(&cf);
    let names: Vec<&str> = found.iter().map(|c| c.name.as_str()).collect();
    assert_eq!(names, vec!["api", "mailhog"]);
    assert_eq!(found[0].container_port, 3000);
    assert_eq!(found[0].host_port, 8080);
}

#[test]
fn parses_quoted_and_unquoted_values() {
    let body = r#"
APP_URL="http://localhost"
PUBLIC_URL='http://localhost:8055'
APP_PORT=8080
DEBUG=true   # trailing comment
# whole-line comment
EMPTY=
"#;
    let env = parse(body);
    let value = |k: &str| env.get(k).cloned();
    assert_eq!(value("APP_URL"), Some("http://localhost".to_string()));
    assert_eq!(value("PUBLIC_URL"), Some("http://localhost:8055".to_string()));
    assert_eq!(value("APP_PORT"), Some("8080".to_string()));
    assert_eq!(value("DEBUG"), Some("true".to_string()));
    assert_eq!(value("EMPTY"), Some("".to_string()));
    assert!(env.get("# whole-line comment").is_none());
}

#[test]
fn append_if_absent_appends_when_key_missing() {
    let body = append_if_absent("FOO=bar\n", "APP_PORT", "8080").unwrap();
    assert!(body.contains("FOO=bar"));
    assert!(body.ends_with("APP_PORT=8080\n"));
}

#[test]
fn append_if_absent_skips_when_key_already_present() {
    assert_eq!(append_if_absent("APP_PORT=80\n", "APP_PORT", "8080"), None);
}

#[test]
fn appending_keeps_every_line_and_happens_once() {
    let once = append_if_absent("FOO=bar", "APP_PORT", "8080").unwrap();
    assert!(once.starts_with("FOO=bar\n"));
    assert_eq!(append_if_absent(once.as_str(), "APP_PORT", "9090"), None);
    assert_eq!(parse(once.as_str()).get("APP_PORT").cloned(), Some("8080".to_string()));
    assert!(has_key(once.as_str(), "APP_PORT"));
    assert!(!has_key(once.as_str(), "PORT"));
    assert_eq!(append_if_absent("#APP_PORT=80\n", "APP_PORT", "8080"), None);
    assert_eq!(append_if_absent("APP_PORT = 80\n", "APP_PORT", "8080"), None);
}

#[test]
fn values_are_stripped_of_quotes_and_comments() {
    assert_eq!(strip_value("plain"), "plain");
    assert_eq!(strip_value("'a # b'"), "a # b");
    assert_eq!(strip_value("\"x\""), "x");
    assert_eq!(strip_value("a#b"), "a#b");
    assert_eq!(strip_value("v # note"), "v");
    assert_eq!(strip_value("  # only a comment"), "");
}

#[test]
fn the_local_env_file_wins() {
    let both = read(
        &FileState::Text("A=local\n".to_string()),
        &FileState::Text("A=base\nB=base\n".to_string()),
    )
    .unwrap();
    assert_eq!(both.get("A").cloned(), Some("local".to_string()));
    assert_eq!(read(&FileState::Missing, &FileState::Unreadable).unwrap_err(), EnvFile::Env);
    assert!(read(&FileState::Missing, &FileState::Missing).unwrap().is_empty());
}

fn host_detection() -> ProjectDetection {
    ProjectDetection {
        mode: ProjectMode::Host,
        web_service: None,
        web_port: Some(3000),
        default_host: "sparkle.test".to_string(),
        candidates: vec![],
        port_collision: None,
        vite_detected: false,
    }
}

fn docker_vite_detection() -> ProjectDetection {
    ProjectDetection {
        mode: ProjectMode::Docker,
        web_service: Some("laravel.test".to_string()),
        web_port: Some(80),
        default_host: "spatiebalk.test".to_string(),
        candidates: vec![],
        port_collision: None,
        vite_detected: true,
    }
}

fn no_configs() -> PreflightFiles {
    PreflightFiles {
        vite_config: None,
        nuxt_config: None,
        env: None,
        package_json: None,
        sail: false,
    }
}

fn vite(body: &str) -> Option<ConfigFile> {
    Some(ConfigFile { path: "/p/vite.config.js".to_string(), body: body.to_string() })
}

fn nuxt(body: &str) -> Option<ConfigFile> {
    Some(ConfigFile { path: "/p/nuxt.config.ts".to_string(), body: body.to_string() })
}

fn flagged(issues: &[Issue], what: &str) -> bool {
    issues.iter().any(|i| i.title.contains(what))
}

#[test]
fn vite_config_without_host_or_cors_flags_both() {
    let mut files = no_configs();
    files.vite_config = vite("export default defineConfig({ plugins: [] });");
    let issues = analyze(&files, &docker_vite_detection(), "spatiebalk.test", false);
    assert!(flagged(&issues, "binding 127.0.0.1"));
    assert!(flagged(&issues, "CORS"));
}

#[test]
fn vite_config_with_host_but_no_cors_flags_cors_only() {
    let mut files = no_configs();
    files.vite_config = vite("export default defineConfig({ server: { host: '0.0.0.0' } });");
    let issues = analyze(&files, &docker_vite_detection(), "spatiebalk.test", false);
    assert!(!flagged(&issues, "binding 127.0.0.1"));
    assert!(flagged(&issues, "CORS"));
}

#[test]
fn nuxt_config_without_devserver_flags_high() {
    let mut files = no_configs();
    files.nuxt_config =
        nuxt("export default defineNuxtConfig({ compatibilityDate: '2025-07-15' });");
    let issues = analyze(&files, &host_detection(), "sparkle.test", false);
    assert!(flagged(&issues, "Nuxt likely binds"));
    assert!(issues.iter().any(|i| i.severity == Severity::High));
}

#[test]
fn nuxt_config_with_devserver_doesnt_flag() {
    let mut files = no_configs();
    files.nuxt_config = nuxt("export default defineNuxtConfig({ devServer: { host: '0.0.0.0' } });");
    let issues = analyze(&files, &host_detection(), "sparkle.test", false);
    assert!(!flagged(&issues, "Nuxt likely binds"));
}

#[test]
fn sail_vite_port_default_flagged() {
    let mut files = no_configs();
    files.sail = true;
    files.vite_config = vite(
        "export default defineConfig({ server: { host: '0.0.0.0', cors: { origin: 'x' } } });",
    );
    files.env = Some("APP_NAME=test\n".to_string());
    let issues = analyze(&files, &docker_vite_detection(), "spatiebalk.test", true);
    assert!(flagged(&issues, "Sail's compose publishes :5173"));
}

#[test]
fn sail_vite_port_set_to_alt_passes() {
    let mut files = no_configs();
    files.sail = true;
    files.vite_config = vite(
        "export default defineConfig({ server: { host: '0.0.0.0', cors: { origin: 'x' } } });",
    );
    files.env = Some("VITE_PORT=15173\n".to_string());
    let issues = analyze(&files, &docker_vite_detection(), "spatiebalk.test", true);
    assert!(!flagged(&issues, "Sail's compose publishes :5173"));
}

#[test]
fn only_vite_port_itself_moves_sails_port() {
    let flags = |env: &str| {
        let issues = check_sail_vite_port_collision(&Some(env.to_string()));
        assert!(issues.iter().all(|i| i.severity == Severity::Medium));
        assert!(issues.iter().all(|i| i.snippet == "VITE_PORT=15173"));
        issues.len()
    };
    assert_eq!(flags("VITE_PORT_ALT=9999\n"), 1);
    assert_eq!(flags("VITE_PORT_ALT=9999\nVITE_PORT=15173\n"), 0);
    assert_eq!(flags("#VITE_PORT=15173\n"), 1);
    assert_eq!(flags("VITE_PORT\n"), 1);
    assert_eq!(flags("VITE_PORT=\"5173\"\n"), 1);
    assert_eq!(flags("VITE_PORT='5173'\n"), 1);
    assert_eq!(flags("VITE_PORT=5173 # note\n"), 1);
    assert_eq!(flags("VITE_PORT=\"5173\" # a=b\n"), 1);
    assert_eq!(flags("VITE_PORT=15173 # 5173\n"), 0);
    assert_eq!(flags("VITE_PORT=5173=x\n"), 1);
    assert_eq!(flags("  VITE_PORT = 15173\n"), 0);
    assert_eq!(check_sail_vite_port_collision(&None).len(), 1);
}

#[test]
fn dev_script_with_host_flag_doesnt_flag() {
    let mut files = no_configs();
    files.package_json =
        Some(r#"{ "scripts": { "dev": "next dev --host 0.0.0.0 --port 3000" } }"#.to_string());
    let issues = analyze(&files, &host_detection(), "sparkle.test", false);
    assert!(!flagged(&issues, "--host 0.0.0.0"));
}

#[test]
fn dev_script_without_host_flag_flagged_when_no_nuxt_config() {
    let mut files = no_configs();
    files.package_json = Some(r#"{ "scripts": { "dev": "next dev" } }"#.to_string());
    let issues = analyze(&files, &host_detection(), "sparkle.test", false);
    assert!(flagged(&issues, "--host 0.0.0.0"));
}

#[test]
fn docker_projects_without_vite_raise_no_issue() {
    let mut d = docker_vite_detection();
    d.vite_detected = false;
    let mut files = no_configs();
    files.vite_config = vite("export default {}");
    files.package_json = Some(r#"{ "scripts": { "dev": "next dev" } }"#.to_string());
    let issues = analyze(&files, &d, "spatiebalk.test", false);
    assert!(issues.is_empty());
    assert_eq!(print_report(&issues), "");
}

#[test]
fn config_files_are_looked_for_in_order() {
    assert_eq!(
        read_env(&vec![Some("A=1".to_string()), Some("B=1".to_string())]),
        Some("A=1".to_string())
    );
    assert_eq!(read_env(&vec![None, None]), None);
    let found = read_vite_config("/p", &vec![None, Some("js".to_string()), None]).unwrap();
    assert_eq!(found.path, "/p/vite.config.js");
    assert_eq!(found.body, "js");
    let found = read_nuxt_config("/p", &vec![Some("ts".to_string()), None, None]).unwrap();
    assert_eq!(found.path, "/p/nuxt.config.ts");
}

fn request() -> LinkRequest {
    LinkRequest { add_only: false, host: None, service: None, port: None }
}

fn entry(host: &str, service: Option<&str>, port: Option<u16>, flags: &[&str]) -> HostEntry {
    HostEntry {
        host: host.to_string(),
        service: service.map(|s| s.to_string()),
        port,
        target: None,
        flags: owned(flags),
    }
}

fn manifest(hosts: Vec<HostEntry>) -> ProjectManifest {
    ProjectManifest {
        schema_version: PROJECT_MANIFEST_VERSION,
        slug: "spatiebalk".to_string(),
        mode: ProjectMode::Docker,
        hosts,
    }
}

#[test]
fn slugs_are_lower_case_and_hyphenated() {
    assert_eq!(derive_slug(Some("My_App v1.2")).unwrap(), "my-app-v1-2");
    assert_eq!(derive_slug(Some("my-app-v1-2")).unwrap(), "my-app-v1-2");
    assert_eq!(derive_slug(None).unwrap_err(), LinkError::NoSlug);
    assert_eq!(
        LinkError::NoSlug.message(),
        "could not derive slug from project directory name"
    );
}

#[test]
fn linking_a_fresh_project() {
    let m = register(&docker_vite_detection(), &request(), None, "spatiebalk").unwrap();
    assert_eq!(m.slug, "spatiebalk");
    assert_eq!(m.schema_version, PROJECT_MANIFEST_VERSION);
    assert_eq!(m.hosts.len(), 1);
    assert_eq!(m.hosts[0], entry("spatiebalk.test", Some("laravel.test"), Some(80), &[]));
    assert!(m.has_host("spatiebalk.test"));
    assert!(!m.has_host("other.test"));
}

#[test]
fn linking_the_same_host_twice_is_refused() {
    let m = register(&docker_vite_detection(), &request(), None, "spatiebalk").unwrap();
    let err = register(&docker_vite_detection(), &request(), Some(m), "spatiebalk").unwrap_err();
    assert_eq!(err, LinkError::AlreadyLinked("spatiebalk.test".to_string()));
    assert_eq!(
        err.message(),
        "host `spatiebalk.test` is already linked. Use `henk unlink spatiebalk.test` first if you want to re-register it."
    );
}

#[test]
fn adding_needs_a_linked_project() {
    let mut add = request();
    add.add_only = true;
    let err = register(&docker_vite_detection(), &add, None, "spatiebalk").unwrap_err();
    assert_eq!(err, LinkError::AddWithoutLink);
    assert_eq!(
        err.message(),
        "`--add` was passed but this project isn't linked yet — run `henk link` first."
    );
}

#[test]
fn a_docker_project_needs_a_service_and_a_port() {
    let mut d = docker_vite_detection();
    d.web_port = None;
    assert_eq!(build_host_entry(&d, "a.test").unwrap_err(), LinkError::NoWebPort);
    assert_eq!(
        LinkError::NoWebPort.message(),
        "internal: web_port must accompany web_service"
    );
    d.web_service = None;
    let err = build_host_entry(&d, "a.test").unwrap_err();
    assert_eq!(err, LinkError::NoWebService);
    assert!(err.message().starts_with("could not find any web-eligible service"));
    assert!(err.message().ends_with("or pass `--host` after a manual `.henk.toml` edit."));
    assert_eq!(
        LinkError::NotInitialised.message(),
        "henk has not been initialised yet — run `henk init` first"
    );
}

#[test]
fn host_mode_routes_to_the_dev_server() {
    let e = build_host_entry(&host_detection(), "sparkle.test").unwrap();
    assert_eq!(e.target, Some("http://host.docker.internal:3000".to_string()));
    assert_eq!(e.service, None);
    assert_eq!(e.port, None);
    let mut d = host_detection();
    d.web_port = None;
    let e = build_host_entry(&d, "sparkle.test").unwrap();
    assert_eq!(e.target, Some("http://host.docker.internal:3000".to_string()));
}

#[test]
fn vite_hosts_get_the_vite_port() {
    let e = build_host_entry(&docker_vite_detection(), "vite.spatiebalk.test").unwrap();
    assert_eq!(e, entry("vite.spatiebalk.test", Some("laravel.test"), Some(5173), &["vite"]));
    let mut d = docker_vite_detection();
    d.vite_detected = false;
    let e = build_host_entry(&d, "vite.spatiebalk.test").unwrap();
    assert_eq!(e.port, Some(80));
}

#[test]
fn the_vite_host_is_offered_once() {
    let d = docker_vite_detection();
    let mut m = register(&d, &request(), None, "spatiebalk").unwrap();
    let offered = vite_offer(&d, false, &m, "spatiebalk.test");
    assert_eq!(offered, Some("vite.spatiebalk.test".to_string()));
    assert_eq!(vite_offer(&d, true, &m, "spatiebalk.test"), None);
    assert!(accept_vite(&mut m, "vite.spatiebalk.test"));
    assert_eq!(
        m.hosts[1],
        entry("vite.spatiebalk.test", Some("laravel.test"), Some(5173), &["vite"])
    );
    assert_eq!(vite_offer(&d, false, &m, "spatiebalk.test"), None);
    let mut empty = manifest(vec![]);
    assert!(!accept_vite(&mut empty, "vite.x.test"));
    assert!(empty.hosts.is_empty());
}

#[test]
fn only_yes_is_yes() {
    assert!(accepted("\n") && accepted("y\n") && accepted(" YES \n"));
    assert!(!accepted("n\n") && !accepted("yep\n"));
}

fn candidate(name: &str, container_port: u16, host_port: u16, rationale: &str) -> ServiceCandidate {
    ServiceCandidate {
        name: name.to_string(),
        container_port,
        host_port,
        rationale: rationale.to_string(),
    }
}

#[test]
fn the_web_service_is_picked() {
    assert_eq!(pick_web_service(&vec![], true), Pick::Nothing);
    let one = vec![candidate("web", 80, 8080, "why")];
    assert_eq!(pick_web_service(&one, true), Pick::Take("web".to_string(), 80));
    let two = vec![candidate("web", 80, 8080, "why"), candidate("mail", 8025, 8025, "mail")];
    assert_eq!(
        pick_web_service(&two, false),
        Pick::Default(
            "web".to_string(),
            80,
            "  ! multiple web-eligible services detected; non-TTY input → defaulting to `web` on container port 80 (why)".to_string()
        )
    );
    assert_eq!(
        pick_web_service(&two, true),
        Pick::Ask(owned(&["web (:8080 → :80) — why", "mail (:8025 → :8025) — mail"]))
    );
    assert_eq!(
        chosen_service(&two, "mail (:8025 → :8025) — mail"),
        Some(("mail".to_string(), 8025))
    );
    assert_eq!(chosen_service(&two, "unknown"), Some(("web".to_string(), 80)));
    assert_eq!(chosen_service(&vec![], "unknown"), None);
}

#[test]
fn overrides_win_over_detection() {
    let mut r = request();
    r.service = Some("mailhog".to_string());
    r.port = Some(8025);
    assert!(!needs_pick(&docker_vite_detection(), &r));
    let d = resolve(docker_vite_detection(), &r, None);
    assert_eq!(d.web_service, Some("mailhog".to_string()));
    assert_eq!(d.web_port, Some(8025));
    r.port = None;
    let d = resolve(docker_vite_detection(), &r, None);
    assert_eq!(d.web_port, Some(80));
    let mut unpinned = docker_vite_detection();
    unpinned.web_service = None;
    assert!(needs_pick(&unpinned, &request()));
    let d = resolve(unpinned, &request(), Some(("api".to_string(), 3000)));
    assert_eq!(d.web_service, Some("api".to_string()));
    assert_eq!(d.web_port, Some(3000));
}

#[test]
fn every_service_joins_the_proxy_once() {
    let cf = Some(compose(
        "services:\n  web:\n    networks:\n      - back\n      - front\n  mail:\n    image: m\n",
    ));
    let m = manifest(vec![
        entry("a.test", Some("web"), Some(80), &[]),
        entry("b.test", Some("mail"), Some(8025), &[]),
        entry("c.test", Some("web"), Some(80), &[]),
        entry("d.test", None, None, &[]),
    ]);
    let members = build_service_memberships(&cf, &m);
    assert_eq!(members.len(), 2);
    assert_eq!(
        members[0],
        ServiceMembership {
            service: "web".to_string(),
            existing_networks: owned(&["back", "front"])
        }
    );
    assert_eq!(
        members[1],
        ServiceMembership { service: "mail".to_string(), existing_networks: vec![] }
    );
    assert!(build_service_memberships(&None, &m)[0].existing_networks.is_empty());
    let by_name = compose(
        "services:\n  web:\n    networks:\n      back:\n        aliases: [w]\n      1: {}\n",
    );
    assert_eq!(by_name.services.get("web").unwrap().network_names(), owned(&["back"]));
}

#[test]
fn another_port_is_found_for_a_collision() {
    assert_eq!(alt_ports(443), vec![18443, 28443, 38443, 8443]);
    assert_eq!(
        alt_ports(80),
        vec![18080, 18081, 18082, 28080, 28081, 8081, 8082, 8083]
    );
    assert_eq!(pick_free_alt_port(80, &vec![8081, 18082]), 18082);
    assert_eq!(pick_free_alt_port(80, &vec![]), 18080);
    assert_eq!(pick_free_alt_port(443, &vec![18080]), 18443);
}

#[test]
fn a_collision_is_asked_about_and_settled() {
    let q = collision_question(80, 18080);
    assert!(q.contains(
        "  ! Your web service publishes :80 on the host — Traefik also wants :80."
    ));
    assert!(q.ends_with("    Append `APP_PORT=18080` to .env now? [Y/n] "));
    let done = handle_port_collision(80, 18080, "y\n", "FOO=bar\n");
    assert_eq!(done.env, append_if_absent("FOO=bar\n", "APP_PORT", "18080"));
    assert_eq!(done.notice, "    ✓ appended `APP_PORT=18080` to .env");
    let set = handle_port_collision(80, 18080, "\n", "APP_PORT=8080\n");
    assert_eq!(set.env, None);
    assert_eq!(set.notice, "    ✓ APP_PORT already set in .env — left untouched");
    let no = handle_port_collision(80, 18080, "no\n", "FOO=bar\n");
    assert_eq!(no.env, None);
    assert_eq!(
        no.notice,
        "    Skipped. You'll need to free :80 yourself before `npm run dev`."
    );
}

fn route(name: &str, body: &str) -> RouteFile {
    RouteFile { name: name.to_string(), body: body.to_string() }
}

#[test]
fn the_certificate_names_every_linked_host() {
    let files = vec![
        route("b.yml", "rule: \"Host(`b.test`)\"\nrule: \"Host(`b.test`)\"\n"),
        route("_henk.yml", "rule: \"Host(`traefik.test`)\"\n"),
        route("skip.txt", "rule: \"Host(`skip.test`)\"\n"),
    ];
    let m = manifest(vec![entry("a.test", Some("web"), Some(80), &[])]);
    assert_eq!(
        collect_extra_sans("test", &files, &Some(m)),
        owned(&["a.test", "b.test", "traefik.test"])
    );
    assert_eq!(
        collect_remaining_sans("test", &files),
        owned(&["b.test", "traefik.test"])
    );
    assert_eq!(
        certificate_names("dev", &owned(&["z.dev", "a.dev", "z.dev"]), &None),
        owned(&["a.dev", "traefik.dev", "z.dev"])
    );
}

#[test]
fn a_fresh_link_runs_every_step_in_order() {
    let mut d = docker_vite_detection();
    d.port_collision = Some(80);
    let m = register(&d, &request(), None, "spatiebalk").unwrap();
    let steps = plan(&d, &m, &None, false, Some("vite.spatiebalk.test".to_string()));
    assert_eq!(
        steps,
        vec![
            LinkAction::Preflight,
            LinkAction::WriteOverride {
                members: vec![ServiceMembership {
                    service: "laravel.test".to_string(),
                    existing_networks: vec![]
                }],
                announce: true
            },
            LinkAction::FreePort(80),
            LinkAction::SaveManifest,
            LinkAction::WriteRoutes,
            LinkAction::IssueCertificate,
            LinkAction::RestartProxy,
            LinkAction::Summary,
            LinkAction::ViteSnippet("vite.spatiebalk.test".to_string()),
        ]
    );
}

#[test]
fn a_host_mode_link_leaves_the_project_alone() {
    let d = host_detection();
    let m = register(&d, &request(), None, "sparkle").unwrap();
    assert_eq!(
        plan(&d, &m, &None, false, None),
        vec![
            LinkAction::Preflight,
            LinkAction::SaveManifest,
            LinkAction::WriteRoutes,
            LinkAction::IssueCertificate,
            LinkAction::RestartProxy,
            LinkAction::Summary,
            LinkAction::HostHint(3000),
        ]
    );
}

#[test]
fn link_reports_word_for_word() {
    let d = host_detection();
    assert_eq!(
        link_report::print_detection(&d),
        "\n\u{1b}[1mhenk — project detection\u{1b}[0m\n\n  mode:           Host\n  default host:   sparkle.test\n  web port:       3000\n\n"
    );
    assert_eq!(
        link_report::announce_override_target(&OverrideTarget::Canonical(
            "/p/compose.override.yml".to_string()
        )),
        "✓ wrote /p/compose.override.yml (auto-merged by Compose)\n"
    );
    assert_eq!(
        link_report::announce_override_target(&OverrideTarget::Fallback {
            path: "/p/henk.override.yml".to_string(),
            existing_canonical: "/p/compose.override.yml".to_string()
        }),
        "✓ wrote /p/henk.override.yml (your /p/compose.override.yml already exists, so Compose won't auto-merge ours)\n  add this to your project's .env so Compose picks both up:\n    COMPOSE_FILE=compose.override.yml:henk.override.yml\n"
    );
    assert!(link_report::offer_vite_subhost("vite.a.test")
        .contains("  • Vite detected. Add `vite.a.test` for HTTPS HMR? [Y/n] "));
    let snippet = link_report::print_vite_snippet("vite.a.test");
    assert!(snippet.contains("        host: 'vite.a.test',\n"));
    assert!(snippet.contains("      origin: 'https://vite.a.test',\n"));
    let hint = link_report::print_host_mode_hint(3000);
    assert!(hint.contains("    Next:  npx next dev -H 0.0.0.0 -p 3000\n"));
    let m = manifest(vec![entry("a.test", Some("web"), Some(80), &[])]);
    let summary = link_report::print_summary(&m, "/p");
    assert!(summary.starts_with(
        "\n\u{1b}[1m\u{1b}[32m✓ linked.\u{1b}[39m\u{1b}[0m\n  https://a.test\n\n  marker:    /p/.henk.toml\n"
    ));
    assert!(summary.contains("  routing:   ~/.config/henk/dynamic/spatiebalk.yml\n"));
}

#[test]
fn an_issue_is_reported_with_its_fix() {
    let issues = vec![Issue {
        severity: Severity::High,
        title: "T".to_string(),
        explain: "E".to_string(),
        fix_target: "F".to_string(),
        snippet: "one\ntwo".to_string(),
    }];
    let text = print_report(&issues);
    assert!(text.contains("T") && text.contains("E") && text.contains("F"));
    assert!(text.contains("one\n") && text.contains("two\n"));
}

#[test]
fn the_override_file_is_kept_apart_from_a_foreign_one() {
    let mine = FileState::Text(format!("{HENK_FILE_HEADER}\nservices:\n"));
    let foreign = FileState::Text("services:\n".to_string());
    assert!(ours(&mine));
    assert!(!ours(&foreign) && !ours(&FileState::Missing));
    assert_eq!(
        target("/p", &FileState::Missing),
        OverrideTarget::Canonical("/p/compose.override.yml".to_string())
    );
    assert_eq!(
        target("/p", &mine),
        OverrideTarget::Canonical("/p/compose.override.yml".to_string())
    );
    assert_eq!(
        target("/p", &foreign),
        OverrideTarget::Fallback {
            path: "/p/henk.override.yml".to_string(),
            existing_canonical: "/p/compose.override.yml".to_string()
        }
    );
}

#[test]
fn a_rendered_override_is_recognised_and_joins_the_proxy() {
    let text = override_file::render(&vec![
        ServiceMembership {
            service: "web".to_string(),
            existing_networks: owned(&["back"]),
        },
        ServiceMembership { service: "mail".to_string(), existing_networks: vec![] },
    ]);
    assert!(text.starts_with(HENK_FILE_HEADER));
    assert!(ours(&FileState::Text(text.clone())));
    let doc = yaml::parse(text.as_str()).unwrap();
    let nets = |name: &str| {
        let list = doc.field("services").unwrap().field(name).unwrap().field("networks").unwrap();
        match list {
            Yaml::Sequence(items) => {
                items.iter().filter_map(|i| i.as_str().cloned()).collect::<Vec<String>>()
            }
            _ => Vec::new(),
        }
    };
    assert_eq!(nets("web"), owned(&["back", "henk-proxy"]));
    assert_eq!(nets("mail"), owned(&["default", "henk-proxy"]));
}

#[test]
fn rendered_routes_read_back_as_the_linked_hosts() {
    let m = manifest(vec![
        entry("spatiebalk.test", Some("laravel.test"), Some(80), &[]),
        entry("vite.spatiebalk.test", Some("laravel.test"), Some(5173), &["vite"]),
    ]);
    let body = file_provider::render(&m);
    assert!(body.starts_with(HENK_FILE_HEADER));
    assert!(body.contains("Host(`vite.spatiebalk.test`)"));
    assert!(body.contains("url: \"http://laravel.test:5173\""));
    let links = parse_linked_hosts("spatiebalk", body.as_str());
    let pairs: Vec<(&str, &str)> =
        links.iter().map(|l| (l.host.as_str(), l.url.as_str())).collect();
    assert_eq!(
        pairs,
        vec![
            ("spatiebalk.test", "http://laravel.test:80"),
            ("vite.spatiebalk.test", "http://laravel.test:5173"),
        ]
    );
    assert_eq!(
        file_provider::path_in("/Users/me", "spatiebalk"),
        "/Users/me/.config/henk/dynamic/spatiebalk.yml"
    );
}

const LEGACY: &str = r#"# managed by henk — see https://github.com/fivespark/henk
http:
  routers:
    sparkle:
      rule: "Host(`sparkle.test`)"
      service: sparkle
  services:
    sparkle:
      loadBalancer:
        servers:
          - url: "http://host.docker.internal:3000"
"#;

#[test]
fn legacy_entries_are_migrated_once() {
    let m = file_provider::manifest_from_entry("sparkle", LEGACY);
    assert_eq!(m.slug, "sparkle");
    assert_eq!(m.mode, ProjectMode::Host);
    assert_eq!(m.hosts[0].host, "sparkle.test");
    assert_eq!(m.hosts[0].target, Some("http://host.docker.internal:3000".to_string()));
    let files = vec![
        route("sparkle.yml", LEGACY),
        route("foreign.yml", "http:\n  routers: {}\n"),
        route("_henk.yml", LEGACY),
    ];
    let migrated = file_provider::migrate_legacy_entries(&files);
    assert_eq!(migrated.len(), 1);
    assert_eq!(migrated[0].0, "sparkle");
    assert_eq!(migrated[0].1, file_provider::render(&m));
    assert_eq!(
        parse_linked_hosts("sparkle", migrated[0].1.as_str()),
        parse_linked_hosts("sparkle", LEGACY)
    );
    assert_eq!(file_provider::upgrade_entry("sparkle", migrated[0].1.as_str()), None);
}

#[test]
fn unlinking_undoes_linking() {
    let d = docker_vite_detection();
    let before = register(&d, &request(), None, "spatiebalk").unwrap();
    let mut add = request();
    add.add_only = true;
    add.host = Some("mail.spatiebalk.test".to_string());
    let both = register(&d, &add, Some(before), "spatiebalk").unwrap();
    assert_eq!(both.hosts.len(), 2);
    let back = drop_hosts(both, Some("mail.spatiebalk.test".to_string())).unwrap();
    assert_eq!(back.removed, owned(&["mail.spatiebalk.test"]));
    assert_eq!(back.manifest, register(&d, &request(), None, "spatiebalk").unwrap());
}

#[test]
fn unlinking_without_a_host_removes_the_project() {
    let m = manifest(vec![
        entry("a.test", Some("web"), Some(80), &[]),
        entry("b.test", Some("web"), Some(80), &[]),
    ]);
    let gone = drop_hosts(m, None).unwrap();
    assert_eq!(gone.removed, owned(&["a.test", "b.test"]));
    assert!(gone.manifest.hosts.is_empty());
    assert_eq!(
        unlink::plan(&gone.manifest),
        vec![
            UnlinkAction::RemoveRoutes,
            UnlinkAction::RemoveOverride,
            UnlinkAction::RemoveMarker,
            UnlinkAction::IssueCertificate,
            UnlinkAction::RestartProxy,
            UnlinkAction::Summary,
        ]
    );
    let left = manifest(vec![entry("a.test", Some("web"), Some(80), &[])]);
    assert_eq!(
        unlink::plan(&left),
        vec![
            UnlinkAction::SaveManifest,
            UnlinkAction::WriteRoutes,
            UnlinkAction::IssueCertificate,
            UnlinkAction::RestartProxy,
            UnlinkAction::Summary,
        ]
    );
}

#[test]
fn unlink_errors() {
    let m = manifest(vec![entry("a.test", Some("web"), Some(80), &[])]);
    let err = drop_hosts(m, Some("b.test".to_string())).unwrap_err();
    assert_eq!(err, UnlinkError::UnknownHost("b.test".to_string()));
    assert_eq!(
        err.message(),
        "host `b.test` is not registered for this project. Run `henk status` to see linked hosts."
    );
    assert_eq!(
        UnlinkError::NotInitialised.message(),
        "henk has not been initialised yet — nothing to unlink against"
    );
    assert_eq!(
        UnlinkError::NotLinked.message(),
        "this directory isn't linked — no `.henk.toml` to unlink"
    );
}

#[test]
fn remove_manifest_file_only_drops_henk_authored() {
    let file = FileState::Text("# someone else's marker file\nslug = \"x\"\n".to_string());
    let err = remove_manifest_file("/p/.henk.toml", &file).unwrap_err();
    assert!(err.message().contains("not managed by henk"));
    assert_eq!(err, UnlinkError::ForeignMarker("/p/.henk.toml".to_string()));
}

#[test]
fn remove_manifest_file_drops_when_header_present() {
    let file = FileState::Text(format!("{HENK_FILE_HEADER}\nslug = \"x\"\n"));
    assert_eq!(remove_manifest_file("/p/.henk.toml", &file), Ok(true));
}

#[test]
fn remove_manifest_file_no_op_when_missing() {
    assert_eq!(remove_manifest_file("/p/.henk.toml", &FileState::Missing), Ok(false));
}

#[test]
fn unlink_summaries() {
    let gone = owned(&["a.test"]);
    let all = unlink::print_summary("app", &gone, true, "/p");
    assert!(all.starts_with(
        "\n\u{1b}[1m\u{1b}[32m✓ unlinked.\u{1b}[39m\u{1b}[0m\n  - https://a.test\n\n"
    ));
    assert!(all.contains("and ~/.config/henk/dynamic/app.yml."));
    assert!(all.contains("manually — henk doesn't edit existing `.env` lines on unlink (/p)."));
    let some = unlink::print_summary("app", &gone, false, "/p");
    assert!(some.ends_with("  remaining hosts re-rendered to ~/.config/henk/dynamic/app.yml.\n"));
}

#[test]
fn the_marker_file_carries_the_header() {
    assert_eq!(
        ProjectManifest::file_text("slug = \"x\"\n"),
        "# managed by henk — see https://github.com/fivespark/henk\n# this file marks the project as linked. Safe to commit or .gitignore.\n\nslug = \"x\"\n"
    );
    assert_eq!(ProjectManifest::path_in("/p"), "/p/.henk.toml");
    let fresh = ProjectManifest::new("x", ProjectMode::Host);
    assert!(fresh.hosts.is_empty());
    assert_eq!(fresh.mode, ProjectMode::Host);
}
