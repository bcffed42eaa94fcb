//! The state manifest and the config.

use henk::cli::doctor::{
    collect_drift, outcome, print_drift, print_state_missing, print_state_summary, recorded_path,
    DoctorOutcome, DriftFacts,
};
use henk::clock::Timestamp;
use henk::config::{self, Config, Ports};
use henk::consts::{STACK_VERSION, STATE_SCHEMA_VERSION};
use henk::manifest::state::{self, StateGuard};
use henk::manifest::{no_install_attribution, steps, InstalledBy, StateManifest, StepState};
use henk::stack::paths::{home, Home, PathError};

fn cfg() -> Config {
    Config {
        schema_version: 1,
        tld: "test".to_string(),
        ports: Ports { http: 80, https: 443, dnsmasq: 35353, dashboard: 19080 },
        update_check: true,
    }
}

/// Nothing exists.
fn nothing() -> DriftFacts {
    DriftFacts {
        cert: false,
        resolver: false,
        drop_in: false,
        compose_path: Some("/h/.config/henk/traefik/compose.yml".to_string()),
        compose: false,
    }
}

fn at(secs: i64) -> Timestamp {
    Timestamp { secs, nanos: 0 }
}

#[test]
fn roundtrip_empty_state() {
    let s = StateManifest::load_or_init(None, "test");
    let loaded = StateManifest::load_or_init(Some(s), "other");
    assert_eq!(loaded.tld, "test");
    assert_eq!(loaded.schema_version, STATE_SCHEMA_VERSION);
    assert!(loaded.steps.is_empty());
}

#[test]
fn mark_step_complete_records_metadata() {
    let mut s = StateManifest::load_or_init(None, "test");
    s.mark_step_complete(steps::BREW_MKCERT, None, Some(InstalledBy::Henk));
    let step = s.steps.get(steps::BREW_MKCERT).unwrap();
    assert_eq!(step.state, StepState::Complete);
    assert_eq!(step.installed_by, Some(InstalledBy::Henk));
}

#[test]
fn brew_packages_we_installed_excludes_preexisting() {
    let mut s = StateManifest::load_or_init(None, "test");
    s.mark_step_complete(steps::BREW_MKCERT, None, Some(InstalledBy::Henk));
    s.mark_step_complete(steps::BREW_NSS, None, Some(InstalledBy::Preexisting));
    s.mark_step_complete(steps::BREW_DNSMASQ, None, Some(InstalledBy::Henk));
    assert_eq!(s.brew_packages_we_installed(), vec!["mkcert", "dnsmasq"]);
}

#[test]
fn audit_appends_with_timestamp() {
    let mut s = StateManifest::load_or_init(None, "test");
    s.audit("sudo install /etc/resolver/test", 0);
    s.audit("brew install mkcert", 0);
    assert_eq!(s.audit.len(), 3);
    assert!(s.audit[2].ts.secs >= s.audit[0].ts.secs);
    assert!(s.audit[0].ts.secs > 1_500_000_000);
}

#[test]
fn init_run_open_close_pairs_up() {
    let mut s = StateManifest::load_or_init(None, "test");
    s.open_init_run();
    assert_eq!(s.init_runs.len(), 1);
    assert!(s.init_runs[0].completed_at.is_none());
    s.close_init_run("success");
    assert!(s.init_runs[0].completed_at.is_some());
    assert_eq!(s.init_runs[0].result, "success");
}

#[test]
fn a_fresh_state_says_when_it_was_created() {
    let s = StateManifest::load_or_init_at(None, "test", at(7));
    assert_eq!(s.stack_version, STACK_VERSION);
    assert_eq!(s.audit.len(), 1);
    assert_eq!(s.audit[0].op, "state.json created");
    assert_eq!(s.audit[0].exit, 0);
    assert_eq!(s.audit[0].ts, at(7));
}

#[test]
fn failed_steps_keep_their_error() {
    let mut s = StateManifest::load_or_init_at(None, "test", at(1));
    s.mark_step_complete_at(
        steps::WILDCARD_CERT,
        Some("/c.pem".to_string()),
        no_install_attribution(),
        at(2),
    );
    s.mark_step_failed_at(steps::STACK_UP, "no docker", at(3));
    let failed = s.steps.get(steps::STACK_UP).unwrap();
    assert_eq!(failed.state, StepState::Failed);
    assert_eq!(failed.error, Some("no docker".to_string()));
    assert_eq!(failed.updated_at, at(3));
    let cert = s.steps.get(steps::WILDCARD_CERT).unwrap();
    assert_eq!(cert.state, StepState::Complete);
    assert_eq!(cert.path, Some("/c.pem".to_string()));
    assert_eq!(recorded_path(&s, steps::WILDCARD_CERT), Some("/c.pem".to_string()));
    assert_eq!(recorded_path(&s, steps::RESOLVER_FILE), None);
}

#[test]
fn closing_without_an_open_run_does_nothing() {
    let mut s = StateManifest::default();
    s.close_init_run_at("success", at(1));
    assert!(s.init_runs.is_empty());
    s.open_init_run_at(at(2));
    assert_eq!(s.init_runs[0].result, "in_progress");
    s.open_init_run_at(at(3));
    s.close_init_run_at("failed", at(4));
    assert_eq!(s.init_runs[0].completed_at, None);
    assert_eq!(s.init_runs[1].completed_at, Some(at(4)));
    assert_eq!(s.init_runs[1].result, "failed");
}

#[test]
fn auditing_never_rewrites_history() {
    let mut s = StateManifest::load_or_init_at(None, "test", at(1));
    s.audit_at("a", 1, at(2));
    s.audit_at("b", 0, at(3));
    let ops: Vec<&str> = s.audit.iter().map(|e| e.op.as_str()).collect();
    assert_eq!(ops, vec!["state.json created", "a", "b"]);
    assert_eq!(s.audit[1].exit, 1);
}

#[test]
fn the_stack_version_only_rises() {
    let mut s = StateManifest::default();
    assert!(!s.record_stack_version());
    s.stack_version = 0;
    assert!(s.record_stack_version());
    assert_eq!(s.stack_version, STACK_VERSION);
    s.stack_version = STACK_VERSION + 1;
    assert!(!s.record_stack_version());
    assert_eq!(s.stack_version, STACK_VERSION + 1);
}

#[test]
fn a_guard_is_dirty_once_its_state_may_change() {
    let mut g = StateGuard::open(None, "test");
    assert_eq!(g.state().tld, "test");
    assert!(!g.dirty);
    g.state_mut().tld = "dev".to_string();
    assert!(g.dirty);
    assert_eq!(g.state().tld, "dev");
}

#[test]
fn files_of_the_config_directory() {
    assert_eq!(state::path_in("/Users/me"), "/Users/me/.config/henk/state.json");
    assert_eq!(config::path_in("/Users/me"), "/Users/me/.config/henk/config.toml");
    if let Ok(Home::Text(h)) = home() {
        assert_eq!(state::path().unwrap().text(), Some(state::path_in(&h)));
        assert_eq!(config::path().unwrap().text(), Some(config::path_in(&h)));
    }
    let raw = || Ok(Home::Raw(vec![b'/', 0xff]));
    assert_eq!(state::path_from(raw()).unwrap().below, ".config/henk/state.json");
    assert_eq!(config::path_from(raw()).unwrap().below, ".config/henk/config.toml");
    assert_eq!(config::path_from(raw()).unwrap().home, Home::Raw(vec![b'/', 0xff]));
    assert_eq!(state::path_from(Err(PathError::NoHome)), Err(PathError::NoHome));
    assert_eq!(config::path_from(Err(PathError::NoHome)), Err(PathError::NoHome));
}

#[test]
fn a_fresh_config_uses_the_chosen_tld() {
    let (fresh, created) = Config::load_or_init(None, ".Dev");
    assert!(created);
    assert_eq!(fresh.tld, "dev");
    assert_eq!(fresh.ports, cfg().ports);
    assert!(fresh.update_check);
    let (kept, created) = Config::load_or_init(Some(cfg()), "other");
    assert!(!created);
    assert_eq!(kept, cfg());
    assert_eq!(Config::default(), cfg());
    assert_eq!(
        cfg().file_text("tld = \"test\"\n"),
        "# managed by henk — see https://github.com/fivespark/henk\n# schema_version = 1\n\ntld = \"test\"\n"
    );
}

#[test]
fn drift_flags_missing_cert_path() {
    let mut state = StateManifest::default();
    state.tld = "test".to_string();
    state.mark_step_complete(
        steps::WILDCARD_CERT,
        Some("/tmp/henk-cert-that-doesnt-exist.pem".to_string()),
        None,
    );
    let drift = collect_drift(&state, &cfg(), &nothing());
    assert!(
        drift.iter().any(|d| d.contains("wildcard cert")),
        "expected drift entry for missing cert; got {drift:?}"
    );
}

#[test]
fn drift_flags_missing_resolver_file() {
    let mut state = StateManifest::default();
    state.tld = "test".to_string();
    state.mark_step_complete(
        steps::RESOLVER_FILE,
        Some("/tmp/henk-resolver-that-doesnt-exist".to_string()),
        None,
    );
    let drift = collect_drift(&state, &cfg(), &nothing());
    assert!(
        drift.iter().any(|d| d.contains("resolver file")),
        "expected drift entry for resolver; got {drift:?}"
    );
}

#[test]
fn drift_empty_when_files_exist() {
    let mut state = StateManifest::default();
    state.tld = "test".to_string();
    state.mark_step_complete(steps::WILDCARD_CERT, Some("/tmp/cert.pem".to_string()), None);
    let mut facts = nothing();
    facts.cert = true;
    let drift = collect_drift(&state, &cfg(), &facts);
    for d in &drift {
        assert!(d.contains("compose file"), "unexpected drift entry: {d}");
    }
    facts.compose = true;
    assert!(collect_drift(&state, &cfg(), &facts).is_empty());
}

#[test]
fn drift_word_for_word() {
    let mut state = StateManifest::default();
    state.stack_version = 0;
    state.mark_step_complete(steps::WILDCARD_CERT, Some("/c".to_string()), None);
    state.mark_step_complete(steps::RESOLVER_FILE, Some("/r".to_string()), None);
    state.mark_step_complete(steps::DNSMASQ_DROPIN, Some("/d".to_string()), None);
    assert_eq!(
        collect_drift(&state, &cfg(), &nothing()),
        vec![
            "wildcard cert recorded at /c but file is missing",
            "resolver file recorded at /r but missing — `*.test` won't resolve",
            "dnsmasq drop-in recorded at /d but missing",
            "traefik compose file missing at /h/.config/henk/traefik/compose.yml — templates haven't been rendered",
            "the running stack is v0 but this henk ships v1 — run `henk up`",
        ]
    );
}

#[test]
fn print_state_summary_doesnt_panic() {
    let mut state = StateManifest::default();
    state.tld = "test".to_string();
    state.mark_step_complete(steps::BREW_MKCERT, None, Some(InstalledBy::Henk));
    state.mark_step_complete(steps::WILDCARD_CERT, None, None);
    let text = print_state_summary(&state);
    assert!(text.contains("State manifest"));
    assert!(text.contains("mkcert"));
}

#[test]
fn doctor_reports_and_repairs() {
    assert_eq!(outcome(false, true, true), DoctorOutcome::NotInitialised);
    assert_eq!(outcome(true, false, true), DoctorOutcome::StateMissing);
    assert_eq!(outcome(true, true, false), DoctorOutcome::Report);
    assert_eq!(outcome(true, true, true), DoctorOutcome::Repair);
    assert_eq!(
        print_drift(&vec![], false),
        "  \u{1b}[32m✓\u{1b}[39m  no drift between state.json and the running system.\n\n"
    );
    assert_eq!(
        print_drift(&vec!["x".to_string()], false),
        "  \u{1b}[33m!\u{1b}[39m  drift detected:\n    · x\n\n  Run `henk doctor --repair` to fix these.\n"
    );
    assert_eq!(
        print_drift(&vec!["x".to_string()], true),
        "  \u{1b}[33m!\u{1b}[39m  drift detected:\n    · x\n\n"
    );
    assert!(print_state_missing().contains("  state.json is missing"));
}
