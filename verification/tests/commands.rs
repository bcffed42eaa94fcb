//! What the commands say and decide.

use henk::cli::default::greeting;
use henk::cli::init::{
    already_initialized, brew_dnsmasq_dropin_path, explain_sudo_usage, install_consent,
    install_question, missing_brew_pkgs, prime_sudo, print_already_initialized,
    print_completion_summary, print_section, print_wizard_header, refusal, wizard_next,
    wizard_request, WizardEvent, WizardRequest, WizardStep,
};
use henk::cli::status::{
    preview, print_cert_status, print_linked_projects, print_settings, print_stack_status,
    print_stale_stack_nudge, print_uninitialised, CertFacts,
};
use henk::cli::uninstall::{
    brew_uninstall_command, drop_in_file, network_removed, packages_to_remove, plan,
    print_also, print_farewell, print_plan, remove_dnsmasq_dropin, remove_network, remove_resolver_file,
    resolver_file, resolver_removed,
    restart_dnsmasq_command, sudo_rm_command, uninstall_henk_brew_pkgs, Removal, UninstallStep,
};
use henk::cli::update::{
    audit_op, print_check, print_receipt_missing, print_update, print_upgrading,
    should_upgrade_stack, upgrade_stack, CheckOutcome, UpdateOutcome, AUDIT_FAILED,
};
use henk::cli::{init, status};
use henk::config::Config;
use henk::consts::HENK_FILE_HEADER;
use henk::detect::backend::{BackendItem, LinkedHost};
use henk::detect::report::item;
use henk::detect::tld::decide;
use henk::detect::{DetectionReport, Status};
use henk::manifest::{steps, InstalledBy, StateManifest};
use henk::project::env_file::FileState;
use henk::runner::{CommandOutput, Invocation, Reply};

fn line(cmd: &Invocation) -> String {
    format!("{} {}", cmd.program, cmd.args.join(" "))
}

fn said(stdout: &str) -> Reply {
    Reply::Output(CommandOutput {
        status: 0,
        stdout: stdout.to_string(),
        stderr: String::new(),
    })
}

#[test]
fn no_args_prints_smart_status_stub() {
    let stdout = greeting("0.1.0");
    assert!(stdout.contains("henk"));
    assert!(stdout.contains("Run `henk init`"));
    assert!(stdout.starts_with("henk 0.1.0 — local-dev URL routing for Docker\n\n"));
}

fn report() -> DetectionReport {
    DetectionReport {
        items: vec![
            item("Docker", Status::Warn, "x".to_string()),
            item("mkcert", Status::Warn, "x".to_string()),
            item("nss", Status::Okay, "x".to_string()),
            item("dnsmasq", Status::Warn, "x".to_string()),
        ],
        tld: decide(None, false, false),
    }
}

#[test]
fn missing_packages_are_planned() {
    assert_eq!(missing_brew_pkgs(&report()), vec!["mkcert", "dnsmasq"]);
    let text = init::print_plan(&report(), &Config::default());
    assert!(text.contains("install Homebrew packages: mkcert, dnsmasq\n"));
    assert!(text.contains("issue wildcard cert for *.test (and test)\n"));
    assert!(text.contains("  TLD: .test  (default — RFC 6761 reserved)\n"));
    let none = DetectionReport { items: vec![], tld: decide(Some("dev"), false, false) };
    let text = init::print_plan(&none, &Config::default());
    assert!(!text.contains("install Homebrew packages"));
    assert!(text.contains("(--tld override)"));
}

#[test]
fn wizard_texts() {
    let header = print_wizard_header();
    assert!(header.contains(
        "\u{1b}[94m│ Local-dev URLs over HTTPS for Docker on macOS.       │\u{1b}[39m\n"
    ));
    assert_eq!(
        print_section("Plan"),
        "\n\u{1b}[94m\u{1b}[1m── Plan ──\u{1b}[0m\u{1b}[39m\n"
    );
    let sudo = explain_sudo_usage(&Config::default());
    assert!(sudo.contains(
        "    2. \u{1b}[3m/etc/resolver\u{1b}[0m: write /etc/resolver/test so macOS routes `*.test` queries.\n"
    ));
    assert_eq!(install_question("nss"), "Install `nss` via Homebrew now?");
    assert_eq!(install_consent("nss", true, false), Ok(()));
    assert_eq!(install_consent("nss", false, true), Ok(()));
    assert_eq!(
        install_consent("nss", false, false).unwrap_err(),
        "`nss` is required; aborting."
    );
    assert_eq!(prime_sudo(Some(0)), Ok(()));
    assert_eq!(
        prime_sudo(Some(1)).unwrap_err(),
        "could not prime sudo credentials (exit 1). Aborting."
    );
    assert_eq!(prime_sudo(None).unwrap_err(), "running `sudo -v`");
    assert_eq!(
        brew_dnsmasq_dropin_path(&said(" /opt/homebrew\n"), "test"),
        Some("/opt/homebrew/etc/dnsmasq.d/henk-test.conf".to_string())
    );
    assert_eq!(brew_dnsmasq_dropin_path(&Reply::Unavailable, "test"), None);
    assert!(already_initialized(true, true, true));
    assert!(!already_initialized(true, true, false));
    let there = print_already_initialized("/c", "/r", "/d");
    assert!(there.contains("  \u{1b}[32m✓\u{1b}[39m  cert         /c\n"));
    let done = print_completion_summary(&Config::default());
    assert!(done.contains("  Dashboard:  https://traefik.test\n"));
    assert!(done.contains("http://localhost:19080\n"));
}

const ASKING: WizardRequest =
    WizardRequest { dry_run: false, yes: false, reserved_tld: false };

fn walk(request: WizardRequest, events: &[WizardEvent]) -> Vec<WizardStep> {
    let mut steps = vec![WizardStep::Detect];
    for e in events {
        let next = wizard_next(request, *steps.last().unwrap(), *e);
        steps.push(next);
    }
    steps
}

#[test]
fn a_dry_run_only_reports() {
    let request = wizard_request(true, true, None);
    assert_eq!(
        walk(request, &[WizardEvent::Answer(false), WizardEvent::Passed]),
        vec![WizardStep::Detect, WizardStep::Stop, WizardStep::Stop]
    );
    assert_eq!(
        walk(request, &[WizardEvent::Answer(true)]),
        vec![WizardStep::Detect, WizardStep::Stop]
    );
}

#[test]
fn blockers_end_the_wizard() {
    assert_eq!(
        walk(ASKING, &[WizardEvent::Answer(true), WizardEvent::Passed]),
        vec![WizardStep::Detect, WizardStep::Refuse, WizardStep::Fail]
    );
    assert_eq!(
        refusal(ASKING, "test"),
        "Detection found blockers (see above). Resolve them and re-run `henk init`."
    );
}

#[test]
fn a_reserved_tld_is_refused() {
    for tld in ["localhost", ".LOCAL", "example", "invalid"] {
        for yes in [false, true] {
            let request = wizard_request(false, yes, Some(tld));
            assert_eq!(
                walk(request, &[WizardEvent::Answer(false), WizardEvent::Passed]),
                vec![WizardStep::Detect, WizardStep::Refuse, WizardStep::Fail]
            );
        }
    }
    assert_eq!(
        refusal(wizard_request(false, true, Some(".LOCAL")), "local"),
        "`.local` is reserved; henk refuses to use it. Pick another one with `--tld`."
    );
    assert_eq!(
        walk(wizard_request(true, true, Some("local")), &[WizardEvent::Answer(false)]),
        vec![WizardStep::Detect, WizardStep::Stop]
    );
    assert_eq!(
        walk(wizard_request(false, false, Some("dev")), &[WizardEvent::Answer(false)]),
        vec![WizardStep::Detect, WizardStep::LoadConfig]
    );
    assert_eq!(wizard_request(false, false, None), ASKING);
}

#[test]
fn the_wizard_asks_before_it_acts() {
    assert_eq!(
        walk(
            ASKING,
            &[
                WizardEvent::Answer(false),
                WizardEvent::Passed,
                WizardEvent::Answer(false),
                WizardEvent::Passed,
                WizardEvent::Answer(true),
                WizardEvent::Passed,
                WizardEvent::Passed,
                WizardEvent::Passed,
                WizardEvent::Passed,
            ]
        ),
        vec![
            WizardStep::Detect,
            WizardStep::LoadConfig,
            WizardStep::CheckInitialised,
            WizardStep::PrintPlan,
            WizardStep::AskProceed,
            WizardStep::InstallPackages,
            WizardStep::PrimeSudo,
            WizardStep::Execute,
            WizardStep::Summarise,
            WizardStep::Stop,
        ]
    );
    let said_no = walk(
        ASKING,
        &[
            WizardEvent::Answer(false),
            WizardEvent::Passed,
            WizardEvent::Answer(false),
            WizardEvent::Passed,
            WizardEvent::Answer(false),
            WizardEvent::Passed,
        ],
    );
    assert_eq!(said_no[5], WizardStep::Abort);
    assert_eq!(said_no[6], WizardStep::Stop);
}

#[test]
fn an_initialised_host_is_only_brought_up() {
    let up = walk(
        ASKING,
        &[
            WizardEvent::Answer(false),
            WizardEvent::Passed,
            WizardEvent::Answer(true),
            WizardEvent::Answer(true),
            WizardEvent::Passed,
            WizardEvent::Passed,
        ],
    );
    assert_eq!(
        up[3..],
        [
            WizardStep::AskBringUp,
            WizardStep::BringUp,
            WizardStep::Summarise,
            WizardStep::Stop
        ]
    );
    assert_eq!(
        wizard_next(ASKING, WizardStep::BringUp, WizardEvent::Failed),
        WizardStep::PrintPlan
    );
    assert_eq!(
        wizard_next(ASKING, WizardStep::AskBringUp, WizardEvent::Failed),
        WizardStep::PrintPlan
    );
    assert_eq!(
        wizard_next(ASKING, WizardStep::AskProceed, WizardEvent::Failed),
        WizardStep::Fail
    );
}

#[test]
fn status_texts() {
    assert!(print_uninitialised().contains("  Run `henk init` to set up the global stack.\n"));
    assert_eq!(
        print_settings(&Config::default()),
        "  TLD:        .test\n  HTTP/HTTPS: :80 / :443\n  Dashboard:  http://localhost:19080\n\n"
    );
    assert_eq!(
        print_stack_status(true, false),
        "  Traefik:    \u{1b}[32mrunning\u{1b}[39m\n  dnsmasq:    \u{1b}[31mnot answering on :53\u{1b}[39m\n\n"
    );
    assert_eq!(print_stale_stack_nudge(&None), None);
    assert_eq!(print_stale_stack_nudge(&Some(StateManifest::default())), None);
    let mut old = StateManifest::default();
    old.stack_version = 0;
    let nudge = print_stale_stack_nudge(&Some(old)).unwrap();
    assert!(nudge.contains("  The running stack is v0 but this henk ships v1.\n"));
}

#[test]
fn the_certificate_is_previewed() {
    let names: Vec<String> = (0..7).map(|i| format!("{i}.test")).collect();
    assert_eq!(preview(&names, 2), "0.test, 1.test, …");
    assert_eq!(preview(&names, 7), "0.test, 1.test, 2.test, 3.test, 4.test, 5.test, 6.test");
    assert_eq!(
        print_cert_status(&None),
        "  Cert:       \u{1b}[31mnot issued\u{1b}[39m\n\n"
    );
    assert_eq!(
        print_cert_status(&Some(CertFacts { sans: names, expires: None })),
        "  Cert:       7 SANs, expires unknown\n              0.test, 1.test, 2.test, 3.test, 4.test, 5.test, …\n\n"
    );
    assert_eq!(
        print_cert_status(&Some(CertFacts {
            sans: vec![],
            expires: Some("soon".to_string())
        })),
        "  Cert:       0 SANs, expires soon\n\n"
    );
}

fn link(slug: &str, host: &str) -> LinkedHost {
    LinkedHost { slug: slug.to_string(), host: host.to_string(), url: "u".to_string() }
}

fn verdict(host: &str, status: Status, detail: &str) -> BackendItem {
    BackendItem {
        slug: "s".to_string(),
        host: host.to_string(),
        status,
        detail: detail.to_string(),
    }
}

#[test]
fn linked_projects_are_listed_with_their_verdicts() {
    assert_eq!(
        print_linked_projects(&vec![], &vec![]),
        "  Linked projects: \u{1b}[90mnone\u{1b}[39m\n\n"
    );
    let links = vec![link("a", "a.test"), link("a", "b.a.test"), link("c", "c.test")];
    let verdicts =
        vec![verdict("a.test", Status::Okay, "fine"), verdict("c.test", Status::Warn, "down")];
    assert_eq!(
        print_linked_projects(&links, &verdicts),
        "  \u{1b}[1mLinked projects:\u{1b}[0m\n    · a\n        \u{1b}[32m✓\u{1b}[39m  https://a.test\n           https://b.a.test\n    · c\n        \u{1b}[33m!\u{1b}[39m  https://c.test  — down\n\n"
    );
    assert!(status::preview(&vec![], 3).is_empty());
}

fn recorded() -> Option<StateManifest> {
    let mut s = StateManifest::default();
    s.mark_step_complete(steps::RESOLVER_FILE, Some("/etc/resolver/dev".to_string()), None);
    s.mark_step_complete(steps::DNSMASQ_DROPIN, Some("/d.conf".to_string()), None);
    s.mark_step_complete(steps::BREW_MKCERT, None, Some(InstalledBy::Henk));
    s.mark_step_complete(steps::BREW_NSS, None, Some(InstalledBy::Preexisting));
    Some(s)
}

#[test]
fn uninstalling_comes_in_tiers() {
    assert_eq!(plan(false, true, false), vec![UninstallStep::Abort]);
    assert_eq!(
        plan(true, false, true),
        vec![UninstallStep::StopStack, UninstallStep::Farewell]
    );
    assert_eq!(
        plan(true, true, false),
        vec![
            UninstallStep::StopStack,
            UninstallStep::RemoveNetwork,
            UninstallStep::RemoveResolver,
            UninstallStep::RemoveDropIn,
            UninstallStep::RemoveConfigDir,
            UninstallStep::RemoveDataDir,
            UninstallStep::DeleteState,
            UninstallStep::RemovePackages,
            UninstallStep::Farewell,
        ]
    );
}

#[test]
fn only_henks_own_network_is_removed() {
    let listed = said("henk-proxy\n");
    let labelled = remove_network(&listed, &listed, false).unwrap();
    assert_eq!(line(&labelled), "docker network rm henk-proxy");
    assert_eq!(remove_network(&listed, &said(""), true), Some(labelled));
    assert!(remove_network(&listed, &said(""), false).is_none());
    assert!(remove_network(&said(""), &said(""), true).is_none());
    assert!(remove_network(&Reply::Unavailable, &Reply::Unavailable, false).is_none());
    assert_eq!(network_removed(&said("henk-proxy\n")), None);
    assert_eq!(
        network_removed(&Reply::Unavailable),
        Some("    ! could not remove the `henk-proxy` network; skipping.\n".to_string())
    );
}

#[test]
fn the_uninstall_plan_word_for_word() {
    assert_eq!(
        print_plan(&recorded(), true, false),
        "Will:\n  · stop the global Traefik stack\n  · delete \u{1b}[3m~/.config/henk/\u{1b}[0m (henk-authored files only)\n  · delete /etc/resolver/dev\n  · delete /d.conf\n  · delete state.json\n\n  Plus \u{1b}[1mbrew uninstall\u{1b}[0m (state.json says we installed):\n    · mkcert\n\n  Foreign files (resolvers, configs without our header) are \u{1b}[1mnever\u{1b}[0m touched.\n\n"
    );
    assert_eq!(
        print_also(false),
        "  Plus, where they exist: henk's Docker network `henk-proxy` and \u{1b}[3m~/.local/share/henk/\u{1b}[0m.\n\n"
    );
    assert_eq!(print_also(true), "");
    let kept = print_plan(&None, true, true);
    assert!(kept.contains("\u{1b}[3mpreserve config + state\u{1b}[0m files (--keep-config)\n"));
    assert!(kept.contains("    (none — every brew package was already on the box)\n"));
}

#[test]
fn only_files_with_the_header_are_removed() {
    let ours = FileState::Text(format!("{HENK_FILE_HEADER}\nx\n"));
    let foreign = FileState::Text("x\n".to_string());
    assert_eq!(resolver_file(&None), "/etc/resolver/test");
    assert_eq!(resolver_file(&recorded()), "/etc/resolver/dev");
    assert_eq!(
        remove_resolver_file(&recorded(), &ours),
        Removal::Remove("/etc/resolver/dev".to_string())
    );
    assert_eq!(remove_resolver_file(&None, &FileState::Missing), Removal::Nothing);
    let alone = Removal::LeaveAlone(
        "  \u{1b}[90m○\u{1b}[39m  /d.conf — header check failed; leaving alone.\n".to_string(),
    );
    assert_eq!(drop_in_file(&recorded()), Some("/d.conf".to_string()));
    assert_eq!(remove_dnsmasq_dropin(&recorded(), &foreign), alone);
    assert_eq!(remove_dnsmasq_dropin(&recorded(), &FileState::Unreadable), alone);
    assert_eq!(remove_dnsmasq_dropin(&None, &ours), Removal::Nothing);
    assert_eq!(line(&sudo_rm_command("/r")), "sudo rm -f /r");
    assert_eq!(resolver_removed("/r", Some(0)), Ok(()));
    assert_eq!(
        resolver_removed("/r", Some(1)).unwrap_err(),
        "`sudo rm /r` failed (exit 1)"
    );
    assert_eq!(
        resolver_removed("/r", None).unwrap_err(),
        "running `sudo rm` on resolver file"
    );
    assert_eq!(line(&restart_dnsmasq_command()), "brew services restart dnsmasq");
}

#[test]
fn packages_that_were_there_before_stay() {
    assert_eq!(packages_to_remove(&None), None);
    assert_eq!(packages_to_remove(&recorded()), Some(vec!["mkcert".to_string()]));
    assert_eq!(line(&brew_uninstall_command("mkcert")), "brew uninstall mkcert");
    assert_eq!(uninstall_henk_brew_pkgs("mkcert", Some(0)), Ok(None));
    assert_eq!(
        uninstall_henk_brew_pkgs("mkcert", Some(2)),
        Ok(Some("    ! `brew uninstall mkcert` exited 2; skipping.\n".to_string()))
    );
    assert_eq!(
        uninstall_henk_brew_pkgs("mkcert", None),
        Err("running `brew uninstall mkcert`".to_string())
    );
    assert_eq!(
        print_farewell(true),
        "\n\u{1b}[1m\u{1b}[32m✓\u{1b}[39m\u{1b}[0m  henk has been uninstalled.\n"
    );
    assert!(print_farewell(false).contains("Re-run with `--deep`\n"));
}

#[test]
fn updates_are_recorded_and_reported() {
    assert_eq!(audit_op(true), "henk update --check");
    assert_eq!(audit_op(false), "henk update");
    assert_eq!(AUDIT_FAILED, "henk update (failed)");
    assert!(print_receipt_missing("no receipt").starts_with(
        "  \u{1b}[90m·\u{1b}[39m  Could not load install receipt: no receipt\n\n"
    ));
    assert_eq!(
        print_check(&CheckOutcome::Newer),
        "  \u{1b}[92m↑\u{1b}[39m  A newer version of henk is available.\n  Run \u{1b}[1mhenk update\u{1b}[0m to install it.\n\n"
    );
    assert_eq!(
        print_check(&CheckOutcome::UpToDate),
        "  \u{1b}[92m✓\u{1b}[39m  henk is up to date.\n\n"
    );
    assert!(print_check(&CheckOutcome::Failed("offline".to_string()))
        .contains("  Could not check for updates: offline\n"));
    assert_eq!(
        print_update(&UpdateOutcome::Updated("1.2.3".to_string())),
        "  \u{1b}[92m✓\u{1b}[39m  Updated to \u{1b}[1m1.2.3\u{1b}[0m\n"
    );
    assert_eq!(
        print_update(&UpdateOutcome::AlreadyLatest),
        "  \u{1b}[92m✓\u{1b}[39m  Already on the latest version.\n"
    );
    assert!(print_update(&UpdateOutcome::Failed("x".to_string()))
        .starts_with("  \u{1b}[91m✗\u{1b}[39m  Update failed: x\n"));
    assert!(should_upgrade_stack(&UpdateOutcome::AlreadyLatest));
    assert!(should_upgrade_stack(&UpdateOutcome::Updated("1".to_string())));
    assert!(!should_upgrade_stack(&UpdateOutcome::Failed("x".to_string())));
    assert!(print_upgrading().contains("Bringing the stack up to date ..."));
    assert_eq!(upgrade_stack(true), None);
    assert!(upgrade_stack(false).unwrap().contains("the stack wasn't upgraded.\n"));
}
