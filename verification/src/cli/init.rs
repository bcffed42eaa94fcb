//! `henk init`: the first-run wizard.

use vstd::prelude::*;
use vstd::string::*;

use crate::config::{Config, ConfigView};
use crate::detect::brew::package_of;
use crate::detect::report::{
    blocked, item_views, suite, DetectionReport, HostFacts, ItemView, Status,
};
use crate::detect::tld::{
    decision, is_reserved, law_clean_settles, law_own_tlds_are_not_reserved,
    law_reserved_ignores_dots_and_case, opt_str, reserved, TldReason,
};
use crate::paint::{
    blue, blue_of, bold, bold_of, gray, gray_of, green, green_of, italic, italic_of, yellow,
    yellow_of,
};
use crate::project::file_provider::lemma_contains_inside;
use crate::runner::Reply;
use crate::stack::certs::step_view;
use crate::stack::dnsmasq::{config_path, config_path_of};
use crate::text::{
    begins, contains, decimal, decimal_i32, decimal_int, decimal_u16, eq, join, join_of,
    lemma_contains_either, lemma_contains_itself, lemma_contains_pair, opt_text, texts, trim,
    trim_of,
};

verus! {

/// The wizard's header.
pub open spec fn header_text() -> Seq<char> {
    "\n"@ + blue_of("╭─ henk · first-run setup ─────────────────────────────╮"@) + "\n"@ + blue_of(
        "│ Local-dev URLs over HTTPS for Docker on macOS.       │"@,
    ) + "\n"@ + blue_of("╰──────────────────────────────────────────────────────╯"@) + "\n"@
}

/// The wizard's header.
pub fn print_wizard_header() -> (r: String)
    ensures
        r@ == header_text(),
{
    "\n".to_owned().concat(
        blue("╭─ henk · first-run setup ─────────────────────────────╮").as_str(),
    ).concat("\n").concat(
        blue("│ Local-dev URLs over HTTPS for Docker on macOS.       │").as_str(),
    ).concat("\n").concat(
        blue("╰──────────────────────────────────────────────────────╯").as_str(),
    ).concat("\n")
}

/// The heading of a section.
pub open spec fn section_text(title: Seq<char>) -> Seq<char> {
    "\n"@ + blue_of(bold_of("── "@ + title + " ──"@)) + "\n"@
}

/// The heading of a section.
pub fn print_section(title: &str) -> (r: String)
    ensures
        r@ == section_text(title@),
{
    "\n".to_owned().concat(
        blue(bold("── ".to_owned().concat(title).concat(" ──").as_str()).as_str()).as_str(),
    ).concat("\n")
}

/// What the wizard was asked for.
#[derive(Debug, Clone, Copy, PartialEq, Eq, Structural)]
pub struct WizardRequest {
    /// Only report.
    pub dry_run: bool,
    /// Take every consent as given.
    pub yes: bool,
    /// The TLD that was asked for is one that henk refuses to use.
    pub reserved_tld: bool,
}

/// The request that a command line makes; `tld` is what `--tld` gave.
pub open spec fn request_of(dry_run: bool, yes: bool, tld: Option<Seq<char>>) -> WizardRequest {
    WizardRequest { dry_run, yes, reserved_tld: tld matches Some(t) && reserved(t) }
}

/// The request that a command line makes; `tld` is what `--tld` gave.
pub fn wizard_request(dry_run: bool, yes: bool, tld: Option<&str>) -> (r: WizardRequest)
    ensures
        r == request_of(dry_run, yes, opt_str(tld)),
{
    let reserved_tld = match tld {
        Some(t) => is_reserved(t),
        None => false,
    };
    WizardRequest { dry_run, yes, reserved_tld }
}

/// A step of the wizard.
#[derive(Debug, Clone, Copy, PartialEq, Eq, Structural)]
pub enum WizardStep {
    /// Probe the host and print the report.
    Detect,
    /// There are blockers, or the TLD is reserved: fail with [`refusal`].
    Refuse,
    /// Read the config, or write a fresh one.
    LoadConfig,
    /// Look whether everything is in place already.
    CheckInitialised,
    /// Ask whether to bring the stack up.
    AskBringUp,
    /// Bring the stack up.
    BringUp,
    /// Print what is about to happen.
    PrintPlan,
    /// Ask whether to proceed.
    AskProceed,
    /// Say that nothing was changed.
    Abort,
    /// Install the missing Homebrew packages.
    InstallPackages,
    /// Explain and prime sudo.
    PrimeSudo,
    /// Run the privileged setup.
    Execute,
    /// Print the closing summary.
    Summarise,
    /// The end.
    Stop,
    /// The end: the step before failed.
    Fail,
}

/// How a step of the wizard came out.
#[derive(Debug, Clone, Copy, PartialEq, Eq, Structural)]
pub enum WizardEvent {
    /// It worked.
    Passed,
    /// It failed.
    Failed,
    /// The answer: were there blockers, is everything in place, does the user
    /// agree?
    Answer(bool),
}

/// The step that follows. A dry run ends with the report; blockers and a
/// reserved TLD are refused after it; nothing is installed or executed without
/// consent; a failed attempt to only bring the stack up goes
/// on with the whole wizard.
pub open spec fn wizard_after(
    request: WizardRequest,
    step: WizardStep,
    event: WizardEvent,
) -> WizardStep {
    match step {
        WizardStep::Detect => if event is Failed {
            WizardStep::Fail
        } else if request.dry_run {
            WizardStep::Stop
        } else if event == WizardEvent::Answer(true) || request.reserved_tld {
            WizardStep::Refuse
        } else {
            WizardStep::LoadConfig
        },
        WizardStep::Refuse => WizardStep::Fail,
        WizardStep::LoadConfig => if event is Failed {
            WizardStep::Fail
        } else if request.yes {
            WizardStep::PrintPlan
        } else {
            WizardStep::CheckInitialised
        },
        WizardStep::CheckInitialised => if event == WizardEvent::Answer(true) {
            WizardStep::AskBringUp
        } else {
            WizardStep::PrintPlan
        },
        WizardStep::AskBringUp => match event {
            WizardEvent::Answer(true) => WizardStep::BringUp,
            WizardEvent::Answer(false) => WizardStep::Stop,
            _ => WizardStep::PrintPlan,
        },
        WizardStep::BringUp => if event is Failed {
            WizardStep::PrintPlan
        } else {
            WizardStep::Summarise
        },
        WizardStep::PrintPlan => if request.yes {
            WizardStep::InstallPackages
        } else {
            WizardStep::AskProceed
        },
        WizardStep::AskProceed => match event {
            WizardEvent::Answer(true) => WizardStep::InstallPackages,
            WizardEvent::Answer(false) => WizardStep::Abort,
            _ => WizardStep::Fail,
        },
        WizardStep::Abort => WizardStep::Stop,
        WizardStep::InstallPackages => if event is Failed {
            WizardStep::Fail
        } else {
            WizardStep::PrimeSudo
        },
        WizardStep::PrimeSudo => if event is Failed {
            WizardStep::Fail
        } else {
            WizardStep::Execute
        },
        WizardStep::Execute => if event is Failed {
            WizardStep::Fail
        } else {
            WizardStep::Summarise
        },
        WizardStep::Summarise => WizardStep::Stop,
        WizardStep::Stop => WizardStep::Stop,
        WizardStep::Fail => WizardStep::Fail,
    }
}

/// The step that follows.
pub fn wizard_next(request: WizardRequest, step: WizardStep, event: WizardEvent) -> (r: WizardStep)
    ensures
        r == wizard_after(request, step, event),
{
    let failed = event == WizardEvent::Failed;
    let confirmed = event == WizardEvent::Answer(true);
    let declined = event == WizardEvent::Answer(false);
    match step {
        WizardStep::Detect => if failed {
            WizardStep::Fail
        } else if request.dry_run {
            WizardStep::Stop
        } else if confirmed || request.reserved_tld {
            WizardStep::Refuse
        } else {
            WizardStep::LoadConfig
        },
        WizardStep::LoadConfig => if failed {
            WizardStep::Fail
        } else if request.yes {
            WizardStep::PrintPlan
        } else {
            WizardStep::CheckInitialised
        },
        WizardStep::CheckInitialised => if confirmed {
            WizardStep::AskBringUp
        } else {
            WizardStep::PrintPlan
        },
        WizardStep::AskBringUp => if confirmed {
            WizardStep::BringUp
        } else if declined {
            WizardStep::Stop
        } else {
            WizardStep::PrintPlan
        },
        WizardStep::BringUp => if failed {
            WizardStep::PrintPlan
        } else {
            WizardStep::Summarise
        },
        WizardStep::PrintPlan => if request.yes {
            WizardStep::InstallPackages
        } else {
            WizardStep::AskProceed
        },
        WizardStep::AskProceed => if confirmed {
            WizardStep::InstallPackages
        } else if declined {
            WizardStep::Abort
        } else {
            WizardStep::Fail
        },
        WizardStep::InstallPackages => if failed {
            WizardStep::Fail
        } else {
            WizardStep::PrimeSudo
        },
        WizardStep::PrimeSudo => if failed {
            WizardStep::Fail
        } else {
            WizardStep::Execute
        },
        WizardStep::Execute => if failed {
            WizardStep::Fail
        } else {
            WizardStep::Summarise
        },
        WizardStep::Abort | WizardStep::Summarise | WizardStep::Stop => WizardStep::Stop,
        WizardStep::Refuse | WizardStep::Fail => WizardStep::Fail,
    }
}

/// The steps that events lead to, from detection on.
pub open spec fn wizard_run(request: WizardRequest, events: Seq<WizardEvent>) -> WizardStep
    decreases events.len(),
{
    if events.len() == 0 {
        WizardStep::Detect
    } else {
        wizard_after(request, wizard_run(request, events.drop_last()), events.last())
    }
}

/// Does this step change the host?
pub open spec fn changes_host(step: WizardStep) -> bool {
    step is LoadConfig || step is BringUp || step is InstallPackages || step is PrimeSudo
        || step is Execute
}

/// A dry run never reaches a step that changes the host.
pub proof fn law_dry_run_changes_nothing(request: WizardRequest, events: Seq<WizardEvent>)
    requires
        request.dry_run,
    ensures
        !changes_host(wizard_run(request, events)),
        events.len() > 0 ==> wizard_run(request, events) is Stop || wizard_run(
            request,
            events,
        ) is Fail,
    decreases events.len(),
{
    if events.len() > 0 {
        law_dry_run_changes_nothing(request, events.drop_last());
    }
}

/// Without `--yes`, nothing is installed, asked of sudo or executed unless the
/// user has agreed to the plan.
pub proof fn law_nothing_without_consent(request: WizardRequest, events: Seq<WizardEvent>)
    requires
        !request.yes,
        wizard_run(request, events) is InstallPackages || wizard_run(request, events) is PrimeSudo
            || wizard_run(request, events) is Execute,
    ensures
        exists|k: int|
            #![trigger events[k]]
            0 <= k < events.len() && wizard_run(request, events.take(k)) is AskProceed
                && events[k] == WizardEvent::Answer(true),
    decreases events.len(),
{
    let n = events.len() - 1;
    let before = events.drop_last();
    assert(before =~= events.take(n));
    if !(wizard_run(request, events) is InstallPackages) {
        law_nothing_without_consent(request, before);
        let k = choose|k: int|
            #![trigger before[k]]
            0 <= k < before.len() && wizard_run(request, before.take(k)) is AskProceed && before[k]
                == WizardEvent::Answer(true);
        assert(before.take(k) =~= events.take(k));
        assert(events[k] == before[k]);
    } else {
        assert(events[n] == events.last());
    }
}

/// Blockers stop the wizard before anything is changed.
pub proof fn law_blockers_stop_the_wizard(request: WizardRequest, events: Seq<WizardEvent>)
    requires
        events.len() > 0,
        events[0] == WizardEvent::Answer(true),
    ensures
        !changes_host(wizard_run(request, events)),
        wizard_run(request, events) is Refuse || wizard_run(request, events) is Fail || wizard_run(
            request,
            events,
        ) is Stop,
    decreases events.len(),
{
    if events.len() == 1 {
        assert(events.drop_last() =~= Seq::<WizardEvent>::empty());
        assert(wizard_run(request, events.drop_last()) is Detect);
        assert(events.last() == events[0]);
    } else {
        assert(events.drop_last()[0] == events[0]);
        law_blockers_stop_the_wizard(request, events.drop_last());
    }
}

/// A reserved TLD is refused even if the user asks for it: no step that changes
/// the host is reached, and only a dry run ends well.
pub proof fn law_reserved_tld_is_refused(
    dry_run: bool,
    yes: bool,
    tld: Seq<char>,
    events: Seq<WizardEvent>,
)
    requires
        reserved(tld),
    ensures
        !changes_host(wizard_run(request_of(dry_run, yes, Some(tld)), events)),
        events.len() > 0 ==> (match wizard_run(request_of(dry_run, yes, Some(tld)), events) {
            WizardStep::Refuse => !dry_run,
            WizardStep::Stop => dry_run,
            WizardStep::Fail => true,
            _ => false,
        }),
    decreases events.len(),
{
    if events.len() > 0 {
        law_reserved_tld_is_refused(dry_run, yes, tld, events.drop_last());
    }
}

/// The wizard never changes the host for a reserved TLD, however the TLD was
/// chosen.
pub proof fn law_wizard_never_uses_a_reserved_tld(
    dry_run: bool,
    yes: bool,
    tld: Option<Seq<char>>,
    valet_present: bool,
    herd_present: bool,
    events: Seq<WizardEvent>,
)
    requires
        reserved(decision(tld, valet_present, herd_present).value),
    ensures
        !changes_host(wizard_run(request_of(dry_run, yes, tld), events)),
{
    match tld {
        Some(t) => {
            law_clean_settles(t);
            law_reserved_ignores_dots_and_case(
                decision(tld, valet_present, herd_present).value,
                t,
            );
            law_reserved_tld_is_refused(dry_run, yes, t, events);
        },
        None => {
            law_own_tlds_are_not_reserved(valet_present, herd_present);
        },
    }
}

/// The message for a TLD that henk refuses to use.
pub open spec fn reserved_text(tld: Seq<char>) -> Seq<char> {
    "`."@ + tld + "` is reserved; henk refuses to use it. Pick another one with `--tld`."@
}

/// Why the wizard refuses to go on with the TLD `tld`.
pub fn refusal(request: WizardRequest, tld: &str) -> (r: String)
    ensures
        r@ == (if request.reserved_tld {
            reserved_text(tld@)
        } else {
            BLOCKED@
        }),
{
    if request.reserved_tld {
        "`.".to_owned().concat(tld).concat(
            "` is reserved; henk refuses to use it. Pick another one with `--tld`.",
        )
    } else {
        BLOCKED.to_owned()
    }
}

/// The message for blockers.
pub const BLOCKED: &'static str =
    "Detection found blockers (see above). Resolve them and re-run `henk init`.";

/// Is this row a Homebrew package that is missing?
pub open spec fn is_missing_package(i: ItemView) -> bool {
    i.status == Status::Warn && (i.name == "mkcert"@ || i.name == "nss"@ || i.name == "dnsmasq"@)
}

/// The Homebrew packages that are missing, in the order of the report.
pub open spec fn missing_packages(items: Seq<ItemView>) -> Seq<Seq<char>>
    decreases items.len(),
{
    if items.len() == 0 {
        seq![]
    } else {
        let before = missing_packages(items.drop_last());
        if is_missing_package(items.last()) {
            before.push(items.last().name)
        } else {
            before
        }
    }
}

/// The Homebrew packages that are missing.
pub fn missing_brew_pkgs(report: &DetectionReport) -> (r: Vec<String>)
    ensures
        texts(r@) == missing_packages(item_views(report.items@)),
{
    let ghost all = item_views(report.items@);
    let mut out: Vec<String> = Vec::new();
    let mut i: usize = 0;
    assert(texts(out@) =~= missing_packages(all.take(0)));
    while i < report.items.len()
        invariant
            i <= report.items@.len(),
            all == item_views(report.items@),
            texts(out@) == missing_packages(all.take(i as int)),
        decreases report.items@.len() - i,
    {
        assert(all.take(i + 1).drop_last() =~= all.take(i as int));
        assert(all.take(i + 1).last() == report.items@[i as int]@);
        let ghost before = texts(out@);
        let it = &report.items[i];
        if it.status == Status::Warn && (eq(it.name, "mkcert") || eq(it.name, "nss") || eq(
            it.name,
            "dnsmasq",
        )) {
            out.push(it.name.to_owned());
            assert(texts(out@) =~= before.push(it.name@));
        }
        i += 1;
    }
    assert(all.take(i as int) =~= all);
    out
}

/// A line of the plan.
pub open spec fn plan_line(text: Seq<char>) -> Seq<char> {
    "  "@ + gray_of("○"@) + " "@ + text + "\n"@
}

/// Why the TLD was chosen.
pub open spec fn reason_text(reason: TldReason) -> Seq<char> {
    match reason {
        TldReason::Default => "default — RFC 6761 reserved"@,
        TldReason::ValetHerdFallback => "Valet/Herd already owns `.test`"@,
        TldReason::UserOverride => "--tld override"@,
    }
}

/// The plan: every action of the setup, privileged ones flagged.
pub open spec fn plan_text(items: Seq<ItemView>, reason: TldReason, cfg: ConfigView) -> Seq<char> {
    let missing = missing_packages(items);
    section_text("Plan"@) + "\n"@ + (if missing.len() > 0 {
        plan_line("install Homebrew packages: "@ + join_of(missing, ", "@))
    } else {
        seq![]
    }) + plan_line("install mkcert local CA in your system keychain"@) + plan_line(
        "issue wildcard cert for *."@ + cfg.tld + " (and "@ + cfg.tld + ")"@,
    ) + plan_line("write Homebrew dnsmasq drop-in for ."@ + cfg.tld) + plan_line(
        yellow_of("[sudo]"@) + " restart dnsmasq via launchd (binds privileged :53)"@,
    ) + plan_line(
        yellow_of("[sudo]"@) + " write /etc/resolver/"@ + cfg.tld + " so *."@ + cfg.tld
            + " resolves locally"@,
    ) + plan_line("render the global Traefik stack to ~/.config/henk/traefik/"@) + plan_line(
        "`docker compose up -d` for the global stack"@,
    ) + "\n  TLD: ."@ + cfg.tld + "  ("@ + reason_text(reason) + ")\n\n  "@ + gray_of("i"@)
        + " every step is reversible via `henk uninstall` (M7).\n\n"@
}

/// Writes a line of the plan.
fn line(text: &str) -> (r: String)
    ensures
        r@ == plan_line(text@),
{
    "  ".to_owned().concat(gray("○").as_str()).concat(" ").concat(text).concat("\n")
}

/// The plan, as it is printed.
pub fn print_plan(report: &DetectionReport, cfg: &Config) -> (r: String)
    ensures
        r@ == plan_text(item_views(report.items@), report.tld@.reason, cfg@),
{
    let missing = missing_brew_pkgs(report);
    let ghost names = texts(missing@);
    assert(names.len() == missing@.len());
    let tld = cfg.tld.as_str();
    let install = if missing.len() > 0 {
        line("install Homebrew packages: ".to_owned().concat(join(&missing, ", ").as_str()).as_str())
    } else {
        let none = String::new();
        assert(none@ =~= Seq::<char>::empty());
        none
    };
    let sudo = yellow("[sudo]");
    let reason = match report.tld.reason() {
        TldReason::Default => "default — RFC 6761 reserved",
        TldReason::ValetHerdFallback => "Valet/Herd already owns `.test`",
        TldReason::UserOverride => "--tld override",
    };
    let cert = line(
        "issue wildcard cert for *.".to_owned().concat(tld).concat(" (and ").concat(tld).concat(
            ")",
        ).as_str(),
    );
    let drop_in = line("write Homebrew dnsmasq drop-in for .".to_owned().concat(tld).as_str());
    let restart = line(
        sudo.clone().concat(" restart dnsmasq via launchd (binds privileged :53)").as_str(),
    );
    let resolver = line(
        sudo.concat(" write /etc/resolver/").concat(tld).concat(" so *.").concat(tld).concat(
            " resolves locally",
        ).as_str(),
    );
    print_section("Plan").concat("\n").concat(install.as_str()).concat(
        line("install mkcert local CA in your system keychain").as_str(),
    ).concat(cert.as_str()).concat(drop_in.as_str()).concat(restart.as_str()).concat(
        resolver.as_str(),
    ).concat(line("render the global Traefik stack to ~/.config/henk/traefik/").as_str()).concat(
        line("`docker compose up -d` for the global stack").as_str(),
    ).concat("\n  TLD: .").concat(tld).concat("  (").concat(reason).concat(")\n\n  ").concat(
        gray("i").as_str(),
    ).concat(" every step is reversible via `henk uninstall` (M7).\n\n")
}

/// What sudo is needed for.
pub open spec fn sudo_text(tld: Seq<char>) -> Seq<char> {
    "\n  henk needs sudo for two things:\n    1. "@ + italic_of("brew services"@)
        + ": dnsmasq launchd plist binds :53 (privileged port).\n    2. "@ + italic_of(
        "/etc/resolver"@,
    ) + ": write /etc/resolver/"@ + tld + " so macOS routes `*."@ + tld
        + "` queries.\n  No other privileged operations happen during init.\n\n"@
}

/// What sudo is needed for, as it is printed.
pub fn explain_sudo_usage(cfg: &Config) -> (r: String)
    ensures
        r@ == sudo_text(cfg@.tld),
{
    let tld = cfg.tld.as_str();
    "\n  henk needs sudo for two things:\n    1. ".to_owned().concat(
        italic("brew services").as_str(),
    ).concat(": dnsmasq launchd plist binds :53 (privileged port).\n    2. ").concat(
        italic("/etc/resolver").as_str(),
    ).concat(": write /etc/resolver/").concat(tld).concat(" so macOS routes `*.").concat(
        tld,
    ).concat("` queries.\n  No other privileged operations happen during init.\n\n")
}

/// The question before a package is installed.
pub fn install_question(pkg: &str) -> (r: String)
    ensures
        r@ == "Install `"@ + pkg@ + "` via Homebrew now?"@,
{
    "Install `".to_owned().concat(pkg).concat("` via Homebrew now?")
}

/// What follows the question: without consent the setup is aborted.
pub fn install_consent(pkg: &str, auto_yes: bool, consent: bool) -> (r: Result<(), String>)
    ensures
        r is Ok <==> auto_yes || consent,
        r matches Err(e) ==> e@ == "`"@ + pkg@ + "` is required; aborting."@,
{
    if auto_yes || consent {
        Ok(())
    } else {
        Err("`".to_owned().concat(pkg).concat("` is required; aborting."))
    }
}

/// Judges `sudo -v`: its exit code, or `None` when it could not be run.
pub fn prime_sudo(exit: Option<i32>) -> (r: Result<(), String>)
    ensures
        step_view(r) == (match exit {
            None => Err("running `sudo -v`"@),
            Some(code) => if code == 0 {
                Ok(())
            } else {
                Err(
                    "could not prime sudo credentials (exit "@ + decimal_int(code as int)
                        + "). Aborting."@,
                )
            },
        }),
{
    match exit {
        None => Err("running `sudo -v`".to_owned()),
        Some(code) => if code == 0 {
            Ok(())
        } else {
            Err(
                "could not prime sudo credentials (exit ".to_owned().concat(
                    decimal_i32(code).as_str(),
                ).concat("). Aborting."),
            )
        },
    }
}

/// The dnsmasq drop-in under the prefix that `brew --prefix` printed.
pub fn brew_dnsmasq_dropin_path(reply: &Reply, tld: &str) -> (r: Option<String>)
    ensures
        opt_text(r) == (if reply.succeeded() {
            Some(config_path_of(trim_of(reply.out()), tld@))
        } else {
            None
        }),
{
    match reply {
        Reply::Output(out) => if out.ok() {
            Some(config_path(trim(out.stdout.as_str()).as_str(), tld))
        } else {
            None
        },
        Reply::Unavailable => None,
    }
}

/// Everything is in place when the certificate, the resolver file and the
/// drop-in exist; `henk init` then only offers to bring the stack up.
pub fn already_initialized(cert: bool, resolver: bool, drop_in: bool) -> (r: bool)
    ensures
        r == (cert && resolver && drop_in),
{
    cert && resolver && drop_in
}

/// What is printed when everything is in place.
pub open spec fn initialized_text(
    cert: Seq<char>,
    resolver: Seq<char>,
    drop_in: Seq<char>,
) -> Seq<char> {
    section_text("Already initialised"@) + "  "@ + green_of("✓"@) + "  cert         "@ + cert
        + "\n  "@ + green_of("✓"@) + "  resolver     "@ + resolver + "\n  "@ + green_of("✓"@)
        + "  dnsmasq      "@ + drop_in
        + "\n\n  Re-running init would only re-render templates and bring the stack up.\n  Tip: `henk up` brings the stack up; `henk doctor --repair` (M7) fixes drift.\n"@
}

/// What is printed when everything is in place.
pub fn print_already_initialized(cert: &str, resolver: &str, drop_in: &str) -> (r: String)
    ensures
        r@ == initialized_text(cert@, resolver@, drop_in@),
{
    let ok = green("✓");
    print_section("Already initialised").concat("  ").concat(ok.as_str()).concat(
        "  cert         ",
    ).concat(cert).concat("\n  ").concat(ok.as_str()).concat("  resolver     ").concat(
        resolver,
    ).concat("\n  ").concat(ok.as_str()).concat("  dnsmasq      ").concat(drop_in).concat(
        "\n\n  Re-running init would only re-render templates and bring the stack up.\n  Tip: `henk up` brings the stack up; `henk doctor --repair` (M7) fixes drift.\n",
    )
}

/// What is printed at the end.
pub open spec fn completion_text(cfg: ConfigView) -> Seq<char> {
    section_text("Done"@) + "\n  "@ + bold_of(green_of("✓"@))
        + "  henk is up.\n\n  Dashboard:  https://traefik."@ + cfg.tld
        + "\n              http://localhost:"@ + decimal(cfg.ports.dashboard as nat)
        + "\n\n  Next:  cd into a project and run `henk link`.\n\n"@
}

/// What is printed at the end.
pub fn print_completion_summary(cfg: &Config) -> (r: String)
    ensures
        r@ == completion_text(cfg@),
{
    print_section("Done").concat("\n  ").concat(bold(green("✓").as_str()).as_str()).concat(
        "  henk is up.\n\n  Dashboard:  https://traefik.",
    ).concat(cfg.tld.as_str()).concat("\n              http://localhost:").concat(
        decimal_u16(cfg.ports.dashboard).as_str(),
    ).concat("\n\n  Next:  cd into a project and run `henk link`.\n\n")
}

/// A package is missing exactly when a row of the report warns about mkcert, nss
/// or dnsmasq.
pub proof fn law_missing_packages(items: Seq<ItemView>, name: Seq<char>)
    ensures
        missing_packages(items).contains(name) <==> (name == "mkcert"@ || name == "nss"@ || name
            == "dnsmasq"@) && exists|i: int|
            0 <= i < items.len() && (#[trigger] items[i]).name == name && items[i].status
                == Status::Warn,
    decreases items.len(),
{
    if items.len() > 0 {
        let rest = items.drop_last();
        let was = missing_packages(rest);
        let now = missing_packages(items);
        let n = items.len() - 1;
        law_missing_packages(rest, name);
        if was.contains(name) {
            let k = choose|k: int| 0 <= k < was.len() && was[k] == name;
            assert(now[k] == name);
            let i = choose|i: int|
                0 <= i < rest.len() && (#[trigger] rest[i]).name == name && rest[i].status
                    == Status::Warn;
            assert(items[i] == rest[i]);
        }
        if now.contains(name) && !was.contains(name) {
            let k = choose|k: int| 0 <= k < now.len() && now[k] == name;
            if k < was.len() {
                assert(was[k] == name);
            }
            assert(items[n].name == name);
        }
        if (name == "mkcert"@ || name == "nss"@ || name == "dnsmasq"@) && (exists|i: int|
            0 <= i < items.len() && (#[trigger] items[i]).name == name && items[i].status
                == Status::Warn) {
            let i = choose|i: int|
                0 <= i < items.len() && (#[trigger] items[i]).name == name && items[i].status
                    == Status::Warn;
            if i < n {
                assert(rest[i] == items[i]);
            } else {
                assert(now[now.len() - 1] == name);
            }
        }
    }
}

/// Of a report on the host, a package is offered for installation exactly when
/// neither a program of its name nor Homebrew's list has it.
pub proof fn law_absent_packages_are_offered(facts: HostFacts, tld: Seq<char>)
    ensures
        ({
            let names = missing_packages(suite(facts, tld));
            &&& names.contains("mkcert"@) <==> !facts.mkcert.in_path && !facts.mkcert.in_brew
            &&& names.contains("nss"@) <==> !facts.nss.in_path && !facts.nss.in_brew
            &&& names.contains("dnsmasq"@) <==> !facts.dnsmasq.in_path && !facts.dnsmasq.in_brew
        }),
{
    let all = suite(facts, tld);
    law_missing_packages(all, "mkcert"@);
    law_missing_packages(all, "nss"@);
    law_missing_packages(all, "dnsmasq"@);
    assert(all.len() == 14);
    assert(all[2] == package_of("mkcert"@, facts.mkcert));
    assert(all[3] == package_of("nss"@, facts.nss));
    assert(all[4] == package_of("dnsmasq"@, facts.dnsmasq));
    assert forall|i: int| 0 <= i < all.len() && i != 2 implies (#[trigger] all[i]).name
        != "mkcert"@ by {
        lemma_row_names(facts, tld, i);
    }
    assert forall|i: int| 0 <= i < all.len() && i != 3 implies (#[trigger] all[i]).name
        != "nss"@ by {
        lemma_row_names(facts, tld, i);
    }
    assert forall|i: int| 0 <= i < all.len() && i != 4 implies (#[trigger] all[i]).name
        != "dnsmasq"@ by {
        lemma_row_names(facts, tld, i);
    }
}

/// The names of the rows of a report.
proof fn lemma_row_names(facts: HostFacts, tld: Seq<char>, i: int)
    requires
        0 <= i < 14,
    ensures
        i != 2 ==> suite(facts, tld)[i].name != "mkcert"@,
        i != 3 ==> suite(facts, tld)[i].name != "nss"@,
        i != 4 ==> suite(facts, tld)[i].name != "dnsmasq"@,
{
    let all = suite(facts, tld);
    reveal_strlit("mkcert");
    reveal_strlit("nss");
    reveal_strlit("dnsmasq");
    reveal_strlit("Docker");
    reveal_strlit("Homebrew");
    reveal_strlit("Laravel Valet");
    reveal_strlit("Laravel Herd");
    reveal_strlit("DDEV");
    reveal_strlit("Lando");
    reveal_strlit("/etc/resolver/<tld>");
    reveal_strlit("host TCP :80");
    reveal_strlit("host TCP :443");
    reveal_strlit("henk-proxy network");
    reveal_strlit("foreign Traefik");
    assert("mkcert"@[0] == 'm' && "nss"@[0] == 'n' && "dnsmasq"@[0] == 'd');
    let c = all[i].name[0];
    assert(i == 0 ==> c == 'D');
    assert(i == 1 ==> c == 'H');
    assert(i == 5 ==> c == 'L');
    assert(i == 6 ==> c == 'L');
    assert(i == 7 ==> c == 'D');
    assert(i == 8 ==> c == 'L');
    assert(i == 9 ==> c == '/');
    assert(i == 10 ==> c == 'h');
    assert(i == 11 ==> c == 'h');
    assert(i == 12 ==> c == 'h');
    assert(i == 13 ==> c == 'f');
}

/// Without blockers and with `--yes`, a wizard whose steps all work goes straight
/// through: config, plan, packages, sudo, execution, summary.
pub proof fn law_wizard_goes_through(request: WizardRequest, event: WizardEvent)
    requires
        !request.dry_run,
        !request.reserved_tld,
        request.yes,
        !(event is Failed),
    ensures
        wizard_after(request, WizardStep::Detect, WizardEvent::Answer(false))
            == WizardStep::LoadConfig,
        wizard_after(request, WizardStep::LoadConfig, event) == WizardStep::PrintPlan,
        wizard_after(request, WizardStep::PrintPlan, event) == WizardStep::InstallPackages,
        wizard_after(request, WizardStep::InstallPackages, event) == WizardStep::PrimeSudo,
        wizard_after(request, WizardStep::PrimeSudo, event) == WizardStep::Execute,
        wizard_after(request, WizardStep::Execute, event) == WizardStep::Summarise,
        wizard_after(request, WizardStep::Summarise, event) == WizardStep::Stop,
{
}

/// Without `--yes` the user is asked before anything is set up: agreeing goes on
/// with the packages, declining aborts and stops. Where everything is in place
/// already, only bringing the stack up is offered; that goes on with the whole
/// wizard when it fails.
pub proof fn law_wizard_asks(request: WizardRequest, event: WizardEvent)
    requires
        !request.yes,
    ensures
        wizard_after(request, WizardStep::PrintPlan, event) == WizardStep::AskProceed,
        wizard_after(request, WizardStep::AskProceed, WizardEvent::Answer(true))
            == WizardStep::InstallPackages,
        wizard_after(request, WizardStep::AskProceed, WizardEvent::Answer(false))
            == WizardStep::Abort,
        wizard_after(request, WizardStep::Abort, event) == WizardStep::Stop,
        !(event is Failed) ==> wizard_after(request, WizardStep::LoadConfig, event)
            == WizardStep::CheckInitialised,
        wizard_after(request, WizardStep::CheckInitialised, WizardEvent::Answer(true))
            == WizardStep::AskBringUp,
        wizard_after(request, WizardStep::CheckInitialised, WizardEvent::Answer(false))
            == WizardStep::PrintPlan,
        wizard_after(request, WizardStep::AskBringUp, WizardEvent::Answer(true))
            == WizardStep::BringUp,
        wizard_after(request, WizardStep::AskBringUp, WizardEvent::Answer(false))
            == WizardStep::Stop,
        wizard_after(request, WizardStep::BringUp, WizardEvent::Failed) == WizardStep::PrintPlan,
        wizard_after(request, WizardStep::BringUp, WizardEvent::Passed) == WizardStep::Summarise,
{
}

/// A step of the setup that fails ends the wizard with a failure, and a wizard
/// that has ended stays there.
pub proof fn law_failures_end_the_wizard(
    request: WizardRequest,
    step: WizardStep,
    event: WizardEvent,
)
    ensures
        step is Detect || step is LoadConfig || step is InstallPackages || step is PrimeSudo
            || step is Execute ==> wizard_after(request, step, WizardEvent::Failed)
            == WizardStep::Fail,
        wizard_after(request, WizardStep::Stop, event) == WizardStep::Stop,
        wizard_after(request, WizardStep::Fail, event) == WizardStep::Fail,
        wizard_after(request, WizardStep::Refuse, event) == WizardStep::Fail,
{
}

/// The plan names the TLD's certificate, drop-in and resolver file, and every
/// package that is missing.
pub proof fn law_plan_names_the_tld(items: Seq<ItemView>, reason: TldReason, cfg: ConfigView)
    ensures
        contains(
            plan_text(items, reason, cfg),
            "issue wildcard cert for *."@ + cfg.tld + " (and "@ + cfg.tld + ")"@,
        ),
        contains(
            plan_text(items, reason, cfg),
            "write Homebrew dnsmasq drop-in for ."@ + cfg.tld,
        ),
        missing_packages(items).len() > 0 ==> contains(
            plan_text(items, reason, cfg),
            "install Homebrew packages: "@ + join_of(missing_packages(items), ", "@),
        ),
{
    let missing = missing_packages(items);
    let pkgs = "install Homebrew packages: "@ + join_of(missing, ", "@);
    let cert = "issue wildcard cert for *."@ + cfg.tld + " (and "@ + cfg.tld + ")"@;
    let drop_in = "write Homebrew dnsmasq drop-in for ."@ + cfg.tld;
    lemma_plan_line(pkgs);
    lemma_plan_line(cert);
    lemma_plan_line(drop_in);
    lemma_plan_holds(items, reason, cfg, cert);
    lemma_plan_holds(items, reason, cfg, drop_in);
    if missing.len() > 0 {
        lemma_plan_holds(items, reason, cfg, pkgs);
    }
}

/// The plan holds what one of its first lines holds.
proof fn lemma_plan_holds(
    items: Seq<ItemView>,
    reason: TldReason,
    cfg: ConfigView,
    pat: Seq<char>,
)
    requires
        ({
            let missing = missing_packages(items);
            ||| missing.len() > 0 && contains(
                plan_line("install Homebrew packages: "@ + join_of(missing, ", "@)),
                pat,
            )
            ||| contains(
                plan_line("issue wildcard cert for *."@ + cfg.tld + " (and "@ + cfg.tld + ")"@),
                pat,
            )
            ||| contains(plan_line("write Homebrew dnsmasq drop-in for ."@ + cfg.tld), pat)
        }),
    ensures
        contains(plan_text(items, reason, cfg), pat),
{
    let missing = missing_packages(items);
    let none = Seq::<char>::empty();
    let l1 = if missing.len() > 0 {
        plan_line("install Homebrew packages: "@ + join_of(missing, ", "@))
    } else {
        none
    };
    let l2 = plan_line("install mkcert local CA in your system keychain"@);
    let l3 = plan_line("issue wildcard cert for *."@ + cfg.tld + " (and "@ + cfg.tld + ")"@);
    let l4 = plan_line("write Homebrew dnsmasq drop-in for ."@ + cfg.tld);
    let l5 = plan_line(
        yellow_of("[sudo]"@) + " restart dnsmasq via launchd (binds privileged :53)"@,
    );
    let l6 = plan_line(
        yellow_of("[sudo]"@) + " write /etc/resolver/"@ + cfg.tld + " so *."@ + cfg.tld
            + " resolves locally"@,
    );
    let l7 = plan_line("render the global Traefik stack to ~/.config/henk/traefik/"@);
    let l8 = plan_line("`docker compose up -d` for the global stack"@);
    let p0 = section_text("Plan"@) + "\n"@;
    let p1 = p0 + l1;
    let p2 = p1 + l2;
    let p3 = p2 + l3;
    let p4 = p3 + l4;
    let p5 = p4 + l5;
    let p6 = p5 + l6;
    let p7 = p6 + l7;
    let p8 = p7 + l8;
    let p9 = p8 + "\n  TLD: ."@;
    let p10 = p9 + cfg.tld;
    let p11 = p10 + "  ("@;
    let p12 = p11 + reason_text(reason);
    let p13 = p12 + ")\n\n  "@;
    let p14 = p13 + gray_of("i"@);
    let end = " every step is reversible via `henk uninstall` (M7).\n\n"@;
    assert(plan_text(items, reason, cfg) == p14 + end);
    if contains(l1, pat) {
        lemma_contains_either(p0, l1, pat);
        lemma_contains_either(p1, l2, pat);
    }
    if contains(l1, pat) || contains(l3, pat) {
        lemma_contains_either(p2, l3, pat);
    }
    lemma_contains_either(p3, l4, pat);
    lemma_contains_either(p4, l5, pat);
    lemma_contains_either(p5, l6, pat);
    lemma_contains_either(p6, l7, pat);
    lemma_contains_either(p7, l8, pat);
    lemma_contains_either(p8, "\n  TLD: ."@, pat);
    lemma_contains_either(p9, cfg.tld, pat);
    lemma_contains_either(p10, "  ("@, pat);
    lemma_contains_either(p11, reason_text(reason), pat);
    lemma_contains_either(p12, ")\n\n  "@, pat);
    lemma_contains_either(p13, gray_of("i"@), pat);
    lemma_contains_either(p14, end, pat);
}

/// A line of the plan holds its text.
proof fn lemma_plan_line(text: Seq<char>)
    ensures
        contains(plan_line(text), text),
{
    lemma_contains_itself(text);
    lemma_contains_inside("  "@ + gray_of("○"@) + " "@, text, "\n"@, text);
}

/// The closing words give both addresses of the dashboard, and the refusal of a
/// TLD names it.
pub proof fn law_words_name_the_tld(cfg: ConfigView, tld: Seq<char>)
    ensures
        contains(
            completion_text(cfg),
            "  henk is up.\n\n  Dashboard:  https://traefik."@ + cfg.tld,
        ),
        contains(
            completion_text(cfg),
            "\n              http://localhost:"@ + decimal(cfg.ports.dashboard as nat),
        ),
        begins(reserved_text(tld), "`."@ + tld),
{
    let p = decimal(cfg.ports.dashboard as nat);
    let head = section_text("Done"@) + "\n  "@ + bold_of(green_of("✓"@));
    let x = "  henk is up.\n\n  Dashboard:  https://traefik."@;
    let y = "\n              http://localhost:"@;
    let close = "\n\n  Next:  cd into a project and run `henk link`.\n\n"@;
    let t1 = head + x + cfg.tld;
    let t2 = t1 + y;
    let t3 = t2 + p;
    lemma_contains_pair(head, x, cfg.tld);
    lemma_contains_either(t1, y, x + cfg.tld);
    lemma_contains_either(t2, p, x + cfg.tld);
    lemma_contains_either(t3, close, x + cfg.tld);
    lemma_contains_pair(t1, y, p);
    lemma_contains_either(t3, close, y + p);
    let name = "`."@ + tld;
    assert(reserved_text(tld).subrange(0, name.len() as int) =~= name);
}

} // verus!
