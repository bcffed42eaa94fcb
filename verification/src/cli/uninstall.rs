//! `henk uninstall`: tiered reversal of what henk has done.
//!
//!   - default: stop the stack, remove its network and delete henk's own files.
//!   - `--keep-config`: stop the stack, delete nothing.
//!   - `--deep`: also `brew uninstall` the packages henk itself installed.
//!
//! A file without henk's header is never deleted, whatever `state.json` says, and
//! a network that is not henk's is left alone.

use vstd::prelude::*;
use vstd::string::*;

use crate::cli::doctor::{recorded_path, recorded_path_of};
use crate::consts::{HENK_FILE_HEADER, PROXY_NETWORK};
use crate::manifest::state::{henk_packages, StateManifest, StepView};
use crate::manifest::steps::{DNSMASQ_DROPIN, RESOLVER_FILE};
use crate::paint::{bold, bold_of, gray, gray_of, green, green_of, italic, italic_of};
use crate::project::env_file::FileState;
use crate::project::file_provider::lemma_contains_inside;
use crate::runner::{command, Invocation, InvocationView, Reply};
use crate::stack::lifecycle::{lists_network, network_listed, network_ours};
use crate::text::{
    begins, contains, decimal_i32, decimal_int, has_text, lemma_contains_either,
    lemma_contains_itself, opt_text, texts,
};

verus! {

/// A step of the reversal.
#[derive(Debug, Clone, Copy, PartialEq, Eq, Structural)]
pub enum UninstallStep {
    /// Say that nothing was changed.
    Abort,
    /// Stop the stack; a failure does not matter.
    StopStack,
    /// Remove the proxy network, if it is henk's.
    RemoveNetwork,
    /// Remove the resolver file, if it is henk's.
    RemoveResolver,
    /// Remove the dnsmasq drop-in, if it is henk's.
    RemoveDropIn,
    /// Remove `~/.config/henk/`.
    RemoveConfigDir,
    /// Remove `~/.local/share/henk/`.
    RemoveDataDir,
    /// Remove `state.json`.
    DeleteState,
    /// `brew uninstall` what henk installed.
    RemovePackages,
    /// Print the closing words.
    Farewell,
}

/// The steps of the reversal: none without consent; the network and the files go
/// unless the config is kept, packages only with `--deep`.
pub open spec fn uninstall_steps(consent: bool, deep: bool, keep_config: bool) -> Seq<
    UninstallStep,
> {
    if consent {
        reversal(deep, keep_config)
    } else {
        seq![UninstallStep::Abort]
    }
}

/// The steps of a reversal that the user agreed to.
pub open spec fn reversal(deep: bool, keep_config: bool) -> Seq<UninstallStep> {
    seq![UninstallStep::StopStack] + (if keep_config {
        seq![]
    } else {
        seq![
            UninstallStep::RemoveNetwork,
            UninstallStep::RemoveResolver,
            UninstallStep::RemoveDropIn,
            UninstallStep::RemoveConfigDir,
            UninstallStep::RemoveDataDir,
            UninstallStep::DeleteState,
        ]
    }) + (if deep {
        seq![UninstallStep::RemovePackages]
    } else {
        seq![]
    }) + seq![UninstallStep::Farewell]
}

/// The steps of the reversal.
pub fn plan(consent: bool, deep: bool, keep_config: bool) -> (r: Vec<UninstallStep>)
    ensures
        r@ == uninstall_steps(consent, deep, keep_config),
{
    let mut out: Vec<UninstallStep> = Vec::new();
    if !consent {
        out.push(UninstallStep::Abort);
        assert(out@ =~= seq![UninstallStep::Abort]);
        return out;
    }
    out.push(UninstallStep::StopStack);
    if !keep_config {
        out.push(UninstallStep::RemoveNetwork);
        out.push(UninstallStep::RemoveResolver);
        out.push(UninstallStep::RemoveDropIn);
        out.push(UninstallStep::RemoveConfigDir);
        out.push(UninstallStep::RemoveDataDir);
        out.push(UninstallStep::DeleteState);
    }
    if deep {
        out.push(UninstallStep::RemovePackages);
    }
    out.push(UninstallStep::Farewell);
    assert(out@ =~= reversal(deep, keep_config));
    out
}

/// Does this step remove something?
pub open spec fn removes(step: UninstallStep) -> bool {
    step is RemoveNetwork || step is RemoveResolver || step is RemoveDropIn
        || step is RemoveConfigDir || step is RemoveDataDir || step is DeleteState
        || step is RemovePackages
}

/// Nothing is stopped or removed without consent; without `--deep` no package is
/// removed, and with `--keep-config` no file and no network is.
pub proof fn law_uninstall_is_tiered(consent: bool, deep: bool, keep_config: bool, i: int)
    requires
        0 <= i < uninstall_steps(consent, deep, keep_config).len(),
    ensures
        !consent ==> uninstall_steps(consent, deep, keep_config)[i] is Abort,
        uninstall_steps(consent, deep, keep_config)[i] is RemovePackages ==> deep,
        keep_config && removes(uninstall_steps(consent, deep, keep_config)[i])
            ==> uninstall_steps(consent, deep, keep_config)[i] is RemovePackages,
{
    let s = reversal(deep, keep_config);
    if keep_config && deep {
        assert(s =~= seq![
            UninstallStep::StopStack,
            UninstallStep::RemovePackages,
            UninstallStep::Farewell,
        ]);
    } else if keep_config {
        assert(s =~= seq![UninstallStep::StopStack, UninstallStep::Farewell]);
    } else if !deep {
        assert(s =~= seq![
            UninstallStep::StopStack,
            UninstallStep::RemoveNetwork,
            UninstallStep::RemoveResolver,
            UninstallStep::RemoveDropIn,
            UninstallStep::RemoveConfigDir,
            UninstallStep::RemoveDataDir,
            UninstallStep::DeleteState,
            UninstallStep::Farewell,
        ]);
    }
}

/// A reversal that the user agreed to stops the stack first and, unless the
/// config is kept, removes the network, the resolver file, the drop-in and both
/// directories.
pub proof fn law_uninstall_is_complete(deep: bool)
    ensures
        uninstall_steps(true, deep, false)[0] is StopStack,
        uninstall_steps(true, deep, false).contains(UninstallStep::RemoveNetwork),
        uninstall_steps(true, deep, false).contains(UninstallStep::RemoveResolver),
        uninstall_steps(true, deep, false).contains(UninstallStep::RemoveDropIn),
        uninstall_steps(true, deep, false).contains(UninstallStep::RemoveConfigDir),
        uninstall_steps(true, deep, false).contains(UninstallStep::RemoveDataDir),
        deep ==> uninstall_steps(true, deep, false).contains(UninstallStep::RemovePackages),
{
    let s = uninstall_steps(true, deep, false);
    assert(s[1] is RemoveNetwork);
    assert(s[2] is RemoveResolver);
    assert(s[3] is RemoveDropIn);
    assert(s[4] is RemoveConfigDir);
    assert(s[5] is RemoveDataDir);
    if deep {
        assert(s[7] is RemovePackages);
    }
}

/// `docker network rm` for the proxy network.
pub open spec fn network_rm_query() -> InvocationView {
    command("docker"@, seq!["network"@, "rm"@, PROXY_NETWORK@])
}

/// The command that removes the proxy network; none when there is no such
/// network or it is not henk's. `listed` answers the query for the name, `owned`
/// the one for the name with henk's label; `set_up` says whether henk had set the
/// stack up before the reversal began.
pub fn remove_network(listed: &Reply, owned: &Reply, set_up: bool) -> (r: Option<Invocation>)
    ensures
        match r {
            Some(cmd) => network_listed(*listed) && network_ours(*owned, set_up) && cmd@
                == network_rm_query(),
            None => !network_listed(*listed) || !network_ours(*owned, set_up),
        },
{
    if lists_network(listed) && (set_up || lists_network(owned)) {
        Some(Invocation::new("docker").arg("network").arg("rm").arg(PROXY_NETWORK))
    } else {
        None
    }
}

/// Judges the removal of the proxy network: Docker keeps a network that a
/// container still uses, which is a notice and no error.
pub fn network_removed(reply: &Reply) -> (r: Option<String>)
    ensures
        opt_text(r) == (if reply.succeeded() {
            None
        } else {
            Some("    ! could not remove the `henk-proxy` network; skipping.\n"@)
        }),
{
    if reply.ok() {
        None
    } else {
        Some("    ! could not remove the `henk-proxy` network; skipping.\n".to_owned())
    }
}

/// The step records of a state that may be missing.
pub open spec fn known_steps(state: Option<StateManifest>) -> Map<Seq<char>, StepView> {
    match state {
        Some(s) => s@.steps,
        None => Map::empty(),
    }
}

/// The records can be looked up.
pub open spec fn state_wf(state: Option<StateManifest>) -> bool {
    state matches Some(s) ==> s.wf()
}

/// The path that a step recorded, when there is a state.
fn known_path(state: &Option<StateManifest>, name: &str) -> (r: Option<String>)
    requires
        state_wf(*state),
    ensures
        opt_text(r) == recorded_path_of(known_steps(*state), name@),
{
    match state {
        Some(s) => recorded_path(s, name),
        None => None,
    }
}

/// A line for a file that goes.
pub open spec fn delete_line(path: Option<Seq<char>>) -> Seq<char> {
    match path {
        Some(p) => "  · delete "@ + p + "\n"@,
        None => seq![],
    }
}

/// One line per package.
pub open spec fn package_lines(pkgs: Seq<Seq<char>>) -> Seq<char>
    decreases pkgs.len(),
{
    if pkgs.len() == 0 {
        seq![]
    } else {
        package_lines(pkgs.drop_last()) + "    · "@ + pkgs.last() + "\n"@
    }
}

/// The part of the plan on packages.
pub open spec fn packages_plan(pkgs: Seq<Seq<char>>) -> Seq<char> {
    "\n  Plus "@ + bold_of("brew uninstall"@) + " (state.json says we installed):\n"@ + (
    if pkgs.len() == 0 {
        "    (none — every brew package was already on the box)\n"@
    } else {
        package_lines(pkgs)
    })
}

/// What is about to happen.
pub open spec fn plan_text(state: Option<StateManifest>, deep: bool, keep_config: bool) -> Seq<
    char,
> {
    let steps = known_steps(state);
    "Will:\n  · stop the global Traefik stack\n"@ + (if !keep_config {
        "  · delete "@ + italic_of("~/.config/henk/"@) + " (henk-authored files only)\n"@
            + delete_line(recorded_path_of(steps, RESOLVER_FILE@)) + delete_line(
            recorded_path_of(steps, DNSMASQ_DROPIN@),
        ) + "  · delete state.json\n"@
    } else {
        "  · "@ + italic_of("preserve config + state"@) + " files (--keep-config)\n"@
    }) + (if deep {
        packages_plan(henk_packages(steps))
    } else {
        seq![]
    }) + "\n  Foreign files (resolvers, configs without our header) are "@ + bold_of("never"@)
        + " touched.\n\n"@
}

/// Nothing to print.
fn nothing() -> (r: String)
    ensures
        r@ == Seq::<char>::empty(),
{
    let none = String::new();
    assert(none@ =~= Seq::<char>::empty());
    none
}

/// Writes a line for a file that goes.
fn show_delete(path: &Option<String>) -> (r: String)
    ensures
        r@ == delete_line(opt_text(*path)),
{
    match path {
        Some(p) => "  · delete ".to_owned().concat(p.as_str()).concat("\n"),
        None => nothing(),
    }
}

/// The packages that henk installed, when there is a state.
fn known_packages(state: &Option<StateManifest>) -> (r: Vec<String>)
    requires
        state_wf(*state),
    ensures
        texts(r@) == henk_packages(known_steps(*state)),
{
    match state {
        Some(s) => s.brew_packages_we_installed(),
        None => {
            let none: Vec<String> = Vec::new();
            assert(texts(none@) =~= henk_packages(Map::empty()));
            none
        },
    }
}

/// Writes the part of the plan on packages.
fn show_packages(pkgs: &Vec<String>) -> (r: String)
    ensures
        r@ == packages_plan(texts(pkgs@)),
{
    let ghost all = texts(pkgs@);
    assert(all.len() == pkgs@.len());
    let mut list = String::new();
    let mut i: usize = 0;
    assert(list@ =~= package_lines(all.take(0)));
    while i < pkgs.len()
        invariant
            i <= pkgs@.len(),
            all == texts(pkgs@),
            list@ == package_lines(all.take(i as int)),
        decreases pkgs@.len() - i,
    {
        assert(all.take(i + 1).drop_last() =~= all.take(i as int));
        assert(all.take(i + 1).last() == pkgs@[i as int]@);
        list = list.concat("    · ").concat(pkgs[i].as_str()).concat("\n");
        i += 1;
    }
    assert(all.take(i as int) =~= all);
    let body = if pkgs.len() == 0 {
        "    (none — every brew package was already on the box)\n".to_owned()
    } else {
        list
    };
    "\n  Plus ".to_owned().concat(bold("brew uninstall").as_str()).concat(
        " (state.json says we installed):\n",
    ).concat(body.as_str())
}

/// What is about to happen, as it is printed.
pub fn print_plan(state: &Option<StateManifest>, deep: bool, keep_config: bool) -> (r: String)
    requires
        state_wf(*state),
    ensures
        r@ == plan_text(*state, deep, keep_config),
{
    let files = if !keep_config {
        "  · delete ".to_owned().concat(italic("~/.config/henk/").as_str()).concat(
            " (henk-authored files only)\n",
        ).concat(show_delete(&known_path(state, RESOLVER_FILE)).as_str()).concat(
            show_delete(&known_path(state, DNSMASQ_DROPIN)).as_str(),
        ).concat("  · delete state.json\n")
    } else {
        "  · ".to_owned().concat(italic("preserve config + state").as_str()).concat(
            " files (--keep-config)\n",
        )
    };
    let packages = if deep {
        show_packages(&known_packages(state))
    } else {
        nothing()
    };
    "Will:\n  · stop the global Traefik stack\n".to_owned().concat(files.as_str()).concat(
        packages.as_str(),
    ).concat("\n  Foreign files (resolvers, configs without our header) are ").concat(
        bold("never").as_str(),
    ).concat(" touched.\n\n")
}

/// What goes besides the files of the plan.
pub open spec fn also_text(keep_config: bool) -> Seq<char> {
    if keep_config {
        seq![]
    } else {
        "  Plus, where they exist: henk's Docker network `henk-proxy` and "@ + italic_of(
            "~/.local/share/henk/"@,
        ) + ".\n\n"@
    }
}

/// What goes besides the files of the plan, as it is printed below it.
pub fn print_also(keep_config: bool) -> (r: String)
    ensures
        r@ == also_text(keep_config),
{
    if keep_config {
        nothing()
    } else {
        "  Plus, where they exist: henk's Docker network `henk-proxy` and ".to_owned().concat(
            italic("~/.local/share/henk/").as_str(),
        ).concat(".\n\n")
    }
}

/// What becomes of a file.
#[derive(Debug, PartialEq, Eq)]
pub enum Removal {
    /// There is nothing to remove.
    Nothing,
    /// It is not henk's; the notice to print.
    LeaveAlone(String),
    /// Remove it.
    Remove(String),
}

/// The view of a [`Removal`].
pub enum RemovalView {
    Nothing,
    LeaveAlone(Seq<char>),
    Remove(Seq<char>),
}

impl View for Removal {
    type V = RemovalView;

    open spec fn view(&self) -> RemovalView {
        match self {
            Removal::Nothing => RemovalView::Nothing,
            Removal::LeaveAlone(n) => RemovalView::LeaveAlone(n@),
            Removal::Remove(p) => RemovalView::Remove(p@),
        }
    }
}

/// What becomes of a file: it is removed only when it carries henk's header.
pub open spec fn removal_of(path: Seq<char>, file: FileState) -> RemovalView {
    match file {
        FileState::Missing => RemovalView::Nothing,
        FileState::Text(body) => if contains(body@, HENK_FILE_HEADER@) {
            RemovalView::Remove(path)
        } else {
            RemovalView::LeaveAlone(alone_text(path))
        },
        FileState::Unreadable => RemovalView::LeaveAlone(alone_text(path)),
    }
}

/// The notice for a file that is left alone.
pub open spec fn alone_text(path: Seq<char>) -> Seq<char> {
    "  "@ + gray_of("○"@) + "  "@ + path + " — header check failed; leaving alone.\n"@
}

/// Decides what becomes of a file.
fn removal(path: String, file: &FileState) -> (r: Removal)
    ensures
        r@ == removal_of(path@, *file),
{
    let ours = match file {
        FileState::Missing => return Removal::Nothing,
        FileState::Text(body) => has_text(body.as_str(), HENK_FILE_HEADER),
        FileState::Unreadable => false,
    };
    if ours {
        Removal::Remove(path)
    } else {
        Removal::LeaveAlone(
            "  ".to_owned().concat(gray("○").as_str()).concat("  ").concat(path.as_str()).concat(
                " — header check failed; leaving alone.\n",
            ),
        )
    }
}

/// The resolver file to look at: the recorded one, otherwise the one of the
/// default TLD.
pub open spec fn resolver_target(steps: Map<Seq<char>, StepView>) -> Seq<char> {
    match recorded_path_of(steps, RESOLVER_FILE@) {
        Some(p) => p,
        None => "/etc/resolver/test"@,
    }
}

/// The resolver file to look at.
pub fn resolver_file(state: &Option<StateManifest>) -> (r: String)
    requires
        state_wf(*state),
    ensures
        r@ == resolver_target(known_steps(*state)),
{
    match known_path(state, RESOLVER_FILE) {
        Some(p) => p,
        None => "/etc/resolver/test".to_owned(),
    }
}

/// What becomes of the resolver file, given what is at [`resolver_file`].
pub fn remove_resolver_file(state: &Option<StateManifest>, file: &FileState) -> (r: Removal)
    requires
        state_wf(*state),
    ensures
        r@ == removal_of(resolver_target(known_steps(*state)), *file),
{
    removal(resolver_file(state), file)
}

/// `sudo rm -f`.
pub open spec fn sudo_rm_query(path: Seq<char>) -> InvocationView {
    command("sudo"@, seq!["rm"@, "-f"@, path])
}

/// The command that removes the resolver file.
pub fn sudo_rm_command(path: &str) -> (r: Invocation)
    ensures
        r@ == sudo_rm_query(path@),
{
    Invocation::new("sudo").arg("rm").arg("-f").arg(path)
}

/// Judges `sudo rm`: its exit code, or `None` when it could not be run.
pub fn resolver_removed(path: &str, exit: Option<i32>) -> (r: Result<(), String>)
    ensures
        crate::stack::certs::step_view(r) == (match exit {
            None => Err("running `sudo rm` on resolver file"@),
            Some(code) => if code == 0 {
                Ok(())
            } else {
                Err("`sudo rm "@ + path@ + "` failed (exit "@ + decimal_int(code as int) + ")"@)
            },
        }),
{
    match exit {
        None => Err("running `sudo rm` on resolver file".to_owned()),
        Some(code) => if code == 0 {
            Ok(())
        } else {
            Err(
                "`sudo rm ".to_owned().concat(path).concat("` failed (exit ").concat(
                    decimal_i32(code).as_str(),
                ).concat(")"),
            )
        },
    }
}

/// The drop-in to look at: the recorded one.
pub fn drop_in_file(state: &Option<StateManifest>) -> (r: Option<String>)
    requires
        state_wf(*state),
    ensures
        opt_text(r) == recorded_path_of(known_steps(*state), DNSMASQ_DROPIN@),
{
    known_path(state, DNSMASQ_DROPIN)
}

/// What becomes of the drop-in, given what is at [`drop_in_file`]. Without a
/// record nothing is removed.
pub fn remove_dnsmasq_dropin(state: &Option<StateManifest>, file: &FileState) -> (r: Removal)
    requires
        state_wf(*state),
    ensures
        r@ == (match recorded_path_of(known_steps(*state), DNSMASQ_DROPIN@) {
            Some(p) => removal_of(p, *file),
            None => RemovalView::Nothing,
        }),
{
    match drop_in_file(state) {
        Some(p) => removal(p, file),
        None => Removal::Nothing,
    }
}

/// `brew services restart dnsmasq`, so that it drops the mapping.
pub fn restart_dnsmasq_command() -> (r: Invocation)
    ensures
        r@ == command("brew"@, seq!["services"@, "restart"@, "dnsmasq"@]),
{
    Invocation::new("brew").arg("services").arg("restart").arg("dnsmasq")
}

/// The packages to remove; `None` without a state, which is the only thing that
/// tells them apart.
pub fn packages_to_remove(state: &Option<StateManifest>) -> (r: Option<Vec<String>>)
    requires
        state_wf(*state),
    ensures
        match r {
            Some(pkgs) => state is Some && texts(pkgs@) == henk_packages(known_steps(*state)),
            None => state is None,
        },
{
    match state {
        Some(s) => Some(s.brew_packages_we_installed()),
        None => None,
    }
}

/// `brew uninstall <pkg>`.
pub fn brew_uninstall_command(pkg: &str) -> (r: Invocation)
    ensures
        r@ == command("brew"@, seq!["uninstall"@, pkg@]),
{
    Invocation::new("brew").arg("uninstall").arg(pkg)
}

/// Judges `brew uninstall`: a failure is a notice, not an error; only a command
/// that could not be run is one.
pub fn uninstall_henk_brew_pkgs(pkg: &str, exit: Option<i32>) -> (r: Result<Option<String>, String>)
    ensures
        match exit {
            None => r matches Err(e) && e@ == "running `brew uninstall "@ + pkg@ + "`"@,
            Some(code) => if code == 0 {
                r matches Ok(None)
            } else {
                r matches Ok(Some(notice)) && notice@ == "    ! `brew uninstall "@ + pkg@
                    + "` exited "@ + decimal_int(code as int) + "; skipping.\n"@
            },
        },
{
    match exit {
        None => Err("running `brew uninstall ".to_owned().concat(pkg).concat("`")),
        Some(code) => if code == 0 {
            Ok(None)
        } else {
            Ok(
                Some(
                    "    ! `brew uninstall ".to_owned().concat(pkg).concat("` exited ").concat(
                        decimal_i32(code).as_str(),
                    ).concat("; skipping.\n"),
                ),
            )
        },
    }
}

/// The closing words.
pub open spec fn farewell_text(deep: bool) -> Seq<char> {
    "\n"@ + bold_of(green_of("✓"@)) + "  henk has been uninstalled.\n"@ + (if deep {
        seq![]
    } else {
        "  Homebrew packages (mkcert, nss, dnsmasq) left in place. Re-run with `--deep`\n  to remove the ones henk itself installed.\n"@
    })
}

/// The closing words, as they are printed.
pub fn print_farewell(deep: bool) -> (r: String)
    ensures
        r@ == farewell_text(deep),
{
    let tail = if deep {
        nothing()
    } else {
        "  Homebrew packages (mkcert, nss, dnsmasq) left in place. Re-run with `--deep`\n  to remove the ones henk itself installed.\n".to_owned()
    };
    "\n".to_owned().concat(bold(green("✓").as_str()).as_str()).concat(
        "  henk has been uninstalled.\n",
    ).concat(tail.as_str())
}

/// A file is only ever removed when it carries henk's header.
pub proof fn law_foreign_files_survive(path: Seq<char>, file: FileState)
    requires
        removal_of(path, file) is Remove,
    ensures
        file matches FileState::Text(body) && contains(body@, HENK_FILE_HEADER@),
        removal_of(path, file) == RemovalView::Remove(path),
{
}

/// A file that carries henk's header is removed, one that is gone needs nothing,
/// and any other is left alone with a notice that names it.
pub proof fn law_own_files_are_removed(path: Seq<char>, file: FileState)
    ensures
        file is Missing <==> removal_of(path, file) is Nothing,
        file matches FileState::Text(body) ==> (contains(body@, HENK_FILE_HEADER@) ==> removal_of(
            path,
            file,
        ) == RemovalView::Remove(path)),
        removal_of(path, file) matches RemovalView::LeaveAlone(notice) ==> contains(notice, path),
{
    lemma_contains_itself(path);
    lemma_contains_inside(
        "  "@ + gray_of("○"@) + "  "@,
        path,
        " — header check failed; leaving alone.\n"@,
        path,
    );
}

/// The resolver file that is looked at is the one that was recorded, and the one
/// of the default TLD only where none was.
pub proof fn law_recorded_resolver_is_removed(steps: Map<Seq<char>, StepView>)
    ensures
        steps.dom().contains(RESOLVER_FILE@) && steps[RESOLVER_FILE@].path is Some
            ==> resolver_target(steps) == steps[RESOLVER_FILE@].path->0,
        !steps.dom().contains(RESOLVER_FILE@) ==> resolver_target(steps) == "/etc/resolver/test"@,
{
}

/// A reversal that the user agreed to stops the stack before anything is removed,
/// deletes the record of what was done unless the config is kept, removes
/// packages exactly with `--deep`, and says goodbye last.
pub proof fn law_uninstall_ends_well(deep: bool, keep_config: bool)
    ensures
        ({
            let all = uninstall_steps(true, deep, keep_config);
            &&& all.len() >= 2
            &&& all[0] == UninstallStep::StopStack
            &&& all.last() == UninstallStep::Farewell
            &&& all.contains(UninstallStep::DeleteState) <==> !keep_config
            &&& all.contains(UninstallStep::RemovePackages) <==> deep
            &&& !all.contains(UninstallStep::Abort)
            &&& uninstall_steps(false, deep, keep_config) == seq![UninstallStep::Abort]
        }),
{
    let all = uninstall_steps(true, deep, keep_config);
    if keep_config && deep {
        assert(all =~= seq![
            UninstallStep::StopStack,
            UninstallStep::RemovePackages,
            UninstallStep::Farewell,
        ]);
        assert(all[1] == UninstallStep::RemovePackages);
    } else if keep_config {
        assert(all =~= seq![UninstallStep::StopStack, UninstallStep::Farewell]);
    } else {
        assert(all[6] == UninstallStep::DeleteState);
        if deep {
            assert(all[7] == UninstallStep::RemovePackages);
        }
        assert forall|i: int| 0 <= i < all.len() implies #[trigger] all[i]
            != UninstallStep::Abort && (!deep ==> all[i] != UninstallStep::RemovePackages) by {}
    }
}

/// The plan names the files that were recorded and, with `--deep`, the packages
/// that henk installed.
pub proof fn law_plan_names_what_goes(state: Option<StateManifest>, deep: bool)
    ensures
        ({
            let steps = known_steps(state);
            &&& recorded_path_of(steps, RESOLVER_FILE@) matches Some(p) ==> contains(
                plan_text(state, deep, false),
                "  · delete "@ + p + "\n"@,
            )
            &&& recorded_path_of(steps, DNSMASQ_DROPIN@) matches Some(p) ==> contains(
                plan_text(state, deep, false),
                "  · delete "@ + p + "\n"@,
            )
            &&& deep ==> contains(
                plan_text(state, deep, false),
                packages_plan(henk_packages(steps)),
            )
        }),
{
    let steps = known_steps(state);
    let none = Seq::<char>::empty();
    let x = delete_line(recorded_path_of(steps, RESOLVER_FILE@));
    let y = delete_line(recorded_path_of(steps, DNSMASQ_DROPIN@));
    let pkgs = if deep {
        packages_plan(henk_packages(steps))
    } else {
        none
    };
    lemma_contains_itself(x);
    lemma_contains_itself(y);
    lemma_contains_itself(pkgs);
    lemma_plan_holds(state, deep, x);
    lemma_plan_holds(state, deep, y);
    lemma_plan_holds(state, deep, pkgs);
}

/// The plan holds what one of its parts holds.
proof fn lemma_plan_holds(state: Option<StateManifest>, deep: bool, pat: Seq<char>)
    requires
        ({
            let steps = known_steps(state);
            ||| contains(delete_line(recorded_path_of(steps, RESOLVER_FILE@)), pat)
            ||| contains(delete_line(recorded_path_of(steps, DNSMASQ_DROPIN@)), pat)
            ||| contains(
                if deep {
                    packages_plan(henk_packages(steps))
                } else {
                    Seq::<char>::empty()
                },
                pat,
            )
        }),
    ensures
        contains(plan_text(state, deep, false), pat),
{
    let steps = known_steps(state);
    let none = Seq::<char>::empty();
    let x = delete_line(recorded_path_of(steps, RESOLVER_FILE@));
    let y = delete_line(recorded_path_of(steps, DNSMASQ_DROPIN@));
    let f0 = "  · delete "@ + italic_of("~/.config/henk/"@) + " (henk-authored files only)\n"@;
    let f1 = f0 + x;
    let f2 = f1 + y;
    let f3 = f2 + "  · delete state.json\n"@;
    let head = "Will:\n  · stop the global Traefik stack\n"@;
    let pkgs = if deep {
        packages_plan(henk_packages(steps))
    } else {
        none
    };
    let p1 = head + f3;
    let p2 = p1 + pkgs;
    let p3 = p2 + "\n  Foreign files (resolvers, configs without our header) are "@;
    let p4 = p3 + bold_of("never"@);
    assert(plan_text(state, deep, false) == p4 + " touched.\n\n"@);
    if contains(x, pat) || contains(y, pat) {
        if contains(x, pat) {
            lemma_contains_either(f0, x, pat);
        }
        lemma_contains_either(f1, y, pat);
        lemma_contains_either(f2, "  · delete state.json\n"@, pat);
        lemma_contains_either(head, f3, pat);
    }
    lemma_contains_either(p1, pkgs, pat);
    lemma_contains_either(p2, "\n  Foreign files (resolvers, configs without our header) are "@, pat);
    lemma_contains_either(p3, bold_of("never"@), pat);
    lemma_contains_either(p4, " touched.\n\n"@, pat);
}

/// The proxy network goes only by its own name, and a file only by its path.
pub proof fn law_removals_are_precise(path: Seq<char>)
    ensures
        network_rm_query().program == "docker"@,
        network_rm_query().args == seq!["network"@, "rm"@, "henk-proxy"@],
        sudo_rm_query(path).program == "sudo"@,
        sudo_rm_query(path).args == seq!["rm"@, "-f"@, path],
{
}

/// Kept settings keep the network and the data too; packages are mentioned only
/// where they stay.
pub proof fn law_closing_words()
    ensures
        also_text(true).len() == 0,
        also_text(false).len() > 0,
        farewell_text(false).len() > farewell_text(true).len(),
        begins(farewell_text(false), farewell_text(true)),
{
    reveal_strlit("  Plus, where they exist: henk's Docker network `henk-proxy` and ");
    reveal_strlit(
        "  Homebrew packages (mkcert, nss, dnsmasq) left in place. Re-run with `--deep`\n  to remove the ones henk itself installed.\n",
    );
    let t = farewell_text(false);
    let head = farewell_text(true);
    assert(t.subrange(0, head.len() as int) =~= head);
}

} // verus!
