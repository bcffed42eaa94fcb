//! `/etc/resolver/<tld>`, which makes macOS resolve `*.<tld>` through the
//! dnsmasq on 127.0.0.1:53.
//!
//! A file without henk's header is never overwritten and never removed.

use vstd::prelude::*;
use vstd::string::*;

use crate::consts::HENK_FILE_HEADER;
use crate::project::env_file::FileState;
use crate::runner::{command, failure, failure_of, Invocation, InvocationView, Reply};
use crate::stack::certs::{judge_step, step_outcome, step_view};
use crate::stack::paths::{join, joined};
use crate::text::{
    begins, contains, decimal, decimal_u64, eq, has_text, lemma_split_cons, occurs_at, opt_text,
    split_of,
};

verus! {

/// `/etc/resolver/<tld>`.
pub open spec fn resolver_path_of(tld: Seq<char>) -> Seq<char> {
    "/etc/resolver/"@ + tld
}

/// Path of the resolver file.
pub fn resolver_path(tld: &str) -> (r: String)
    ensures
        r@ == resolver_path_of(tld@),
{
    "/etc/resolver/".to_owned().concat(tld)
}

/// The text of the resolver file.
pub open spec fn resolver_text() -> Seq<char> {
    HENK_FILE_HEADER@ + "\nnameserver 127.0.0.1\n"@
}

/// Renders the resolver file.
pub fn render() -> (r: String)
    ensures
        r@ == resolver_text(),
{
    HENK_FILE_HEADER.to_owned().concat("\nnameserver 127.0.0.1\n")
}

/// Whose the resolver file is.
#[derive(Debug, Clone, Copy, PartialEq, Eq, Structural)]
pub enum ResolverStatus {
    /// It doesn't exist and has to be created.
    Missing,
    /// It carries henk's header.
    Ours,
    /// It exists without henk's header (Valet, Herd, manual).
    Foreign,
}

/// Whose a resolver file is. One that cannot be read is not henk's.
pub open spec fn status_of(file: FileState) -> ResolverStatus {
    match file {
        FileState::Missing => ResolverStatus::Missing,
        FileState::Text(body) => if contains(body@, HENK_FILE_HEADER@) {
            ResolverStatus::Ours
        } else {
            ResolverStatus::Foreign
        },
        FileState::Unreadable => ResolverStatus::Foreign,
    }
}

/// Whose the resolver file is.
pub fn status(file: &FileState) -> (r: ResolverStatus)
    ensures
        r == status_of(*file),
{
    match file {
        FileState::Missing => ResolverStatus::Missing,
        FileState::Text(body) => if has_text(body.as_str(), HENK_FILE_HEADER) {
            ResolverStatus::Ours
        } else {
            ResolverStatus::Foreign
        },
        FileState::Unreadable => ResolverStatus::Foreign,
    }
}

/// Why a foreign resolver file stops `henk init`.
pub open spec fn foreign_text(tld: Seq<char>) -> Seq<char> {
    resolver_path_of(tld)
        + " exists but is not managed by henk.\nRefusing to overwrite. Either remove that file manually or pick a different TLD."@
}

/// What has to be installed as the resolver file: nothing when it is already as
/// it should be. `None` on the outside when it is foreign.
pub open spec fn to_install(file: FileState) -> Option<Option<Seq<char>>> {
    match status_of(file) {
        ResolverStatus::Missing => Some(Some(resolver_text())),
        ResolverStatus::Ours => if file->Text_0@ == resolver_text() {
            Some(None)
        } else {
            Some(Some(resolver_text()))
        },
        ResolverStatus::Foreign => None,
    }
}

/// What has to be installed as the resolver file: nothing when it is already as
/// it should be. A foreign file is an error.
pub fn ensure_written(tld: &str, file: &FileState) -> (r: Result<Option<String>, String>)
    ensures
        match to_install(*file) {
            Some(text) => r matches Ok(t) && opt_text(t) == text,
            None => r matches Err(e) && e@ == foreign_text(tld@),
        },
{
    match status(file) {
        ResolverStatus::Missing => Ok(Some(render())),
        ResolverStatus::Ours => {
            let desired = render();
            if let FileState::Text(body) = file {
                if eq(body.as_str(), desired.as_str()) {
                    return Ok(None);
                }
            }
            Ok(Some(desired))
        },
        ResolverStatus::Foreign => Err(
            resolver_path(tld).concat(
                " exists but is not managed by henk.\nRefusing to overwrite. Either remove that file manually or pick a different TLD.",
            ),
        ),
    }
}

/// `sudo rm -f` on the resolver file.
pub open spec fn remove_query(tld: Seq<char>) -> InvocationView {
    command("sudo"@, seq!["rm"@, "-f"@, resolver_path_of(tld)])
}

/// The command that removes the resolver file, if it is henk's. A foreign file
/// is an error.
pub fn ensure_removed(tld: &str, file: &FileState) -> (r: Result<Option<Invocation>, String>)
    ensures
        match status_of(*file) {
            ResolverStatus::Missing => r matches Ok(None),
            ResolverStatus::Ours => r matches Ok(Some(cmd)) && cmd@ == remove_query(tld@),
            ResolverStatus::Foreign => r matches Err(e) && e@ == resolver_path_of(tld@)
                + " exists but is not managed by henk; not removing"@,
        },
{
    match status(file) {
        ResolverStatus::Missing => Ok(None),
        ResolverStatus::Ours => Ok(
            Some(Invocation::new("sudo").arg("rm").arg("-f").arg(resolver_path(tld).as_str())),
        ),
        ResolverStatus::Foreign => Err(
            resolver_path(tld).concat(" exists but is not managed by henk; not removing"),
        ),
    }
}

/// Judges the reply of the removal.
pub fn removed(tld: &str, reply: &Reply) -> (r: Result<(), String>)
    ensures
        step_view(r) == step_outcome(
            *reply,
            "sudo rm /etc/resolver/<tld>"@,
            "could not remove "@ + resolver_path_of(tld@),
        ),
{
    judge_step(
        reply,
        "sudo rm /etc/resolver/<tld>",
        "could not remove ".to_owned().concat(resolver_path(tld).as_str()).as_str(),
    )
}

// -------------------------------------------------------------- installing it

/// Where the new contents are staged before sudo installs them.
pub open spec fn staging_of(tmp_dir: Seq<char>, tld: Seq<char>, pid: u32) -> Seq<char> {
    joined(tmp_dir, "henk-resolver-"@ + tld + "-"@ + decimal(pid as nat))
}

/// Where the new contents are staged.
pub fn staging_path(tmp_dir: &str, tld: &str, pid: u32) -> (r: String)
    ensures
        r@ == staging_of(tmp_dir@, tld@, pid),
{
    join(
        tmp_dir,
        "henk-resolver-".to_owned().concat(tld).concat("-").concat(
            decimal_u64(pid as u64).as_str(),
        ).as_str(),
    )
}

/// `sudo install -d` for the directory.
pub open spec fn directory_query() -> InvocationView {
    command("sudo"@, seq!["install"@, "-d"@, "-m"@, "0755"@, "/etc/resolver"@])
}

/// `sudo install` of the staged file.
pub open spec fn install_query(staged: Seq<char>, tld: Seq<char>) -> InvocationView {
    command("sudo"@, seq!["install"@, "-m"@, "0644"@, staged, resolver_path_of(tld)])
}

/// How far the installation of a resolver file is.
#[derive(Debug)]
pub enum InstallState {
    /// The contents have to be staged.
    Staging,
    /// The directory has to be made.
    MakingDirectory,
    /// The staged file has to be installed.
    Installing,
    /// The staged file has to be removed; then this is the result.
    CleaningUp(Result<(), String>),
    /// The result.
    Finished(Result<(), String>),
}

/// The view of an [`InstallState`].
pub enum InstallView {
    Staging,
    MakingDirectory,
    Installing,
    CleaningUp(Result<(), Seq<char>>),
    Finished(Result<(), Seq<char>>),
}

impl View for InstallState {
    type V = InstallView;

    open spec fn view(&self) -> InstallView {
        match self {
            InstallState::Staging => InstallView::Staging,
            InstallState::MakingDirectory => InstallView::MakingDirectory,
            InstallState::Installing => InstallView::Installing,
            InstallState::CleaningUp(r) => InstallView::CleaningUp(step_view(*r)),
            InstallState::Finished(r) => InstallView::Finished(step_view(*r)),
        }
    }
}

/// What happened in answer to an action.
#[derive(Debug)]
pub enum InstallEvent {
    /// The contents are staged.
    Staged,
    /// They could not be staged.
    StagingFailed,
    /// The command came back.
    Ran(Reply),
    /// The staged file is gone, or never mind.
    CleanedUp,
}

/// What to do next.
#[derive(Debug)]
pub enum InstallAction {
    /// Write the contents to the staging path.
    Stage,
    /// Run this command.
    Run(Invocation),
    /// Remove the staged file; it does not matter if that fails.
    CleanUp,
    /// Nothing: this is the result.
    Finish(Result<(), String>),
}

/// The view of an [`InstallAction`].
#[verifier::ext_equal]
pub enum InstallActionView {
    Stage,
    Run(InvocationView),
    CleanUp,
    Finish(Result<(), Seq<char>>),
}

impl View for InstallAction {
    type V = InstallActionView;

    open spec fn view(&self) -> InstallActionView {
        match self {
            InstallAction::Stage => InstallActionView::Stage,
            InstallAction::Run(cmd) => InstallActionView::Run(cmd@),
            InstallAction::CleanUp => InstallActionView::CleanUp,
            InstallAction::Finish(r) => InstallActionView::Finish(step_view(*r)),
        }
    }
}

/// The state after an event. Events that do not answer the state's action
/// change nothing. A command that could not be run at all ends the installation
/// at once; one that failed ends it after the clean-up.
pub open spec fn install_step(
    state: InstallView,
    event: InstallEvent,
    staged: Seq<char>,
    tld: Seq<char>,
) -> InstallView {
    match (state, event) {
        (InstallView::Staging, InstallEvent::Staged) => InstallView::MakingDirectory,
        (InstallView::Staging, InstallEvent::StagingFailed) => InstallView::Finished(
            Err("writing temp "@ + staged),
        ),
        (InstallView::MakingDirectory, InstallEvent::Ran(reply)) => match reply {
            Reply::Unavailable => InstallView::Finished(Err("sudo install -d /etc/resolver"@)),
            Reply::Output(out) => if out.status == 0 {
                InstallView::Installing
            } else {
                InstallView::CleaningUp(
                    Err(
                        failure_of(
                            "could not ensure /etc/resolver exists"@,
                            out.stdout@,
                            out.stderr@,
                        ),
                    ),
                )
            },
        },
        (InstallView::Installing, InstallEvent::Ran(reply)) => match reply {
            Reply::Unavailable => InstallView::Finished(
                Err("sudo install /tmp/<...> /etc/resolver/<tld>"@),
            ),
            Reply::Output(out) => if out.status == 0 {
                InstallView::CleaningUp(Ok(()))
            } else {
                InstallView::CleaningUp(
                    Err(
                        failure_of(
                            "could not write "@ + resolver_path_of(tld),
                            out.stdout@,
                            out.stderr@,
                        ),
                    ),
                )
            },
        },
        (InstallView::CleaningUp(r), InstallEvent::CleanedUp) => InstallView::Finished(r),
        _ => state,
    }
}

/// The state after an event.
pub fn install_with_sudo(state: InstallState, event: &InstallEvent, staged: &str, tld: &str) -> (r:
    InstallState)
    ensures
        r@ == install_step(state@, *event, staged@, tld@),
{
    match (state, event) {
        (InstallState::Staging, InstallEvent::Staged) => InstallState::MakingDirectory,
        (InstallState::Staging, InstallEvent::StagingFailed) => InstallState::Finished(
            Err("writing temp ".to_owned().concat(staged)),
        ),
        (InstallState::MakingDirectory, InstallEvent::Ran(reply)) => match reply {
            Reply::Unavailable => InstallState::Finished(
                Err("sudo install -d /etc/resolver".to_owned()),
            ),
            Reply::Output(out) => if out.ok() {
                InstallState::Installing
            } else {
                InstallState::CleaningUp(
                    Err(failure("could not ensure /etc/resolver exists", out)),
                )
            },
        },
        (InstallState::Installing, InstallEvent::Ran(reply)) => match reply {
            Reply::Unavailable => InstallState::Finished(
                Err("sudo install /tmp/<...> /etc/resolver/<tld>".to_owned()),
            ),
            Reply::Output(out) => if out.ok() {
                InstallState::CleaningUp(Ok(()))
            } else {
                InstallState::CleaningUp(
                    Err(
                        failure(
                            "could not write ".to_owned().concat(
                                resolver_path(tld).as_str(),
                            ).as_str(),
                            out,
                        ),
                    ),
                )
            },
        },
        (InstallState::CleaningUp(r), InstallEvent::CleanedUp) => InstallState::Finished(r),
        (other, _) => other,
    }
}

/// What to do in a state.
pub open spec fn install_action_of(
    state: InstallView,
    staged: Seq<char>,
    tld: Seq<char>,
) -> InstallActionView {
    match state {
        InstallView::Staging => InstallActionView::Stage,
        InstallView::MakingDirectory => InstallActionView::Run(directory_query()),
        InstallView::Installing => InstallActionView::Run(install_query(staged, tld)),
        InstallView::CleaningUp(_) => InstallActionView::CleanUp,
        InstallView::Finished(r) => InstallActionView::Finish(r),
    }
}

/// What to do in a state.
pub fn install_action(state: &InstallState, staged: &str, tld: &str) -> (r: InstallAction)
    ensures
        r@ == install_action_of(state@, staged@, tld@),
{
    match state {
        InstallState::Staging => InstallAction::Stage,
        InstallState::MakingDirectory => InstallAction::Run(
            Invocation::new("sudo").arg("install").arg("-d").arg("-m").arg("0755").arg(
                "/etc/resolver",
            ),
        ),
        InstallState::Installing => InstallAction::Run(
            Invocation::new("sudo").arg("install").arg("-m").arg("0644").arg(staged).arg(
                resolver_path(tld).as_str(),
            ),
        ),
        InstallState::CleaningUp(_) => InstallAction::CleanUp,
        InstallState::Finished(r) => InstallAction::Finish(
            match r {
                Ok(()) => Ok(()),
                Err(e) => Err(e.clone()),
            },
        ),
    }
}

// ------------------------------------------------------------------------- laws

/// A file that henk wrote is recognised as henk's, and has not to be written
/// again.
pub proof fn law_written_resolver_is_ours(body: String)
    requires
        body@ == resolver_text(),
    ensures
        status_of(FileState::Text(body)) == ResolverStatus::Ours,
        to_install(FileState::Text(body)) == Some(None::<Seq<char>>),
{
    let t = resolver_text();
    assert(t.subrange(0, HENK_FILE_HEADER@.len() as int) =~= HENK_FILE_HEADER@);
    assert(occurs_at(t, HENK_FILE_HEADER@, 0));
}

/// A resolver file without henk's header is never replaced.
pub proof fn law_foreign_resolver_is_never_replaced(file: FileState)
    requires
        !(file is Missing),
        file matches FileState::Text(body) ==> !contains(body@, HENK_FILE_HEADER@),
    ensures
        status_of(file) == ResolverStatus::Foreign,
        to_install(file) is None,
{
}

/// An installation that was staged succeeds exactly when both commands ran and
/// exited with code 0, and its file is cleaned up whenever sudo could be run.
pub proof fn law_install_outcome(
    first: Reply,
    second: Reply,
    staged: Seq<char>,
    tld: Seq<char>,
)
    ensures
        ({
            let a = install_step(
                InstallView::MakingDirectory,
                InstallEvent::Ran(first),
                staged,
                tld,
            );
            let b = install_step(a, InstallEvent::Ran(second), staged, tld);
            let c = install_step(b, InstallEvent::CleanedUp, staged, tld);
            &&& c matches InstallView::Finished(r) && (r is Ok <==> first.succeeded()
                && second.succeeded())
            &&& first is Output && second is Output ==> b is CleaningUp
        }),
{
}

/// The resolver file sends the TLD's names to the dnsmasq on this machine, and
/// lies where macOS looks for it.
pub proof fn law_resolver_points_at_this_machine(tld: Seq<char>)
    ensures
        split_of(resolver_text(), '\n').contains("nameserver 127.0.0.1"@),
        resolver_path_of(tld) == "/etc/resolver/"@ + tld,
{
    reveal_strlit("# managed by henk — see https://github.com/fivespark/henk");
    reveal_strlit("\nnameserver 127.0.0.1\n");
    reveal_strlit("nameserver 127.0.0.1");
    let head = HENK_FILE_HEADER@;
    let line = "nameserver 127.0.0.1"@;
    let empty = Seq::<char>::empty();
    assert("\nnameserver 127.0.0.1\n"@ =~= seq!['\n'] + (line + seq!['\n'] + empty));
    assert(resolver_text() =~= head + seq!['\n'] + (line + seq!['\n'] + empty));
    assert(!head.contains('\n'));
    assert(!line.contains('\n'));
    lemma_split_cons(head, '\n', line + seq!['\n'] + empty);
    lemma_split_cons(line, '\n', empty);
    let parts = split_of(resolver_text(), '\n');
    assert(parts[1] == line);
}

/// A resolver file is installed where none is, and again where henk's own has
/// changed; one that is as it should be is left alone.
pub proof fn law_resolver_is_installed_when_needed(file: FileState)
    ensures
        file is Missing ==> to_install(file) == Some(Some(resolver_text())),
        file matches FileState::Text(body) ==> (contains(body@, HENK_FILE_HEADER@) && body@
            != resolver_text() ==> to_install(file) == Some(Some(resolver_text()))),
        file matches FileState::Text(body) ==> (body@ == resolver_text() ==> to_install(file)
            == Some(None::<Seq<char>>)),
        file is Unreadable ==> to_install(file) is None,
{
    if let FileState::Text(body) = file {
        if body@ == resolver_text() {
            law_written_resolver_is_ours(body);
        }
    }
}

/// Only henk's own resolver file is ever removed.
pub proof fn law_resolver_owner(file: FileState)
    ensures
        status_of(file) == ResolverStatus::Missing <==> file is Missing,
        status_of(file) == ResolverStatus::Ours <==> (file matches FileState::Text(body)
            && contains(body@, HENK_FILE_HEADER@)),
{
}

/// The staged file is installed as the resolver file of the TLD, readable by
/// all, after the directory was made; nothing is run before the contents are
/// staged.
pub proof fn law_install_runs_in_order(staged: Seq<char>, tld: Seq<char>)
    ensures
        install_action_of(InstallView::Staging, staged, tld) is Stage,
        install_action_of(InstallView::MakingDirectory, staged, tld) matches InstallActionView::Run(
            cmd,
        ) && cmd.program == "sudo"@ && cmd.args.contains("-d"@) && cmd.args.last()
            == "/etc/resolver"@,
        install_action_of(InstallView::Installing, staged, tld) matches InstallActionView::Run(cmd)
            && cmd.program == "sudo"@ && cmd.args.contains("0644"@) && cmd.args.len() >= 2
            && cmd.args[cmd.args.len() - 2] == staged && cmd.args.last() == "/etc/resolver/"@ + tld,
{
    assert(directory_query().args[1] == "-d"@);
    assert(install_query(staged, tld).args[2] == "0644"@);
}

/// A step that failed ends the installation with an error and never goes on to
/// the next step; the staged file is removed whenever it was written and sudo
/// could be run.
pub proof fn law_failed_install_stops(
    state: InstallView,
    reply: Reply,
    staged: Seq<char>,
    tld: Seq<char>,
)
    requires
        state is MakingDirectory || state is Installing,
        !reply.succeeded(),
    ensures
        ({
            let next = install_step(state, InstallEvent::Ran(reply), staged, tld);
            &&& reply is Unavailable ==> (next matches InstallView::Finished(r) && r is Err)
            &&& reply is Output ==> (next matches InstallView::CleaningUp(r) && r is Err)
        }),
{
}

/// Only the resolver file of the TLD is removed, and the message about a foreign
/// one names it.
pub proof fn law_resolver_of_the_tld(tld: Seq<char>)
    ensures
        remove_query(tld).program == "sudo"@,
        remove_query(tld).args == seq!["rm"@, "-f"@, "/etc/resolver/"@ + tld],
        begins(foreign_text(tld), "/etc/resolver/"@ + tld),
{
    let path = "/etc/resolver/"@ + tld;
    assert(foreign_text(tld).subrange(0, path.len() as int) =~= path);
}

/// New contents are staged in the given directory, in a file of the process.
pub proof fn law_staging_is_private(tmp_dir: Seq<char>, tld: Seq<char>, pid: u32)
    requires
        tmp_dir.len() > 0,
        tmp_dir.last() != '/',
    ensures
        staging_of(tmp_dir, tld, pid) == tmp_dir + "/"@ + ("henk-resolver-"@ + tld + "-"@ + decimal(
            pid as nat,
        )),
{
    reveal_strlit("henk-resolver-");
    let part = "henk-resolver-"@ + tld + "-"@ + decimal(pid as nat);
    assert(part[0] == 'h');
}

} // verus!
