//! Homebrew dnsmasq: installation, the drop-in under `dnsmasq.d/`, and its
//! service.

use vstd::prelude::*;
use vstd::string::*;

use crate::consts::HENK_FILE_HEADER;
use crate::runner::{command, failure_of, first_line_of, Invocation, InvocationView, Reply};
use crate::stack::assets::DNSMASQ_TMPL;
use crate::stack::certs::{judge_step, step_outcome, step_view};
use crate::stack::paths::{join, joined};
use crate::stack::templates::{
    differs, lemma_place_filled, lemma_unmarked, write_if_changed,
};
use crate::text::{
    begins, contains, decimal_i32, decimal_int, lemma_replace_at_seam, occurs_at, opt_text, replace,
    replace_of,
};

verus! {

/// `brew --prefix`.
pub open spec fn prefix_query() -> InvocationView {
    command("brew"@, seq!["--prefix"@])
}

/// The command that tells where Homebrew lives.
pub fn brew_prefix_command() -> (r: Invocation)
    ensures
        r@ == prefix_query(),
{
    Invocation::new("brew").arg("--prefix")
}

/// The Homebrew prefix that a reply names, or why there is none.
pub open spec fn prefix_of(reply: Reply) -> Result<Seq<char>, Seq<char>> {
    match reply {
        Reply::Unavailable => Err("running `brew --prefix`"@),
        Reply::Output(out) => if out.status != 0 {
            Err(failure_of("could not resolve Homebrew prefix"@, out.stdout@, out.stderr@))
        } else {
            match first_line_of(out.stdout@) {
                Some(p) => Ok(p),
                None => Err("`brew --prefix` produced no output"@),
            }
        },
    }
}

/// The view of a result with a path.
pub open spec fn path_view(r: Result<String, String>) -> Result<Seq<char>, Seq<char>> {
    match r {
        Ok(p) => Ok(p@),
        Err(e) => Err(e@),
    }
}

/// The Homebrew prefix (`/opt/homebrew` on Apple Silicon, `/usr/local` on
/// Intel).
pub fn brew_prefix(reply: &Reply) -> (r: Result<String, String>)
    ensures
        path_view(r) == prefix_of(*reply),
{
    match reply {
        Reply::Unavailable => Err("running `brew --prefix`".to_owned()),
        Reply::Output(out) => {
            if !out.ok() {
                return Err(crate::runner::failure("could not resolve Homebrew prefix", out));
            }
            match out.first_line() {
                Some(p) => Ok(p),
                None => Err("`brew --prefix` produced no output".to_owned()),
            }
        },
    }
}

/// `<prefix>/etc/dnsmasq.d/henk-<tld>.conf`.
pub open spec fn config_path_of(prefix: Seq<char>, tld: Seq<char>) -> Seq<char> {
    joined(joined(joined(prefix, "etc"@), "dnsmasq.d"@), "henk-"@ + tld + ".conf"@)
}

/// The drop-in that henk owns.
pub fn config_path(prefix: &str, tld: &str) -> (r: String)
    ensures
        r@ == config_path_of(prefix@, tld@),
{
    join(
        join(join(prefix, "etc").as_str(), "dnsmasq.d").as_str(),
        "henk-".to_owned().concat(tld).concat(".conf").as_str(),
    )
}

/// The text of the drop-in.
pub open spec fn drop_in_text(tld: Seq<char>) -> Seq<char> {
    replace_of(
        replace_of(DNSMASQ_TMPL@, "{{HENK_FILE_HEADER}}"@, HENK_FILE_HEADER@),
        "{{TLD}}"@,
        tld,
    )
}

/// Renders the drop-in for the chosen TLD.
pub fn render(tld: &str) -> (r: String)
    ensures
        r@ == drop_in_text(tld@),
{
    proof {
        reveal_strlit("{{HENK_FILE_HEADER}}");
        reveal_strlit("{{TLD}}");
    }
    let headed = replace(DNSMASQ_TMPL, "{{HENK_FILE_HEADER}}", HENK_FILE_HEADER);
    replace(headed.as_str(), "{{TLD}}", tld)
}

/// Whatever the TLD, the drop-in begins with henk's header.
pub proof fn law_drop_in_begins_with_the_header(tld: Seq<char>)
    ensures
        begins(drop_in_text(tld), HENK_FILE_HEADER@),
{
    reveal_strlit("{{HENK_FILE_HEADER}}");
    reveal_strlit("{{TLD}}");
    reveal_strlit("# managed by henk — see https://github.com/fivespark/henk");
    reveal_strlit(
        "{{HENK_FILE_HEADER}}
address=/.{{TLD}}/127.0.0.1
listen-address=127.0.0.1
",
    );
    let mark = "{{HENK_FILE_HEADER}}"@;
    let header = HENK_FILE_HEADER@;
    let n = mark.len() as int;
    let rest = DNSMASQ_TMPL@.skip(n);
    assert(DNSMASQ_TMPL@ =~= mark + rest);
    assert(rest[0] == '\n');
    lemma_replace_at_seam(mark, rest, mark, header);
    assert(mark.subrange(0, n) =~= mark);
    assert(begins(mark, mark));
    assert(mark.skip(n) =~= Seq::<char>::empty());
    assert(replace_of(Seq::<char>::empty(), mark, header) == Seq::<char>::empty());
    assert(replace_of(mark, mark, header) =~= header);
    let tail = replace_of(rest, mark, header);
    assert(header.last() == 'k');
    lemma_replace_at_seam(header, tail, "{{TLD}}"@, tld);
    lemma_unmarked(header, "{{TLD}}"@, tld);
    let t = drop_in_text(tld);
    assert(t.subrange(0, header.len() as int) =~= header);
}

/// What is done to get dnsmasq going.
#[derive(Debug, Clone, Copy, PartialEq, Eq, Structural)]
pub enum DnsmasqStep {
    /// `brew install dnsmasq`.
    Install,
    /// Write the drop-in, if it changed.
    WriteDropIn,
    /// Restart the service so the drop-in takes effect.
    Restart,
}

/// What is done to get dnsmasq going: it is installed only when it is nowhere
/// to be found.
pub open spec fn dnsmasq_steps(in_path: bool, in_brew: bool) -> Seq<DnsmasqStep> {
    if in_path || in_brew {
        seq![DnsmasqStep::WriteDropIn, DnsmasqStep::Restart]
    } else {
        seq![DnsmasqStep::Install, DnsmasqStep::WriteDropIn, DnsmasqStep::Restart]
    }
}

/// What is done to get dnsmasq going.
pub fn ensure(in_path: bool, in_brew: bool) -> (r: Vec<DnsmasqStep>)
    ensures
        r@ == dnsmasq_steps(in_path, in_brew),
{
    let mut out: Vec<DnsmasqStep> = Vec::new();
    if !in_path && !in_brew {
        out.push(DnsmasqStep::Install);
    }
    out.push(DnsmasqStep::WriteDropIn);
    out.push(DnsmasqStep::Restart);
    assert(out@ =~= dnsmasq_steps(in_path, in_brew));
    out
}

/// `brew install <pkg>`.
pub open spec fn brew_install_query(pkg: Seq<char>) -> InvocationView {
    command("brew"@, seq!["install"@, pkg])
}

/// The command that installs a package.
pub fn brew_install_command(pkg: &str) -> (r: Invocation)
    ensures
        r@ == brew_install_query(pkg@),
{
    Invocation::new("brew").arg("install").arg(pkg)
}

/// How `brew install` came out: its exit code, or `None` when it could not be
/// run.
pub open spec fn install_outcome(pkg: Seq<char>, exit: Option<i32>) -> Result<(), Seq<char>> {
    match exit {
        None => Err("running `brew install "@ + pkg + "`"@),
        Some(code) => if code == 0 {
            Ok(())
        } else {
            Err(
                "`brew install "@ + pkg + "` failed with exit code "@ + decimal_int(code as int),
            )
        },
    }
}

/// Judges `brew install`.
pub fn brew_installed(pkg: &str, exit: Option<i32>) -> (r: Result<(), String>)
    ensures
        step_view(r) == install_outcome(pkg@, exit),
{
    match exit {
        None => Err("running `brew install ".to_owned().concat(pkg).concat("`")),
        Some(code) => if code == 0 {
            Ok(())
        } else {
            Err(
                "`brew install ".to_owned().concat(pkg).concat("` failed with exit code ").concat(
                    decimal_i32(code).as_str(),
                ),
            )
        },
    }
}

/// The contents to write as the drop-in; `None` when it already holds them.
pub fn write_drop_in(existing: &Option<String>, tld: &str) -> (r: Option<String>)
    ensures
        opt_text(r) == (if differs(opt_text(*existing), drop_in_text(tld@)) {
            Some(drop_in_text(tld@))
        } else {
            None
        }),
{
    let desired = render(tld);
    if write_if_changed(existing, desired.as_str()) {
        Some(desired)
    } else {
        None
    }
}

/// `sudo brew services restart dnsmasq`.
pub open spec fn restart_query() -> InvocationView {
    command("sudo"@, seq!["brew"@, "services"@, "restart"@, "dnsmasq"@])
}

/// The command that starts or restarts dnsmasq. It needs sudo because it binds
/// :53.
pub fn start_service_command() -> (r: Invocation)
    ensures
        r@ == restart_query(),
{
    Invocation::new("sudo").arg("brew").arg("services").arg("restart").arg("dnsmasq")
}

/// Judges the restart.
pub fn start_service(reply: &Reply) -> (r: Result<(), String>)
    ensures
        step_view(r) == step_outcome(
            *reply,
            "sudo brew services restart dnsmasq"@,
            "could not start dnsmasq"@,
        ),
{
    judge_step(reply, "sudo brew services restart dnsmasq", "could not start dnsmasq")
}

/// The drop-in to remove: henk's own, when it exists.
pub fn remove_drop_in(prefix: &str, tld: &str, exists: bool) -> (r: Option<String>)
    ensures
        opt_text(r) == (if exists {
            Some(config_path_of(prefix@, tld@))
        } else {
            None
        }),
{
    if exists {
        Some(config_path(prefix, tld))
    } else {
        None
    }
}

/// The drop-in answers every name under the TLD with this machine's address, and
/// dnsmasq listens on this machine alone.
pub proof fn law_drop_in_answers_the_tld(tld: Seq<char>)
    ensures
        contains(drop_in_text(tld), "address=/."@ + tld + "/127.0.0.1"@),
        contains(drop_in_text(tld), "listen-address="@ + "127.0.0.1"@ + "\n"@),
{
    reveal_strlit("{{HENK_FILE_HEADER}}");
    reveal_strlit("{{TLD}}");
    reveal_strlit("address=/.");
    reveal_strlit("/127.0.0.1");
    reveal_strlit("listen-address=");
    reveal_strlit("127.0.0.1");
    reveal_strlit("\n");
    reveal_strlit(
        "{{HENK_FILE_HEADER}}
address=/.{{TLD}}/127.0.0.1
listen-address=127.0.0.1
",
    );
    let t = DNSMASQ_TMPL@;
    let head = "{{HENK_FILE_HEADER}}"@;
    let mark = "{{TLD}}"@;
    let a = "address=/."@;
    let b = "/127.0.0.1"@;
    let c = "listen-address="@;
    let e = "127.0.0.1"@;
    let nl = "\n"@;
    assert(t.subrange(21, 48) =~= a + mark + b);
    assert(occurs_at(t, a + mark + b, 21));
    assert(t.subrange(49, 74) =~= c + e + nl);
    assert(occurs_at(t, c + e + nl, 49));
    let s = replace_of(t, head, HENK_FILE_HEADER@);
    lemma_place_filled(t, a, mark, b, head, HENK_FILE_HEADER@);
    lemma_place_filled(s, a, mark, b, mark, tld);
    lemma_place_filled(t, c, e, nl, head, HENK_FILE_HEADER@);
    lemma_place_filled(s, c, e, nl, mark, tld);
}

/// dnsmasq is installed exactly when it is found nowhere; the drop-in is always
/// written, and the service restarted after that, last of all.
pub proof fn law_dnsmasq_is_installed_when_missing(in_path: bool, in_brew: bool)
    ensures
        ({
            let all = dnsmasq_steps(in_path, in_brew);
            let n = all.len() as int;
            &&& all.contains(DnsmasqStep::Install) <==> !in_path && !in_brew
            &&& n >= 2
            &&& all[n - 2] == DnsmasqStep::WriteDropIn
            &&& all[n - 1] == DnsmasqStep::Restart
            &&& all.contains(DnsmasqStep::Install) ==> all[0] == DnsmasqStep::Install
        }),
{
    let all = dnsmasq_steps(in_path, in_brew);
    if !in_path && !in_brew {
        assert(all[0] == DnsmasqStep::Install);
    }
}

/// A failed `brew install` is reported with the package and its exit code.
pub proof fn law_failed_installs_are_reported(pkg: Seq<char>, exit: Option<i32>)
    ensures
        install_outcome(pkg, exit) is Ok <==> exit == Some(0i32),
        install_outcome(pkg, exit) matches Err(e) ==> contains(e, "`brew install "@ + pkg + "`"@),
{
    reveal_strlit("running `brew install ");
    reveal_strlit("`brew install ");
    reveal_strlit("`");
    reveal_strlit("` failed with exit code ");
    let want = "`brew install "@ + pkg + "`"@;
    if let Err(e) = install_outcome(pkg, exit) {
        if exit is None {
            assert(e.subrange(8, 8int + want.len()) =~= want);
            assert(occurs_at(e, want, 8));
        } else {
            assert(e.subrange(0, want.len() as int) =~= want);
            assert(occurs_at(e, want, 0));
        }
    }
}

/// The drop-in lies where dnsmasq reads it, under the TLD's name.
pub proof fn law_drop_in_has_its_place(prefix: Seq<char>, tld: Seq<char>)
    requires
        prefix.len() > 0,
        prefix.last() != '/',
    ensures
        config_path_of(prefix, tld) == prefix + "/etc/dnsmasq.d/henk-"@ + tld + ".conf"@,
{
    reveal_strlit("/");
    reveal_strlit("etc");
    reveal_strlit("dnsmasq.d");
    reveal_strlit("henk-");
    reveal_strlit(".conf");
    reveal_strlit("/etc/dnsmasq.d/henk-");
    let a = joined(prefix, "etc"@);
    assert(a =~= prefix + "/"@ + "etc"@);
    assert(a.last() == 'c');
    let b = joined(a, "dnsmasq.d"@);
    assert(b =~= a + "/"@ + "dnsmasq.d"@);
    assert(b.last() == 'd');
    let name = "henk-"@ + tld + ".conf"@;
    assert(name[0] == 'h');
    assert(config_path_of(prefix, tld) =~= prefix + "/etc/dnsmasq.d/henk-"@ + tld + ".conf"@);
}

/// The prefix is the first line that Homebrew printed. A failure, and silence,
/// is an error.
pub proof fn law_prefix_is_the_first_line(reply: Reply)
    ensures
        reply.succeeded() && first_line_of(reply.out()) is Some ==> prefix_of(reply) == Ok::<
            Seq<char>,
            Seq<char>,
        >(first_line_of(reply.out())->0),
        !reply.succeeded() ==> prefix_of(reply) is Err,
        reply.succeeded() && first_line_of(reply.out()) is None ==> prefix_of(reply) is Err,
{
}

/// Homebrew installs the package that is named, and dnsmasq is restarted as root,
/// for it answers on a privileged port.
pub proof fn law_homebrew_commands(pkg: Seq<char>)
    ensures
        brew_install_query(pkg).program == "brew"@,
        brew_install_query(pkg).args == seq!["install"@, pkg],
        restart_query().program == "sudo"@,
        restart_query().args == seq!["brew"@, "services"@, "restart"@, "dnsmasq"@],
        prefix_query().program == "brew"@,
        prefix_query().args == seq!["--prefix"@],
{
}

} // verus!
