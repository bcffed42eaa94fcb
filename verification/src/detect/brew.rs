//! Homebrew-package probes.

use vstd::prelude::*;
use vstd::string::*;

use crate::detect::report::{item, row, DetectionItem, ItemView, Status};
use crate::runner::{command, first_line_of, Invocation, InvocationView, Reply};
use crate::text::{contains, occurs_at};

verus! {

/// The Homebrew row.
pub open spec fn homebrew_of(in_path: bool, version: Reply) -> ItemView {
    if !in_path {
        row("Homebrew"@, Status::Block, "not installed (https://brew.sh)"@)
    } else if version.succeeded() {
        row(
            "Homebrew"@,
            Status::Okay,
            match first_line_of(version.out()) {
                Some(v) => v,
                None => "installed"@,
            },
        )
    } else {
        row("Homebrew"@, Status::Warn, "found in $PATH but `brew --version` failed"@)
    }
}

/// `brew --version`.
pub open spec fn brew_version_query() -> InvocationView {
    command("brew"@, seq!["--version"@])
}

/// The command that [`probe_homebrew`] reads.
pub fn brew_version_command() -> (r: Invocation)
    ensures
        r@ == brew_version_query(),
{
    Invocation::new("brew").arg("--version")
}

/// Is Homebrew installed?
pub fn probe_homebrew(in_path: bool, version: &Reply) -> (r: DetectionItem)
    ensures
        r@ == homebrew_of(in_path, *version),
{
    if !in_path {
        return item("Homebrew", Status::Block, "not installed (https://brew.sh)".to_owned());
    }
    if let Reply::Output(out) = version {
        if out.ok() {
            let detail = match out.first_line() {
                Some(v) => v,
                None => "installed".to_owned(),
            };
            return item("Homebrew", Status::Okay, detail);
        }
    }
    item("Homebrew", Status::Warn, "found in $PATH but `brew --version` failed".to_owned())
}

/// What was found out about a package.
#[derive(Debug, Clone, Copy, PartialEq, Eq, Structural)]
pub struct PackageFacts {
    /// A program of that name is in `$PATH`.
    pub in_path: bool,
    /// `brew list --versions` knows it. Libraries such as nss have no program.
    pub in_brew: bool,
}

/// The row of a package.
pub open spec fn package_of(pkg: Seq<char>, facts: PackageFacts) -> ItemView {
    if facts.in_path {
        row(pkg, Status::Okay, "installed"@)
    } else if facts.in_brew {
        row(pkg, Status::Okay, "installed (via brew)"@)
    } else {
        row(pkg, Status::Warn, "missing — `henk init` will offer `brew install "@ + pkg + "`"@)
    }
}

/// `brew list --versions <pkg>`.
pub open spec fn brew_list_query(pkg: Seq<char>) -> InvocationView {
    command("brew"@, seq!["list"@, "--versions"@, pkg])
}

/// The command that tells whether Homebrew installed a package.
pub fn brew_list_command(pkg: &str) -> (r: Invocation)
    ensures
        r@ == brew_list_query(pkg@),
{
    Invocation::new("brew").arg("list").arg("--versions").arg(pkg)
}

/// Is a package installed?
fn probe_pkg(pkg: &'static str, facts: &PackageFacts) -> (r: DetectionItem)
    ensures
        r@ == package_of(pkg@, *facts),
{
    if facts.in_path {
        return item(pkg, Status::Okay, "installed".to_owned());
    }
    if facts.in_brew {
        return item(pkg, Status::Okay, "installed (via brew)".to_owned());
    }
    item(
        pkg,
        Status::Warn,
        "missing — `henk init` will offer `brew install ".to_owned().concat(pkg).concat("`"),
    )
}

/// The mkcert row.
pub fn probe_mkcert(facts: &PackageFacts) -> (r: DetectionItem)
    ensures
        r@ == package_of("mkcert"@, *facts),
{
    probe_pkg("mkcert", facts)
}

/// The nss row.
pub fn probe_nss(facts: &PackageFacts) -> (r: DetectionItem)
    ensures
        r@ == package_of("nss"@, *facts),
{
    probe_pkg("nss", facts)
}

/// The dnsmasq row.
pub fn probe_dnsmasq(facts: &PackageFacts) -> (r: DetectionItem)
    ensures
        r@ == package_of("dnsmasq"@, *facts),
{
    probe_pkg("dnsmasq", facts)
}

/// A missing Homebrew blocks. One that is there never does: it is fine when it
/// tells its version, which is then shown, and a warning when it does not.
pub proof fn law_homebrew_row(in_path: bool, version: Reply)
    ensures
        homebrew_of(in_path, version).status == Status::Block <==> !in_path,
        homebrew_of(in_path, version).status == Status::Okay <==> in_path && version.succeeded(),
        homebrew_of(in_path, version).status == Status::Warn <==> in_path && !version.succeeded(),
        in_path && version.succeeded() ==> (first_line_of(version.out()) matches Some(v)
            ==> homebrew_of(in_path, version).detail == v),
{
}

/// A package counts as installed when its program or Homebrew knows it.
/// Otherwise the row warns, and names the package to install.
pub proof fn law_package_row(pkg: Seq<char>, facts: PackageFacts)
    ensures
        package_of(pkg, facts).name == pkg,
        package_of(pkg, facts).status == Status::Okay <==> facts.in_path || facts.in_brew,
        package_of(pkg, facts).status == Status::Warn <==> !facts.in_path && !facts.in_brew,
        !facts.in_path && !facts.in_brew ==> contains(
            package_of(pkg, facts).detail,
            "brew install "@ + pkg,
        ),
{
    if !facts.in_path && !facts.in_brew {
        reveal_strlit("missing — `henk init` will offer `brew install ");
        reveal_strlit("brew install ");
        let d = "missing — `henk init` will offer `brew install "@ + pkg + "`"@;
        let want = "brew install "@ + pkg;
        let n = "missing — `henk init` will offer `brew install "@.len() as int;
        let k = n - "brew install "@.len();
        assert(d.subrange(k, k + want.len()) =~= want);
        assert(occurs_at(d, want, k));
    }
}

/// Homebrew is asked about the package that is named, and only asked.
pub proof fn law_homebrew_is_only_asked(pkg: Seq<char>)
    ensures
        brew_list_query(pkg).program == "brew"@,
        brew_list_query(pkg).args[0] == "list"@,
        brew_list_query(pkg).args.last() == pkg,
        brew_version_query().args == seq!["--version"@],
{
}

} // verus!
