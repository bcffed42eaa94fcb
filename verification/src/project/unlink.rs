//! `henk unlink`: the reverse of `henk link`.
//!
//! Without a host the whole project goes; with one, that host goes, and the
//! project with it when it was the last. Only files henk wrote are removed, and
//! `.env` lines are left alone.

use vstd::prelude::*;
use vstd::string::*;

use crate::consts::HENK_FILE_HEADER;
use crate::detect::backend::RouteFile;
use crate::paint::{bold, bold_of, green, green_of};
use crate::project::env_file::FileState;
use crate::project::file_provider::lemma_contains_inside;
use crate::project::link::{collect_extra_sans, needs_name, strictly_sorted, with_host};
use crate::project::manifest::{
    host_views, registered, HostEntry, HostView, ManifestView, ProjectManifest,
};
use crate::text::{
    begins, contains, eq, has_text, lemma_contains_either, lemma_contains_itself, occurs_at, texts,
};

verus! {

/// Why a project is not unlinked.
#[derive(Debug, PartialEq, Eq)]
pub enum UnlinkError {
    /// There is no config yet.
    NotInitialised,
    /// The directory has no `.henk.toml`.
    NotLinked,
    /// The host is not one of the project's.
    UnknownHost(String),
    /// The marker file is not henk's; its path.
    ForeignMarker(String),
}

/// The view of an [`UnlinkError`].
pub enum UnlinkErrorView {
    NotInitialised,
    NotLinked,
    UnknownHost(Seq<char>),
    ForeignMarker(Seq<char>),
}

impl View for UnlinkError {
    type V = UnlinkErrorView;

    open spec fn view(&self) -> UnlinkErrorView {
        match self {
            UnlinkError::NotInitialised => UnlinkErrorView::NotInitialised,
            UnlinkError::NotLinked => UnlinkErrorView::NotLinked,
            UnlinkError::UnknownHost(h) => UnlinkErrorView::UnknownHost(h@),
            UnlinkError::ForeignMarker(p) => UnlinkErrorView::ForeignMarker(p@),
        }
    }
}

/// The message of an [`UnlinkError`].
pub open spec fn unlink_error_text(e: UnlinkErrorView) -> Seq<char> {
    match e {
        UnlinkErrorView::NotInitialised =>
            "henk has not been initialised yet — nothing to unlink against"@,
        UnlinkErrorView::NotLinked => "this directory isn't linked — no `.henk.toml` to unlink"@,
        UnlinkErrorView::UnknownHost(h) => "host `"@ + h
            + "` is not registered for this project. Run `henk status` to see linked hosts."@,
        UnlinkErrorView::ForeignMarker(p) => p + " is not managed by henk — refusing to delete"@,
    }
}

impl UnlinkError {
    /// The message shown to the user.
    pub fn message(&self) -> (r: String)
        ensures
            r@ == unlink_error_text(self@),
    {
        match self {
            UnlinkError::NotInitialised =>
                "henk has not been initialised yet — nothing to unlink against".to_owned(),
            UnlinkError::NotLinked =>
                "this directory isn't linked — no `.henk.toml` to unlink".to_owned(),
            UnlinkError::UnknownHost(h) => "host `".to_owned().concat(h.as_str()).concat(
                "` is not registered for this project. Run `henk status` to see linked hosts.",
            ),
            UnlinkError::ForeignMarker(p) => p.clone().concat(
                " is not managed by henk — refusing to delete",
            ),
        }
    }
}

/// The hosts of a list that have another name.
pub open spec fn others(hosts: Seq<HostView>, host: Seq<char>) -> Seq<HostView>
    decreases hosts.len(),
{
    if hosts.len() == 0 {
        seq![]
    } else {
        let before = others(hosts.drop_last(), host);
        if hosts.last().host != host {
            before.push(hosts.last())
        } else {
            before
        }
    }
}

/// The names of a list of hosts.
pub open spec fn names_of(hosts: Seq<HostView>) -> Seq<Seq<char>> {
    hosts.map_values(|h: HostView| h.host)
}

/// What unlinking leaves of a manifest: everything but the named host, or no
/// host at all.
pub open spec fn remaining(m: ManifestView, host: Option<Seq<char>>) -> ManifestView {
    ManifestView {
        hosts: match host {
            Some(h) => others(m.hosts, h),
            None => seq![],
        },
        ..m
    }
}

/// The hosts that unlinking removes.
pub open spec fn removed(m: ManifestView, host: Option<Seq<char>>) -> Seq<Seq<char>> {
    match host {
        Some(h) => seq![h],
        None => names_of(m.hosts),
    }
}

/// A manifest after hosts were removed.
#[derive(Debug)]
pub struct Unlinked {
    pub manifest: ProjectManifest,
    /// The hosts that went.
    pub removed: Vec<String>,
}

/// Keeps the hosts that have another name.
fn keep_others(hosts: Vec<HostEntry>, host: &str) -> (r: Vec<HostEntry>)
    ensures
        host_views(r@) == others(host_views(hosts@), host@),
{
    let ghost all = host_views(hosts@);
    let mut rest = hosts;
    let mut out: Vec<HostEntry> = Vec::new();
    let ghost mut n: int = all.len() as int;
    assert(all.take(n) =~= all);
    proof {
        lemma_others_add(all, Seq::<HostView>::empty(), host@);
        assert(all + Seq::<HostView>::empty() =~= all);
    }
    while rest.len() > 0
        invariant
            0 <= n <= all.len(),
            host_views(rest@) == all.take(n),
            others(all, host@) == others(all.take(n), host@) + host_views(out@),
        decreases rest@.len(),
    {
        let ghost kept = host_views(out@);
        let ghost before = host_views(rest@);
        assert(before.drop_last() =~= all.take(n - 1));
        match rest.pop() {
            Some(h) => {
                assert(h@ == before.last());
                assert(host_views(rest@) =~= all.take(n - 1));
                if !eq(h.host.as_str(), host) {
                    let ghost view = h@;
                    out.insert(0, h);
                    assert(host_views(out@) =~= seq![view] + kept);
                    assert(others(all.take(n), host@) =~= others(all.take(n - 1), host@).push(
                        view,
                    ));
                    assert(others(all.take(n - 1), host@).push(view) + kept =~= others(
                        all.take(n - 1),
                        host@,
                    ) + (seq![view] + kept));
                }
                proof {
                    n = n - 1;
                }
            },
            None => {},
        }
    }
    assert(all.take(0) =~= Seq::<HostView>::empty());
    assert(others(all.take(0), host@) + host_views(out@) =~= host_views(out@));
    out
}

/// Dropping a host from two lists drops it from both together.
proof fn lemma_others_add(a: Seq<HostView>, b: Seq<HostView>, host: Seq<char>)
    ensures
        others(a + b, host) == others(a, host) + others(b, host),
    decreases b.len(),
{
    if b.len() == 0 {
        assert(a + b =~= a);
    } else {
        assert((a + b).drop_last() =~= a + b.drop_last());
        lemma_others_add(a, b.drop_last(), host);
        assert(others(a + b, host) =~= others(a, host) + others(b, host));
    }
}

/// Without a host of the name nothing is dropped; with one, something is.
proof fn lemma_others_len(hosts: Seq<HostView>, host: Seq<char>)
    ensures
        others(hosts, host).len() <= hosts.len(),
        others(hosts, host).len() == hosts.len() <==> !registered(hosts, host),
        !registered(hosts, host) ==> others(hosts, host) == hosts,
        !registered(others(hosts, host), host),
        forall|x: Seq<char>|
            x != host ==> (#[trigger] registered(others(hosts, host), x) <==> registered(hosts, x)),
    decreases hosts.len(),
{
    if hosts.len() > 0 {
        let before = hosts.drop_last();
        let last = hosts.last();
        let n = hosts.len() - 1;
        lemma_others_len(before, host);
        assert(hosts[n] == last);
        assert forall|x: Seq<char>| #[trigger] registered(hosts, x) <==> registered(before, x)
            || last.host == x by {
            if registered(before, x) {
                let i = choose|i: int| 0 <= i < before.len() && (#[trigger] before[i]).host == x;
                assert(hosts[i] == before[i]);
            }
            if registered(hosts, x) && last.host != x {
                let i = choose|i: int| 0 <= i < hosts.len() && (#[trigger] hosts[i]).host == x;
                assert(before[i] == hosts[i]);
            }
        }
        let kept = others(before, host);
        let now = others(hosts, host);
        if last.host != host {
            assert(now == kept.push(last));
            assert forall|x: Seq<char>| #[trigger] registered(now, x) <==> registered(kept, x)
                || last.host == x by {
                if registered(kept, x) {
                    let i = choose|i: int| 0 <= i < kept.len() && (#[trigger] kept[i]).host == x;
                    assert(now[i] == kept[i]);
                }
                assert(now[kept.len() as int] == last);
                if registered(now, x) && last.host != x {
                    let i = choose|i: int| 0 <= i < now.len() && (#[trigger] now[i]).host == x;
                    assert(kept[i] == now[i]);
                }
            }
            if !registered(hosts, host) {
                assert(now =~= hosts);
            }
        } else {
            assert(registered(hosts, host));
        }
    }
}

/// Removes hosts from a manifest. A host that is not registered is an error.
pub fn drop_hosts(manifest: ProjectManifest, host: Option<String>) -> (r: Result<
    Unlinked,
    UnlinkError,
>)
    ensures
        match r {
            Ok(u) => {
                &&& host matches Some(h) ==> registered(manifest@.hosts, h@)
                &&& u.manifest@ == remaining(manifest@, crate::text::opt_text(host))
                &&& texts(u.removed@) == removed(manifest@, crate::text::opt_text(host))
            },
            Err(e) => host matches Some(h) && !registered(manifest@.hosts, h@) && e@
                == UnlinkErrorView::UnknownHost(h@),
        },
{
    let ghost before = manifest@;
    let mut m = manifest;
    let mut gone: Vec<String> = Vec::new();
    match host {
        Some(h) => {
            if !m.has_host(h.as_str()) {
                return Err(UnlinkError::UnknownHost(h));
            }
            m.hosts = keep_others(m.hosts, h.as_str());
            gone.push(h);
            assert(texts(gone@) =~= removed(before, Some(h@)));
            assert(m@ =~= remaining(before, Some(h@)));
            Ok(Unlinked { manifest: m, removed: gone })
        },
        None => {
            let mut i: usize = 0;
            while i < m.hosts.len()
                invariant
                    i <= m.hosts@.len(),
                    before == m@,
                    texts(gone@) =~= names_of(before.hosts).take(i as int),
                decreases m.hosts@.len() - i,
            {
                let ghost past = texts(gone@);
                assert(before.hosts[i as int] == m.hosts@[i as int]@);
                gone.push(m.hosts[i].host.clone());
                assert(texts(gone@) =~= past.push(before.hosts[i as int].host));
                i += 1;
            }
            assert(names_of(before.hosts).take(i as int) =~= names_of(before.hosts));
            m.hosts = Vec::new();
            assert(m@ =~= remaining(before, None));
            Ok(Unlinked { manifest: m, removed: gone })
        },
    }
}

/// What is done after hosts were removed.
#[derive(Debug, Clone, Copy, PartialEq, Eq, Structural)]
pub enum UnlinkAction {
    /// Remove the routing file.
    RemoveRoutes,
    /// Remove the compose override, if it is henk's.
    RemoveOverride,
    /// Remove `.henk.toml`, if it is henk's.
    RemoveMarker,
    /// Write `.henk.toml`.
    SaveManifest,
    /// Write the routing file.
    WriteRoutes,
    /// Issue the certificate again, without the removed hosts.
    IssueCertificate,
    /// Restart the proxy, if it runs.
    RestartProxy,
    /// Print what was removed.
    Summary,
}

/// The steps of an unlink: a project without hosts is torn down, another one is
/// written again.
pub open spec fn unlink_actions(empty: bool) -> Seq<UnlinkAction> {
    (if empty {
        seq![UnlinkAction::RemoveRoutes, UnlinkAction::RemoveOverride, UnlinkAction::RemoveMarker]
    } else {
        seq![UnlinkAction::SaveManifest, UnlinkAction::WriteRoutes]
    }) + seq![
        UnlinkAction::IssueCertificate,
        UnlinkAction::RestartProxy,
        UnlinkAction::Summary,
    ]
}

/// Plans what is done after hosts were removed.
pub fn plan(m: &ProjectManifest) -> (r: Vec<UnlinkAction>)
    ensures
        r@ == unlink_actions(m@.hosts.len() == 0),
{
    let mut out: Vec<UnlinkAction> = Vec::new();
    if m.hosts.len() == 0 {
        out.push(UnlinkAction::RemoveRoutes);
        out.push(UnlinkAction::RemoveOverride);
        out.push(UnlinkAction::RemoveMarker);
    } else {
        out.push(UnlinkAction::SaveManifest);
        out.push(UnlinkAction::WriteRoutes);
    }
    out.push(UnlinkAction::IssueCertificate);
    out.push(UnlinkAction::RestartProxy);
    out.push(UnlinkAction::Summary);
    assert(out@ =~= unlink_actions(m@.hosts.len() == 0));
    out
}

/// Whether `.henk.toml` is to be deleted: not when it is missing. One without
/// henk's header (which an unreadable one does not show) is refused.
pub fn remove_manifest_file(path: &str, file: &FileState) -> (r: Result<bool, UnlinkError>)
    ensures
        match *file {
            FileState::Missing => r == Ok::<bool, UnlinkError>(false),
            FileState::Text(body) => if contains(body@, HENK_FILE_HEADER@) {
                r == Ok::<bool, UnlinkError>(true)
            } else {
                r matches Err(e) && e@ == UnlinkErrorView::ForeignMarker(path@)
            },
            FileState::Unreadable => r matches Err(e) && e@ == UnlinkErrorView::ForeignMarker(
                path@,
            ),
        },
{
    match file {
        FileState::Missing => Ok(false),
        FileState::Text(body) => if has_text(body.as_str(), HENK_FILE_HEADER) {
            Ok(true)
        } else {
            Err(UnlinkError::ForeignMarker(path.to_owned()))
        },
        FileState::Unreadable => Err(UnlinkError::ForeignMarker(path.to_owned())),
    }
}

/// The names a certificate has to list explicitly after an unlink: the dashboard
/// and every host that still has a routing rule.
pub fn collect_remaining_sans(tld: &str, files: &Vec<RouteFile>) -> (r: Vec<String>)
    ensures
        strictly_sorted(texts(r@)),
        forall|x: Seq<char>| #[trigger]
            texts(r@).contains(x) <==> needs_name(tld@, files@, seq![], x),
{
    collect_extra_sans(tld, files, &None)
}

/// One line per removed host.
pub open spec fn removed_text(names: Seq<Seq<char>>) -> Seq<char>
    decreases names.len(),
{
    if names.len() == 0 {
        seq![]
    } else {
        removed_text(names.drop_last()) + "  - https://"@ + names.last() + "\n"@
    }
}

/// The closing summary of an unlink.
pub open spec fn unlink_summary(
    slug: Seq<char>,
    gone: Seq<Seq<char>>,
    project_gone: bool,
    dir: Seq<char>,
) -> Seq<char> {
    "\n"@ + bold_of(green_of("✓ unlinked."@)) + "\n"@ + removed_text(gone) + "\n"@ + (
    if project_gone {
        "  removed `.henk.toml`, the compose override (if we owned it),\n  and ~/.config/henk/dynamic/"@
            + slug
            + ".yml.\n\n  If your `.env` carries an `APP_PORT=...` line we appended, drop it\n  manually — henk doesn't edit existing `.env` lines on unlink ("@
            + dir + ").\n"@
    } else {
        "  remaining hosts re-rendered to ~/.config/henk/dynamic/"@ + slug + ".yml.\n"@
    })
}

/// The closing summary of an unlink.
pub fn print_summary(slug: &str, gone: &Vec<String>, project_gone: bool, dir: &str) -> (r: String)
    ensures
        r@ == unlink_summary(slug@, texts(gone@), project_gone, dir@),
{
    let ghost all = texts(gone@);
    let mut list = String::new();
    let mut i: usize = 0;
    assert(list@ =~= removed_text(all.take(0)));
    while i < gone.len()
        invariant
            i <= gone@.len(),
            all == texts(gone@),
            list@ == removed_text(all.take(i as int)),
        decreases gone@.len() - i,
    {
        assert(all.take(i + 1).drop_last() =~= all.take(i as int));
        assert(all.take(i + 1).last() == gone@[i as int]@);
        list = list.concat("  - https://").concat(gone[i].as_str()).concat("\n");
        i += 1;
    }
    assert(all.take(i as int) =~= all);
    let tail = if project_gone {
        "  removed `.henk.toml`, the compose override (if we owned it),\n  and ~/.config/henk/dynamic/".to_owned().concat(
        slug).concat(
            ".yml.\n\n  If your `.env` carries an `APP_PORT=...` line we appended, drop it\n  manually — henk doesn't edit existing `.env` lines on unlink (",
        ).concat(dir).concat(").\n")
    } else {
        "  remaining hosts re-rendered to ~/.config/henk/dynamic/".to_owned().concat(slug).concat(
            ".yml.\n",
        )
    };
    "\n".to_owned().concat(bold(green("✓ unlinked.").as_str()).as_str()).concat("\n").concat(
        list.as_str(),
    ).concat("\n").concat(tail.as_str())
}

/// Unlinking a host that was just linked gives the manifest back as it was.
pub proof fn law_unlink_undoes_link(m: ManifestView, h: HostView)
    requires
        !registered(m.hosts, h.host),
    ensures
        remaining(with_host(m, h), Some(h.host)) == m,
{
    lemma_others_len(m.hosts, h.host);
    let after = m.hosts.push(h);
    assert(after.drop_last() =~= m.hosts);
    assert(remaining(with_host(m, h), Some(h.host)) =~= m);
}

/// Unlinking a host removes that host and no other one.
pub proof fn law_unlink_removes_one_name(m: ManifestView, host: Seq<char>, other: Seq<char>)
    requires
        other != host,
    ensures
        !registered(remaining(m, Some(host)).hosts, host),
        registered(remaining(m, Some(host)).hosts, other) <==> registered(m.hosts, other),
{
    lemma_others_len(m.hosts, host);
}

/// Unlinking a project that has no host left tears it down: its routes, its
/// override and its marker go. One that has hosts left keeps all three, and its
/// manifest and routes are written again.
pub proof fn law_only_empty_projects_are_torn_down(m: ManifestView, step: UnlinkAction)
    ensures
        ({
            let all = unlink_actions(m.hosts.len() == 0);
            let teardown = step == UnlinkAction::RemoveRoutes || step
                == UnlinkAction::RemoveOverride || step == UnlinkAction::RemoveMarker;
            let rewrite = step == UnlinkAction::SaveManifest || step == UnlinkAction::WriteRoutes;
            &&& teardown ==> (all.contains(step) <==> m.hosts.len() == 0)
            &&& rewrite ==> (all.contains(step) <==> m.hosts.len() > 0)
            &&& !teardown && !rewrite ==> all.contains(step)
        }),
{
    let all = unlink_actions(m.hosts.len() == 0);
    if m.hosts.len() == 0 {
        assert(all =~= seq![
            UnlinkAction::RemoveRoutes,
            UnlinkAction::RemoveOverride,
            UnlinkAction::RemoveMarker,
            UnlinkAction::IssueCertificate,
            UnlinkAction::RestartProxy,
            UnlinkAction::Summary,
        ]);
        assert(all[0] == UnlinkAction::RemoveRoutes);
        assert(all[1] == UnlinkAction::RemoveOverride);
        assert(all[2] == UnlinkAction::RemoveMarker);
        assert(all[3] == UnlinkAction::IssueCertificate);
        assert(all[4] == UnlinkAction::RestartProxy);
        assert(all[5] == UnlinkAction::Summary);
    } else {
        assert(all =~= seq![
            UnlinkAction::SaveManifest,
            UnlinkAction::WriteRoutes,
            UnlinkAction::IssueCertificate,
            UnlinkAction::RestartProxy,
            UnlinkAction::Summary,
        ]);
        assert(all[0] == UnlinkAction::SaveManifest);
        assert(all[1] == UnlinkAction::WriteRoutes);
        assert(all[2] == UnlinkAction::IssueCertificate);
        assert(all[3] == UnlinkAction::RestartProxy);
        assert(all[4] == UnlinkAction::Summary);
    }
}

/// The certificate is issued again after the routes are gone or written, the
/// proxy is restarted with it, and the summary comes last.
pub proof fn law_unlink_ends_with_a_fresh_certificate(empty: bool, i: int)
    requires
        0 <= i < unlink_actions(empty).len(),
    ensures
        ({
            let all = unlink_actions(empty);
            let n = all.len() as int;
            &&& n >= 3
            &&& all[i] == UnlinkAction::IssueCertificate <==> i == n - 3
            &&& all[i] == UnlinkAction::RestartProxy <==> i == n - 2
            &&& all[i] == UnlinkAction::Summary <==> i == n - 1
        }),
{
}

/// Of the hosts, those with another name stay, each as it was and in their
/// order.
proof fn lemma_others_hold(hosts: Seq<HostView>, host: Seq<char>, i: int)
    requires
        0 <= i < hosts.len(),
        hosts[i].host != host,
    ensures
        others(hosts, host).contains(hosts[i]),
    decreases hosts.len(),
{
    let before = hosts.drop_last();
    if i < before.len() {
        assert(before[i] == hosts[i]);
        lemma_others_hold(before, host, i);
        let was = others(before, host);
        let k = choose|k: int| 0 <= k < was.len() && was[k] == hosts[i];
        assert(others(hosts, host)[k] == hosts[i]);
    } else {
        assert(hosts.last() == hosts[i]);
        assert(others(hosts, host).last() == hosts[i]);
    }
}

/// Unlinking one host leaves every other entry of the manifest as it is;
/// unlinking the project leaves none. The slug and the mode stay.
pub proof fn law_other_hosts_stay(m: ManifestView, host: Seq<char>, i: int)
    requires
        0 <= i < m.hosts.len(),
        m.hosts[i].host != host,
    ensures
        remaining(m, Some(host)).hosts.contains(m.hosts[i]),
        remaining(m, Some(host)).slug == m.slug,
        remaining(m, Some(host)).mode == m.mode,
        remaining(m, None).hosts.len() == 0,
{
    lemma_others_hold(m.hosts, host, i);
}

/// The hosts that are reported as gone are the one asked for, or all the
/// project's in order, and none of them is left.
pub proof fn law_removed_hosts_are_gone(m: ManifestView, host: Option<Seq<char>>, i: int)
    ensures
        ({
            let gone = removed(m, host);
            &&& host matches Some(h) ==> gone == seq![h]
            &&& host is None ==> gone.len() == m.hosts.len() && (0 <= i < m.hosts.len() ==> gone[i]
                == m.hosts[i].host)
            &&& 0 <= i < gone.len() ==> !registered(remaining(m, host).hosts, gone[i])
        }),
{
    if host is Some {
        lemma_others_len(m.hosts, host->0);
    }
}

/// The summary names every host that went, by its URL.
pub proof fn law_summary_names_what_went(
    slug: Seq<char>,
    gone: Seq<Seq<char>>,
    project_gone: bool,
    dir: Seq<char>,
    i: int,
)
    requires
        0 <= i < gone.len(),
    ensures
        contains(unlink_summary(slug, gone, project_gone, dir), "https://"@ + gone[i]),
{
    let head = "\n"@ + bold_of(green_of("✓ unlinked."@)) + "\n"@;
    let all = unlink_summary(slug, gone, project_gone, dir);
    let list = removed_text(gone);
    let tail = all.skip((head + list).len() as int);
    assert(all =~= head + list + tail);
    lemma_removed_named(gone, i);
    lemma_contains_inside(head, list, tail, "https://"@ + gone[i]);
}

/// Every removed host has its line.
proof fn lemma_removed_named(names: Seq<Seq<char>>, i: int)
    requires
        0 <= i < names.len(),
    ensures
        contains(removed_text(names), "https://"@ + names[i]),
    decreases names.len(),
{
    let empty = Seq::<char>::empty();
    let before = removed_text(names.drop_last());
    let url = "https://"@ + names[i];
    let line = "  - https://"@ + names.last() + "\n"@;
    assert(removed_text(names) =~= before + line);
    if i < names.len() - 1 {
        assert(names.drop_last()[i] == names[i]);
        lemma_removed_named(names.drop_last(), i);
        assert(removed_text(names) =~= empty + before + line);
        lemma_contains_inside(empty, before, line, url);
    } else {
        reveal_strlit("  - https://");
        reveal_strlit("https://");
        reveal_strlit("\n");
        assert(line.subrange(4, 4int + url.len()) =~= url);
        assert(occurs_at(line, url, 4));
        assert(removed_text(names) =~= before + line + empty);
        lemma_contains_inside(before, line, empty, url);
    }
}

/// A message names the host that is not registered, and the marker that is not
/// henk's.
pub proof fn law_refusals_name_their_reason(host: Seq<char>, path: Seq<char>)
    ensures
        contains(unlink_error_text(UnlinkErrorView::UnknownHost(host)), "host `"@ + host),
        begins(unlink_error_text(UnlinkErrorView::ForeignMarker(path)), path),
{
    let first = "host `"@ + host;
    let close = "` is not registered for this project. Run `henk status` to see linked hosts."@;
    lemma_contains_itself(first);
    lemma_contains_either(first, close, first);
    let t = unlink_error_text(UnlinkErrorView::ForeignMarker(path));
    assert(t.subrange(0, path.len() as int) =~= path);
}

/// The hosts that stay keep their order, so the first one left is still the
/// canonical URL.
pub proof fn law_hosts_keep_the_order(a: Seq<HostView>, b: Seq<HostView>, host: Seq<char>)
    ensures
        others(a + b, host) == others(a, host) + others(b, host),
    decreases b.len(),
{
    if b.len() == 0 {
        assert(a + b =~= a);
        assert(others(a, host) + others(b, host) =~= others(a, host));
    } else {
        assert((a + b).drop_last() =~= a + b.drop_last());
        assert((a + b).last() == b.last());
        law_hosts_keep_the_order(a, b.drop_last(), host);
        assert(others(a + b, host) =~= others(a, host) + others(b, host));
    }
}

} // verus!
