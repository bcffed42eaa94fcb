//! `.henk.toml`: the per-project marker file.
//!
//! Carries the host list, the chosen mode (Docker or Host), and enough context
//! to render the compose override and file-provider entry again.

use vstd::prelude::*;
use vstd::string::*;

use crate::consts::{HENK_FILE_HEADER, PROJECT_MANIFEST_VERSION};
use crate::stack::paths::{join, joined};
use crate::text::{begins, eq, opt_text, texts};

verus! {

/// `<project>/.henk.toml`.
pub const FILENAME: &'static str = ".henk.toml";

/// How a project is served.
#[derive(Debug, Clone, Copy, PartialEq, Eq, Structural)]
pub enum ProjectMode {
    /// Containers on the proxy network.
    Docker,
    /// A dev server on the host.
    Host,
}

/// One host a project answers on.
#[derive(Debug, PartialEq, Eq)]
pub struct HostEntry {
    /// Full hostname incl. TLD, e.g. `spatiebalk.test`.
    pub host: String,
    /// Container service name (Docker mode).
    pub service: Option<String>,
    /// Container port the service listens on (Docker mode).
    pub port: Option<u16>,
    /// Backend URL the proxy forwards to (Host mode).
    pub target: Option<String>,
    /// Free-form tags; `vite` marks the Vite HMR sub-host.
    pub flags: Vec<String>,
}

/// The view of a [`HostEntry`].
#[verifier::ext_equal]
pub struct HostView {
    pub host: Seq<char>,
    pub service: Option<Seq<char>>,
    pub port: Option<u16>,
    pub target: Option<Seq<char>>,
    pub flags: Seq<Seq<char>>,
}

impl View for HostEntry {
    type V = HostView;

    open spec fn view(&self) -> HostView {
        HostView {
            host: self.host@,
            service: opt_text(self.service),
            port: self.port,
            target: opt_text(self.target),
            flags: texts(self.flags@),
        }
    }
}

/// The views of a list of hosts.
pub open spec fn host_views(hosts: Seq<HostEntry>) -> Seq<HostView> {
    hosts.map_values(|h: HostEntry| h@)
}

/// A linked project.
#[derive(Debug, PartialEq, Eq)]
pub struct ProjectManifest {
    pub schema_version: u32,
    /// Short slug used in router/service names.
    pub slug: String,
    pub mode: ProjectMode,
    /// The hosts the project answers on. The first one is the canonical URL.
    pub hosts: Vec<HostEntry>,
}

/// The view of a [`ProjectManifest`].
#[verifier::ext_equal]
pub struct ManifestView {
    pub schema_version: u32,
    pub slug: Seq<char>,
    pub mode: ProjectMode,
    pub hosts: Seq<HostView>,
}

impl View for ProjectManifest {
    type V = ManifestView;

    open spec fn view(&self) -> ManifestView {
        ManifestView {
            schema_version: self.schema_version,
            slug: self.slug@,
            mode: self.mode,
            hosts: host_views(self.hosts@),
        }
    }
}

/// Is a host of this name in the list?
pub open spec fn registered(hosts: Seq<HostView>, host: Seq<char>) -> bool {
    exists|i: int| 0 <= i < hosts.len() && (#[trigger] hosts[i]).host == host
}

/// A manifest without hosts.
pub open spec fn unlinked(slug: Seq<char>, mode: ProjectMode) -> ManifestView {
    ManifestView { schema_version: PROJECT_MANIFEST_VERSION, slug, mode, hosts: seq![] }
}

impl ProjectManifest {
    /// A manifest without hosts.
    pub fn new(slug: &str, mode: ProjectMode) -> (r: ProjectManifest)
        ensures
            r@ == unlinked(slug@, mode),
    {
        ProjectManifest {
            schema_version: PROJECT_MANIFEST_VERSION,
            slug: slug.to_owned(),
            mode,
            hosts: Vec::new(),
        }
    }

    /// Path of the manifest inside `dir`.
    pub fn path_in(dir: &str) -> (r: String)
        ensures
            r@ == joined(dir@, FILENAME@),
    {
        join(dir, FILENAME)
    }

    /// Is a host with this name already registered?
    pub fn has_host(&self, host: &str) -> (r: bool)
        ensures
            r == registered(self@.hosts, host@),
    {
        let ghost all = self@.hosts;
        let mut i: usize = 0;
        while i < self.hosts.len()
            invariant
                i <= self.hosts@.len(),
                all == host_views(self.hosts@),
                forall|j: int| 0 <= j < i ==> (#[trigger] all[j]).host != host@,
            decreases self.hosts@.len() - i,
        {
            assert(all[i as int] == self.hosts@[i as int]@);
            if eq(self.hosts[i].host.as_str(), host) {
                return true;
            }
            i += 1;
        }
        false
    }

    /// What is written to disk, given the manifest as TOML: henk's header, what
    /// the file is for, a blank line, then the manifest.
    pub fn file_text(body: &str) -> (r: String)
        ensures
            r@ == manifest_text(body@),
    {
        HENK_FILE_HEADER.to_owned().concat(MANIFEST_NOTE).concat(body)
    }
}

/// What follows henk's header in the marker file, with the blank line after it.
pub const MANIFEST_NOTE: &'static str =
    "\n# this file marks the project as linked. Safe to commit or .gitignore.\n\n";

/// The text of the marker file.
pub open spec fn manifest_text(body: Seq<char>) -> Seq<char> {
    HENK_FILE_HEADER@ + MANIFEST_NOTE@ + body
}

/// Whatever the manifest, the marker file begins with henk's header.
pub proof fn law_marker_begins_with_the_header(body: Seq<char>)
    ensures
        begins(manifest_text(body), HENK_FILE_HEADER@),
{
    let t = manifest_text(body);
    assert(t.subrange(0, HENK_FILE_HEADER@.len() as int) =~= HENK_FILE_HEADER@);
}

/// Every host of the list is registered, and no name but theirs is.
pub proof fn law_registered_hosts(hosts: Seq<HostView>, i: int, host: Seq<char>)
    ensures
        0 <= i < hosts.len() ==> registered(hosts, hosts[i].host),
        (forall|j: int| 0 <= j < hosts.len() ==> (#[trigger] hosts[j]).host != host)
            ==> !registered(hosts, host),
{
}

/// A new manifest keeps its slug and mode, and registers no host.
pub proof fn law_new_manifests_have_no_hosts(slug: Seq<char>, mode: ProjectMode, host: Seq<char>)
    ensures
        unlinked(slug, mode).slug == slug,
        unlinked(slug, mode).mode == mode,
        unlinked(slug, mode).hosts.len() == 0,
        !registered(unlinked(slug, mode).hosts, host),
{
}

} // verus!
