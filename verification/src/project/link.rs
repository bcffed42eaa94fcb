//! `henk link`: registers the project in the current directory.
//!
//! The flow asks, decides and writes in turn. What it decides is here: which
//! service answers, whether the link is admitted, whether a Vite sub-host is
//! offered, and which steps follow in which order.

use vstd::prelude::*;
use vstd::string::*;

use crate::detect::backend::{
    law_host_backends_are_probed, probe_port_of, route_slug, slug_of_route, RouteFile,
};
use crate::project::compose::{names_of, ComposeFile};
use crate::project::detect::{
    candidate_views, CandidateView, DetectionView, ProjectDetection, ServiceCandidate,
};
use crate::project::env_file::{append_if_absent, mentions, with_line};
use crate::project::manifest::{
    host_views, registered, unlinked, HostEntry, HostView, ManifestView, ProjectManifest,
    ProjectMode,
};
use crate::project::override_file::{membership_views, MembershipView, ServiceMembership};
use crate::search::{found, found_of, groups, regex_groups};
use crate::stack::paths::join;
use crate::table::{less, Table};
use crate::text::{
    begins, contains, decimal, decimal_u16, eq, lemma_contains_either, lemma_contains_itself,
    lemma_contains_pair, lower, lower_char, lower_of, opt_text, starts_with, texts, to_chars, trim,
    trim_of,
};

verus! {

// ------------------------------------------------------------------- requests

/// What the user asked for.
#[derive(Debug)]
pub struct LinkRequest {
    /// `--add`: one more host for a linked project.
    pub add_only: bool,
    pub host: Option<String>,
    pub service: Option<String>,
    pub port: Option<u16>,
}

/// The view of a [`LinkRequest`].
pub struct RequestView {
    pub add_only: bool,
    pub host: Option<Seq<char>>,
    pub service: Option<Seq<char>>,
    pub port: Option<u16>,
}

impl View for LinkRequest {
    type V = RequestView;

    open spec fn view(&self) -> RequestView {
        RequestView {
            add_only: self.add_only,
            host: opt_text(self.host),
            service: opt_text(self.service),
            port: self.port,
        }
    }
}

/// Why a project is not linked.
#[derive(Debug, PartialEq, Eq)]
pub enum LinkError {
    /// There is no config yet.
    NotInitialised,
    /// The project directory has no usable name.
    NoSlug,
    /// `--add` on a project that isn't linked.
    AddWithoutLink,
    /// The host is already linked.
    AlreadyLinked(String),
    /// No service of the compose file can be reached.
    NoWebService,
    /// A service without a port.
    NoWebPort,
}

/// The view of a [`LinkError`].
pub enum LinkErrorView {
    NotInitialised,
    NoSlug,
    AddWithoutLink,
    AlreadyLinked(Seq<char>),
    NoWebService,
    NoWebPort,
}

impl View for LinkError {
    type V = LinkErrorView;

    open spec fn view(&self) -> LinkErrorView {
        match self {
            LinkError::NotInitialised => LinkErrorView::NotInitialised,
            LinkError::NoSlug => LinkErrorView::NoSlug,
            LinkError::AddWithoutLink => LinkErrorView::AddWithoutLink,
            LinkError::AlreadyLinked(h) => LinkErrorView::AlreadyLinked(h@),
            LinkError::NoWebService => LinkErrorView::NoWebService,
            LinkError::NoWebPort => LinkErrorView::NoWebPort,
        }
    }
}

/// The message of a [`LinkError`].
pub open spec fn link_error_text(e: LinkErrorView) -> Seq<char> {
    match e {
        LinkErrorView::NotInitialised =>
            "henk has not been initialised yet — run `henk init` first"@,
        LinkErrorView::NoSlug => "could not derive slug from project directory name"@,
        LinkErrorView::AddWithoutLink =>
            "`--add` was passed but this project isn't linked yet — run `henk link` first."@,
        LinkErrorView::AlreadyLinked(h) => "host `"@ + h
            + "` is already linked. Use `henk unlink "@ + h
            + "` first if you want to re-register it."@,
        LinkErrorView::NoWebService =>
            "could not find any web-eligible service in your compose file. Make sure at least one service publishes a port on the host (e.g. `ports: [\"80:80\"]`), or pass `--host` after a manual `.henk.toml` edit."@,
        LinkErrorView::NoWebPort => "internal: web_port must accompany web_service"@,
    }
}

impl LinkError {
    /// The message shown to the user.
    pub fn message(&self) -> (r: String)
        ensures
            r@ == link_error_text(self@),
    {
        match self {
            LinkError::NotInitialised =>
                "henk has not been initialised yet — run `henk init` first".to_owned(),
            LinkError::NoSlug => "could not derive slug from project directory name".to_owned(),
            LinkError::AddWithoutLink =>
                "`--add` was passed but this project isn't linked yet — run `henk link` first.".to_owned(),
            LinkError::AlreadyLinked(h) => "host `".to_owned().concat(h.as_str()).concat(
                "` is already linked. Use `henk unlink ",
            ).concat(h.as_str()).concat("` first if you want to re-register it."),
            LinkError::NoWebService =>
                "could not find any web-eligible service in your compose file. Make sure at least one service publishes a port on the host (e.g. `ports: [\"80:80\"]`), or pass `--host` after a manual `.henk.toml` edit.".to_owned(),
            LinkError::NoWebPort => "internal: web_port must accompany web_service".to_owned(),
        }
    }
}

// ----------------------------------------------------------------------- slug

/// A character of a slug: lower case, with `_`, blank and `.` made `-`.
pub open spec fn slug_char(c: char) -> char {
    if c == '_' || c == ' ' || c == '.' {
        '-'
    } else {
        lower_char(c)
    }
}

/// The slug of a directory name.
pub open spec fn slug_of(name: Seq<char>) -> Seq<char> {
    name.map_values(|c: char| slug_char(c))
}

/// The slug of a project whose directory has this name. A directory without a
/// usable name has none.
pub fn derive_slug(name: Option<&str>) -> (r: Result<String, LinkError>)
    ensures
        match name {
            Some(n) => r matches Ok(s) && s@ == slug_of(n@),
            None => r matches Err(e) && e@ == LinkErrorView::NoSlug,
        },
{
    let name = match name {
        Some(n) => n,
        None => return Err(LinkError::NoSlug),
    };
    let low = lower(name);
    let v = to_chars(low.as_str());
    let mut out = String::new();
    let mut i: usize = 0;
    assert(out@ =~= slug_of(name@.take(0)));
    while i < v.len()
        invariant
            v@ == lower_of(name@),
            i <= v@.len(),
            out@ == slug_of(name@.take(i as int)),
        decreases v@.len() - i,
    {
        let c: char = v[i];
        if c == '_' || c == ' ' || c == '.' {
            out.push('-');
        } else {
            out.push(c);
        }
        i += 1;
        assert(out@ =~= slug_of(name@.take(i as int)));
    }
    assert(name@.take(i as int) =~= name@);
    Ok(out)
}

/// A slug holds no `_`, no blank, no `.` and no upper-case letter, and is its
/// own slug.
pub proof fn law_slug_settles(name: Seq<char>, i: int)
    requires
        0 <= i < slug_of(name).len(),
    ensures
        slug_of(name)[i] != '_' && slug_of(name)[i] != ' ' && slug_of(name)[i] != '.',
        !('A' <= slug_of(name)[i] <= 'Z'),
        slug_of(slug_of(name)) == slug_of(name),
{
    assert forall|j: int| 0 <= j < name.len() implies slug_char(#[trigger] slug_of(name)[j])
        == slug_of(name)[j] && slug_of(name)[j] != '_' && slug_of(name)[j] != ' ' && slug_of(
        name,
    )[j] != '.' && !('A' <= slug_of(name)[j] <= 'Z') by {
        assert(slug_of(name)[j] == slug_char(name[j]));
    }
    assert(slug_of(slug_of(name)) =~= slug_of(name));
}

// ------------------------------------------------------------ choosing a service

/// Does the user have to pick a service? Only in Docker mode and without an
/// explicit service: when detection pinned none, or when `--add` has several to
/// choose from.
pub open spec fn must_pick(d: DetectionView, request: RequestView) -> bool {
    &&& request.service is None
    &&& d.mode == ProjectMode::Docker
    &&& d.web_service is None || (request.add_only && d.candidates.len() > 1)
}

/// Decides [`must_pick`].
pub fn needs_pick(d: &ProjectDetection, request: &LinkRequest) -> (r: bool)
    ensures
        r == must_pick(d@, request@),
{
    request.service.is_none() && d.mode == ProjectMode::Docker && (d.web_service.is_none() || (
    request.add_only && d.candidates.len() > 1))
}

/// How a candidate is offered.
pub open spec fn label_of(c: CandidateView) -> Seq<char> {
    c.name + " (:"@ + decimal(c.host_port as nat) + " → :"@ + decimal(c.container_port as nat)
        + ") — "@ + c.rationale
}

/// How a list of candidates is offered.
pub open spec fn labels_of(list: Seq<CandidateView>) -> Seq<Seq<char>> {
    list.map_values(|c: CandidateView| label_of(c))
}

/// How a service is picked.
#[derive(Debug, PartialEq, Eq)]
pub enum Pick {
    /// There is nothing to pick.
    Nothing,
    /// This service and container port.
    Take(String, u16),
    /// This service and container port, because nobody can be asked; with the
    /// notice to print.
    Default(String, u16, String),
    /// Ask, with one label per candidate.
    Ask(Vec<String>),
}

/// The view of a [`Pick`].
#[verifier::ext_equal]
pub enum PickView {
    Nothing,
    Take(Seq<char>, u16),
    Default(Seq<char>, u16, Seq<char>),
    Ask(Seq<Seq<char>>),
}

impl View for Pick {
    type V = PickView;

    open spec fn view(&self) -> PickView {
        match self {
            Pick::Nothing => PickView::Nothing,
            Pick::Take(s, p) => PickView::Take(s@, *p),
            Pick::Default(s, p, n) => PickView::Default(s@, *p, n@),
            Pick::Ask(l) => PickView::Ask(texts(l@)),
        }
    }
}

/// The notice for a choice that nobody was asked about.
pub open spec fn default_notice(c: CandidateView) -> Seq<char> {
    "  ! multiple web-eligible services detected; non-TTY input → defaulting to `"@ + c.name
        + "` on container port "@ + decimal(c.container_port as nat) + " ("@ + c.rationale + ")"@
}

/// How a service is picked among candidates.
pub open spec fn pick_of(list: Seq<CandidateView>, interactive: bool) -> PickView {
    if list.len() == 0 {
        PickView::Nothing
    } else if list.len() == 1 {
        PickView::Take(list[0].name, list[0].container_port)
    } else if !interactive {
        PickView::Default(list[0].name, list[0].container_port, default_notice(list[0]))
    } else {
        PickView::Ask(labels_of(list))
    }
}

/// Says how a service is picked: the only one is taken, the first one when
/// nobody can be asked.
pub fn pick_web_service(candidates: &Vec<ServiceCandidate>, interactive: bool) -> (r: Pick)
    ensures
        r@ == pick_of(candidate_views(candidates@), interactive),
{
    if candidates.len() == 0 {
        return Pick::Nothing;
    }
    assert(candidate_views(candidates@)[0] == candidates@[0]@);
    let c = &candidates[0];
    if candidates.len() == 1 {
        return Pick::Take(c.name.clone(), c.container_port);
    }
    if !interactive {
        let notice =
            "  ! multiple web-eligible services detected; non-TTY input → defaulting to `".to_owned().concat(
        c.name.as_str()).concat("` on container port ").concat(
            decimal_u16(c.container_port).as_str(),
        ).concat(" (").concat(c.rationale.as_str()).concat(")");
        return Pick::Default(c.name.clone(), c.container_port, notice);
    }
    let mut labels: Vec<String> = Vec::new();
    let ghost all = candidate_views(candidates@);
    let mut i: usize = 0;
    assert(texts(labels@) =~= labels_of(all.take(0)));
    while i < candidates.len()
        invariant
            i <= candidates@.len(),
            all == candidate_views(candidates@),
            texts(labels@) == labels_of(all.take(i as int)),
        decreases candidates@.len() - i,
    {
        let ghost before = texts(labels@);
        let k = &candidates[i];
        assert(all[i as int] == k@);
        let label = k.name.clone().concat(" (:").concat(decimal_u16(k.host_port).as_str()).concat(
            " → :",
        ).concat(decimal_u16(k.container_port).as_str()).concat(") — ").concat(
            k.rationale.as_str(),
        );
        let ghost text = label@;
        labels.push(label);
        i += 1;
        assert(texts(labels@) =~= before.push(text));
        assert(labels_of(all.take(i as int)) =~= before.push(text));
    }
    assert(all.take(i as int) =~= all);
    Pick::Ask(labels)
}

/// Index of the first candidate offered under a label, 0 when there is none.
pub open spec fn label_index(list: Seq<CandidateView>, label: Seq<char>, i: int) -> int
    decreases list.len() - i,
{
    if i < 0 || i >= list.len() {
        0
    } else if label_of(list[i]) == label {
        i
    } else {
        label_index(list, label, i + 1)
    }
}

/// The service and port behind the label that was chosen.
pub fn chosen_service(candidates: &Vec<ServiceCandidate>, label: &str) -> (r: Option<(String, u16)>)
    ensures
        match r {
            Some((s, p)) => {
                let list = candidate_views(candidates@);
                let c = list[label_index(list, label@, 0)];
                list.len() > 0 && s@ == c.name && p == c.container_port
            },
            None => candidates@.len() == 0,
        },
{
    if candidates.len() == 0 {
        return None;
    }
    let ghost all = candidate_views(candidates@);
    let mut i: usize = 0;
    while i < candidates.len()
        invariant
            i <= candidates@.len(),
            all == candidate_views(candidates@),
            label_index(all, label@, i as int) == label_index(all, label@, 0),
        decreases candidates@.len() - i,
    {
        let k = &candidates[i];
        assert(all[i as int] == k@);
        let own = k.name.clone().concat(" (:").concat(decimal_u16(k.host_port).as_str()).concat(
            " → :",
        ).concat(decimal_u16(k.container_port).as_str()).concat(") — ").concat(
            k.rationale.as_str(),
        );
        if eq(own.as_str(), label) {
            return Some((k.name.clone(), k.container_port));
        }
        i += 1;
    }
    assert(all[0] == candidates@[0]@);
    Some((candidates[0].name.clone(), candidates[0].container_port))
}

/// The view of an optional choice.
pub open spec fn choice_view(picked: Option<(String, u16)>) -> Option<(Seq<char>, u16)> {
    match picked {
        Some((s, p)) => Some((s@, p)),
        None => None,
    }
}

/// Detection after the user's say: an explicit service wins (with its port, or
/// the detected one), otherwise a pick that was asked for.
pub open spec fn resolved(
    d: DetectionView,
    request: RequestView,
    picked: Option<(Seq<char>, u16)>,
) -> DetectionView {
    if request.service is Some {
        DetectionView {
            web_service: request.service,
            web_port: if request.port is Some {
                request.port
            } else {
                d.web_port
            },
            ..d
        }
    } else if must_pick(d, request) && picked is Some {
        DetectionView { web_service: Some((picked->0).0), web_port: Some((picked->0).1), ..d }
    } else {
        d
    }
}

/// Applies the user's say to what was detected.
pub fn resolve(d: ProjectDetection, request: &LinkRequest, picked: Option<(String, u16)>) -> (r:
    ProjectDetection)
    ensures
        r@ == resolved(d@, request@, choice_view(picked)),
{
    let pick = needs_pick(&d, request);
    let mut d = d;
    match &request.service {
        Some(service) => {
            d.web_service = Some(service.clone());
            if request.port.is_some() {
                d.web_port = request.port;
            }
            d
        },
        None => {
            if pick {
                if let Some((service, port)) = picked {
                    d.web_service = Some(service);
                    d.web_port = Some(port);
                }
            }
            d
        },
    }
}

// ------------------------------------------------------------------- admission

/// The entry that a project gets for a host. A `vite.` host of a Vite project is
/// routed to Vite's own port.
pub open spec fn entry_of(d: DetectionView, host: Seq<char>) -> Result<HostView, LinkErrorView> {
    match d.mode {
        ProjectMode::Docker => match (d.web_service, d.web_port) {
            (None, _) => Err(LinkErrorView::NoWebService),
            (Some(_), None) => Err(LinkErrorView::NoWebPort),
            (Some(service), Some(port)) => {
                let vite = begins(host, "vite."@) && d.vite_detected;
                Ok(
                    HostView {
                        host,
                        service: Some(service),
                        port: Some(
                            if vite {
                                5173u16
                            } else {
                                port
                            },
                        ),
                        target: None,
                        flags: if vite {
                            seq!["vite"@]
                        } else {
                            seq![]
                        },
                    },
                )
            },
        },
        ProjectMode::Host => Ok(
            HostView {
                host,
                service: None,
                port: None,
                target: Some(
                    "http://host.docker.internal:"@ + decimal(
                        (match d.web_port {
                            Some(p) => p,
                            None => 3000u16,
                        }) as nat,
                    ),
                ),
                flags: seq![],
            },
        ),
    }
}

/// The view of a result with a host entry.
pub open spec fn entry_result(r: Result<HostEntry, LinkError>) -> Result<HostView, LinkErrorView> {
    match r {
        Ok(h) => Ok(h@),
        Err(e) => Err(e@),
    }
}

/// Builds the entry that a project gets for a host.
pub fn build_host_entry(d: &ProjectDetection, host: &str) -> (r: Result<HostEntry, LinkError>)
    ensures
        entry_result(r) == entry_of(d@, host@),
{
    match d.mode {
        ProjectMode::Docker => {
            let service = match &d.web_service {
                Some(s) => s.clone(),
                None => return Err(LinkError::NoWebService),
            };
            let port: u16 = match d.web_port {
                Some(p) => p,
                None => return Err(LinkError::NoWebPort),
            };
            let vite = starts_with(host, "vite.") && d.vite_detected;
            let mut flags: Vec<String> = Vec::new();
            if vite {
                flags.push("vite".to_owned());
            }
            assert(texts(flags@) =~= if vite {
                seq!["vite"@]
            } else {
                seq![]
            });
            let port: u16 = if vite {
                5173
            } else {
                port
            };
            Ok(
                HostEntry {
                    host: host.to_owned(),
                    service: Some(service),
                    port: Some(port),
                    target: None,
                    flags,
                },
            )
        },
        ProjectMode::Host => {
            let port: u16 = match d.web_port {
                Some(p) => p,
                None => 3000,
            };
            let flags: Vec<String> = Vec::new();
            assert(texts(flags@) =~= Seq::<Seq<char>>::empty());
            Ok(
                HostEntry {
                    host: host.to_owned(),
                    service: None,
                    port: None,
                    target: Some(
                        "http://host.docker.internal:".to_owned().concat(
                            decimal_u16(port).as_str(),
                        ),
                    ),
                    flags,
                },
            )
        },
    }
}

/// The host to link: the one asked for, otherwise the suggested one.
pub open spec fn new_host_of(d: DetectionView, request: RequestView) -> Seq<char> {
    match request.host {
        Some(h) => h,
        None => d.default_host,
    }
}

/// The manifest with one more host.
pub open spec fn with_host(m: ManifestView, h: HostView) -> ManifestView {
    ManifestView { hosts: m.hosts.push(h), ..m }
}

/// What linking makes of a project's manifest: `--add` needs a linked project, a
/// host is linked once, and a Docker-mode host needs a service with a port.
pub open spec fn admission(
    d: DetectionView,
    request: RequestView,
    m: ManifestView,
) -> Result<ManifestView, LinkErrorView> {
    let host = new_host_of(d, request);
    if request.add_only && m.hosts.len() == 0 {
        Err(LinkErrorView::AddWithoutLink)
    } else if registered(m.hosts, host) {
        Err(LinkErrorView::AlreadyLinked(host))
    } else {
        match entry_of(d, host) {
            Ok(h) => Ok(with_host(m, h)),
            Err(e) => Err(e),
        }
    }
}

/// The manifest that linking starts from: the project's own, otherwise a new
/// one.
pub open spec fn base_manifest(
    existing: Option<ProjectManifest>,
    slug: Seq<char>,
    mode: ProjectMode,
) -> ManifestView {
    match existing {
        Some(m) => m@,
        None => unlinked(slug, mode),
    }
}

/// The view of a result with a manifest.
pub open spec fn manifest_result(r: Result<ProjectManifest, LinkError>) -> Result<
    ManifestView,
    LinkErrorView,
> {
    match r {
        Ok(m) => Ok(m@),
        Err(e) => Err(e@),
    }
}

/// Adds the host to the project's manifest, or says why not.
pub fn register(
    d: &ProjectDetection,
    request: &LinkRequest,
    existing: Option<ProjectManifest>,
    slug: &str,
) -> (r: Result<ProjectManifest, LinkError>)
    ensures
        manifest_result(r) == admission(
            d@,
            request@,
            base_manifest(existing, slug@, d@.mode),
        ),
{
    let mut m = match existing {
        Some(m) => m,
        None => ProjectManifest::new(slug, d.mode),
    };
    if request.add_only && m.hosts.len() == 0 {
        return Err(LinkError::AddWithoutLink);
    }
    let host = match &request.host {
        Some(h) => h.clone(),
        None => d.default_host.clone(),
    };
    if m.has_host(host.as_str()) {
        return Err(LinkError::AlreadyLinked(host));
    }
    let ghost before = m@;
    match build_host_entry(d, host.as_str()) {
        Ok(entry) => {
            let ghost view = entry@;
            m.hosts.push(entry);
            assert(m@ =~= with_host(before, view));
            Ok(m)
        },
        Err(e) => Err(e),
    }
}

/// A linked host is registered, the hosts from before are all kept in their
/// order, and nothing else of the manifest changes.
pub proof fn law_linked_hosts_are_registered(d: DetectionView, request: RequestView, m: ManifestView)
    requires
        admission(d, request, m) is Ok,
    ensures
        ({
            let after = admission(d, request, m)->Ok_0;
            &&& registered(after.hosts, new_host_of(d, request))
            &&& after.hosts.drop_last() == m.hosts
            &&& after.slug == m.slug && after.mode == m.mode && after.schema_version
                == m.schema_version
        }),
{
    let after = admission(d, request, m)->Ok_0;
    let n = m.hosts.len() as int;
    assert(after.hosts[n].host == new_host_of(d, request));
    assert(after.hosts.drop_last() =~= m.hosts);
}

/// Linking keeps the hosts of a project apart.
pub proof fn law_hosts_stay_distinct(d: DetectionView, request: RequestView, m: ManifestView)
    requires
        admission(d, request, m) is Ok,
        distinct_hosts(m.hosts),
    ensures
        distinct_hosts((admission(d, request, m)->Ok_0).hosts),
{
    let after = (admission(d, request, m)->Ok_0).hosts;
    let n = m.hosts.len() as int;
    assert(after[n].host == new_host_of(d, request));
    assert forall|i: int, j: int|
        #![trigger after[i], after[j]]
        0 <= i < j < after.len() implies after[i].host != after[j].host by {
        assert(after[i] == m.hosts[i]);
        if j < n {
            assert(after[j] == m.hosts[j]);
        } else {
            assert(m.hosts[i].host != new_host_of(d, request));
        }
    }
}

/// No host occurs twice.
pub open spec fn distinct_hosts(hosts: Seq<HostView>) -> bool {
    forall|i: int, j: int|
        #![trigger hosts[i], hosts[j]]
        0 <= i < j < hosts.len() ==> hosts[i].host != hosts[j].host
}

/// Linking the same host twice is refused.
pub proof fn law_relinking_is_refused(d: DetectionView, request: RequestView, m: ManifestView)
    requires
        admission(d, request, m) is Ok,
    ensures
        admission(d, request, admission(d, request, m)->Ok_0) == Err::<ManifestView, LinkErrorView>(
            LinkErrorView::AlreadyLinked(new_host_of(d, request)),
        ),
{
    law_linked_hosts_are_registered(d, request, m);
}

// -------------------------------------------------------------------- Vite offer

/// Is a host flagged as a Vite sub-host?
pub open spec fn has_vite_flag(h: HostView) -> bool {
    exists|i: int| 0 <= i < h.flags.len() && #[trigger] h.flags[i] == "vite"@
}

/// Is any host of the list a Vite sub-host?
pub open spec fn any_vite(hosts: Seq<HostView>) -> bool {
    exists|i: int| 0 <= i < hosts.len() && has_vite_flag(#[trigger] hosts[i])
}

/// The Vite sub-host to offer: on a fresh link of a Docker-mode Vite project
/// that has none yet and does not use the name.
pub open spec fn vite_offer_of(
    d: DetectionView,
    add_only: bool,
    hosts: Seq<HostView>,
    new_host: Seq<char>,
) -> Option<Seq<char>> {
    let vite_host = "vite."@ + new_host;
    if !add_only && d.vite_detected && d.mode == ProjectMode::Docker && !any_vite(hosts)
        && !registered(hosts, vite_host) {
        Some(vite_host)
    } else {
        None
    }
}

/// Is a host flagged as a Vite sub-host?
fn is_vite(h: &HostEntry) -> (r: bool)
    ensures
        r == has_vite_flag(h@),
{
    let ghost flags = h@.flags;
    let mut i: usize = 0;
    while i < h.flags.len()
        invariant
            i <= h.flags@.len(),
            flags == texts(h.flags@),
            flags == h@.flags,
            forall|j: int| 0 <= j < i ==> #[trigger] flags[j] != "vite"@,
        decreases h.flags@.len() - i,
    {
        assert(flags[i as int] == h.flags@[i as int]@);
        if eq(h.flags[i].as_str(), "vite") {
            return true;
        }
        i += 1;
    }
    false
}

/// The Vite sub-host to offer, if any.
pub fn vite_offer(d: &ProjectDetection, add_only: bool, m: &ProjectManifest, new_host: &str) -> (r:
    Option<String>)
    ensures
        opt_text(r) == vite_offer_of(d@, add_only, m@.hosts, new_host@),
{
    let ghost all = m@.hosts;
    let mut i: usize = 0;
    let mut taken = false;
    while i < m.hosts.len()
        invariant
            i <= m.hosts@.len(),
            all == host_views(m.hosts@),
            taken == exists|j: int| 0 <= j < i && has_vite_flag(#[trigger] all[j]),
        decreases m.hosts@.len() - i,
    {
        assert(all[i as int] == m.hosts@[i as int]@);
        if is_vite(&m.hosts[i]) {
            taken = true;
        }
        i += 1;
    }
    let vite_host = "vite.".to_owned().concat(new_host);
    if !add_only && d.vite_detected && d.mode == ProjectMode::Docker && !taken && !m.has_host(
        vite_host.as_str(),
    ) {
        Some(vite_host)
    } else {
        None
    }
}

/// The manifest after the user accepted the offer: the sub-host is routed to
/// Vite's port of the first host's service. Without such a service nothing is
/// added.
pub open spec fn vite_added(m: ManifestView, vite_host: Seq<char>) -> ManifestView {
    if m.hosts.len() > 0 && m.hosts[0].service is Some {
        with_host(
            m,
            HostView {
                host: vite_host,
                service: m.hosts[0].service,
                port: Some(5173u16),
                target: None,
                flags: seq!["vite"@],
            },
        )
    } else {
        m
    }
}

/// Adds the Vite sub-host that the user accepted; says whether it did.
pub fn accept_vite(m: &mut ProjectManifest, vite_host: &str) -> (r: bool)
    ensures
        final(m)@ == vite_added(old(m)@, vite_host@),
        r == (old(m)@.hosts.len() > 0 && old(m)@.hosts[0].service is Some),
{
    let ghost before = m@;
    if m.hosts.len() == 0 {
        return false;
    }
    assert(before.hosts[0] == m.hosts@[0]@);
    let service = match &m.hosts[0].service {
        Some(s) => s.clone(),
        None => return false,
    };
    let mut flags: Vec<String> = Vec::new();
    flags.push("vite".to_owned());
    assert(texts(flags@) =~= seq!["vite"@]);
    let entry = HostEntry {
        host: vite_host.to_owned(),
        service: Some(service),
        port: Some(5173),
        target: None,
        flags,
    };
    let ghost view = entry@;
    m.hosts.push(entry);
    assert(m@ =~= with_host(before, view));
    true
}

/// The answers that mean yes: nothing, `y` or `yes`, whatever the case.
pub open spec fn means_yes(answer: Seq<char>) -> bool {
    let a = lower_of(trim_of(answer));
    a.len() == 0 || a == "y"@ || a == "yes"@
}

/// Decides [`means_yes`].
pub fn accepted(answer: &str) -> (r: bool)
    ensures
        r == means_yes(answer@),
{
    let a = lower(trim(answer).as_str());
    a.as_str().is_empty() || eq(a.as_str(), "y") || eq(a.as_str(), "yes")
}

// --------------------------------------------------------------------- services

/// The services that a list of hosts names, each once, in order of their first
/// mention.
pub open spec fn services_in(hosts: Seq<HostView>) -> Seq<Seq<char>>
    decreases hosts.len(),
{
    if hosts.len() == 0 {
        seq![]
    } else {
        let before = services_in(hosts.drop_last());
        match hosts.last().service {
            Some(s) => if before.contains(s) {
                before
            } else {
                before.push(s)
            },
            None => before,
        }
    }
}

/// The networks that a service has in the compose file; none when either is
/// missing.
pub open spec fn networks_of(compose: Option<ComposeFile>, service: Seq<char>) -> Seq<Seq<char>> {
    match compose {
        Some(cf) => if cf.services@.dom().contains(service) {
            names_of(cf.services@[service].networks)
        } else {
            seq![]
        },
        None => seq![],
    }
}

/// The services that have to join the proxy network.
pub open spec fn memberships_of(
    compose: Option<ComposeFile>,
    hosts: Seq<HostView>,
) -> Seq<MembershipView> {
    services_in(hosts).map_values(
        |s: Seq<char>|
            MembershipView { service: s, existing_networks: networks_of(compose, s) },
    )
}

/// A compose file whose services can be looked up.
pub open spec fn compose_wf(compose: Option<ComposeFile>) -> bool {
    compose matches Some(cf) ==> cf.services.wf()
}

/// The networks that a service has in the compose file.
pub fn read_service_networks(compose: &Option<ComposeFile>, service: &str) -> (r: Vec<String>)
    requires
        compose_wf(*compose),
    ensures
        texts(r@) == networks_of(*compose, service@),
{
    if let Some(cf) = compose {
        if let Some(svc) = cf.services.get(service) {
            return svc.network_names();
        }
    }
    let none: Vec<String> = Vec::new();
    assert(texts(none@) =~= Seq::<Seq<char>>::empty());
    none
}

/// Is the text in the list?
fn lists(list: &Vec<String>, t: &str) -> (r: bool)
    ensures
        r == texts(list@).contains(t@),
{
    let ghost all = texts(list@);
    let mut i: usize = 0;
    while i < list.len()
        invariant
            i <= list@.len(),
            all == texts(list@),
            forall|j: int| 0 <= j < i ==> all[j] != t@,
        decreases list@.len() - i,
    {
        assert(all[i as int] == list@[i as int]@);
        if eq(list[i].as_str(), t) {
            assert(all.contains(t@));
            return true;
        }
        i += 1;
    }
    false
}

/// The services that a manifest names, each once.
fn named_services(m: &ProjectManifest) -> (r: Vec<String>)
    ensures
        texts(r@) == services_in(m@.hosts),
{
    let ghost all = m@.hosts;
    let mut seen: Vec<String> = Vec::new();
    let mut i: usize = 0;
    assert(texts(seen@) =~= services_in(all.take(0)));
    while i < m.hosts.len()
        invariant
            i <= m.hosts@.len(),
            all == host_views(m.hosts@),
            texts(seen@) == services_in(all.take(i as int)),
        decreases m.hosts@.len() - i,
    {
        assert(all.take(i + 1).drop_last() =~= all.take(i as int));
        assert(all.take(i + 1).last() == m.hosts@[i as int]@);
        let ghost before = texts(seen@);
        if let Some(s) = &m.hosts[i].service {
            if !lists(&seen, s.as_str()) {
                seen.push(s.clone());
                assert(texts(seen@) =~= before.push(s@));
            }
        }
        i += 1;
    }
    assert(all.take(i as int) =~= all);
    seen
}

/// The services that have to join the proxy network, in the order of their
/// first mention, so the override is the same on every run.
pub fn build_service_memberships(compose: &Option<ComposeFile>, m: &ProjectManifest) -> (r: Vec<
    ServiceMembership,
>)
    requires
        compose_wf(*compose),
    ensures
        membership_views(r@) == memberships_of(*compose, m@.hosts),
{
    let names = named_services(m);
    let ghost all = services_in(m@.hosts);
    let mut out: Vec<ServiceMembership> = Vec::new();
    let mut i: usize = 0;
    while i < names.len()
        invariant
            i <= names@.len(),
            compose_wf(*compose),
            all == texts(names@),
            all == services_in(m@.hosts),
            membership_views(out@) =~= memberships_of(*compose, m@.hosts).take(i as int),
        decreases names@.len() - i,
    {
        let ghost before = membership_views(out@);
        assert(all[i as int] == names@[i as int]@);
        let member = ServiceMembership {
            service: names[i].clone(),
            existing_networks: read_service_networks(compose, names[i].as_str()),
        };
        let ghost view = member@;
        out.push(member);
        assert(membership_views(out@) =~= before.push(view));
        i += 1;
    }
    assert(memberships_of(*compose, m@.hosts).take(i as int) =~= memberships_of(
        *compose,
        m@.hosts,
    ));
    out
}

// -------------------------------------------------------------------- collisions

/// Ports to suggest in place of :443.
pub const ALT_HTTPS: [u16; 4] = [18443, 28443, 38443, 8443];

/// Ports to suggest in place of :80.
pub const ALT_HTTP: [u16; 8] = [18080, 18081, 18082, 28080, 28081, 8081, 8082, 8083];

/// The ports to suggest, best first.
pub open spec fn alternatives(collided: u16) -> Seq<u16> {
    if collided == 443 {
        ALT_HTTPS@
    } else {
        ALT_HTTP@
    }
}

/// The first port of a list, from `i` on, that is free; the first of all when
/// none is.
pub open spec fn first_free(list: Seq<u16>, free: Seq<u16>, i: int) -> u16
    decreases list.len() - i,
{
    if i < 0 || i >= list.len() {
        list[0]
    } else if free.contains(list[i]) {
        list[i]
    } else {
        first_free(list, free, i + 1)
    }
}

/// The ports to suggest, best first.
pub fn alt_ports(collided: u16) -> (r: Vec<u16>)
    ensures
        r@ == alternatives(collided),
{
    let mut out: Vec<u16> = Vec::new();
    let n: usize = if collided == 443 {
        4
    } else {
        8
    };
    let mut i: usize = 0;
    while i < n
        invariant
            i <= n,
            n == alternatives(collided).len(),
            ALT_HTTPS@.len() == 4,
            ALT_HTTP@.len() == 8,
            out@ =~= alternatives(collided).take(i as int),
        decreases n - i,
    {
        if collided == 443 {
            out.push(ALT_HTTPS[i]);
        } else {
            out.push(ALT_HTTP[i]);
        }
        i += 1;
    }
    assert(alternatives(collided).take(i as int) =~= alternatives(collided));
    out
}

/// Is the port in the list?
fn lists_port(list: &Vec<u16>, port: u16) -> (r: bool)
    ensures
        r == list@.contains(port),
{
    let mut i: usize = 0;
    while i < list.len()
        invariant
            i <= list@.len(),
            forall|j: int| 0 <= j < i ==> list@[j] != port,
        decreases list@.len() - i,
    {
        if list[i] == port {
            assert(list@[i as int] == port);
            return true;
        }
        i += 1;
    }
    false
}

/// The port to suggest as the new `APP_PORT`: the first alternative among the
/// ports that are free, or the first alternative when none is.
pub fn pick_free_alt_port(collided: u16, free: &Vec<u16>) -> (r: u16)
    ensures
        r == first_free(alternatives(collided), free@, 0),
{
    let list = alt_ports(collided);
    let mut i: usize = 0;
    while i < list.len()
        invariant
            i <= list@.len(),
            list@ == alternatives(collided),
            first_free(list@, free@, i as int) == first_free(list@, free@, 0),
        decreases list@.len() - i,
    {
        if lists_port(free, list[i]) {
            return list[i];
        }
        i += 1;
    }
    list[0]
}

/// The suggested port is never one of the proxy's, and it is free whenever any
/// alternative is.
pub proof fn law_alternative_avoids_the_proxy(collided: u16, free: Seq<u16>, i: int)
    ensures
        first_free(alternatives(collided), free, i) != 80,
        first_free(alternatives(collided), free, i) != 443,
        (exists|j: int|
            0 <= i <= j < alternatives(collided).len() && free.contains(
                #[trigger] alternatives(collided)[j],
            )) ==> free.contains(first_free(alternatives(collided), free, i)),
    decreases alternatives(collided).len() - i,
{
    let list = alternatives(collided);
    if collided == 443 {
        assert(list =~= seq![18443u16, 28443u16, 38443u16, 8443u16]);
    } else {
        assert(list =~= seq![
            18080u16,
            18081u16,
            18082u16,
            28080u16,
            28081u16,
            8081u16,
            8082u16,
            8083u16,
        ]);
    }
    if 0 <= i < list.len() && !free.contains(list[i]) {
        law_alternative_avoids_the_proxy(collided, free, i + 1);
    }
}

/// The question about a port collision.
pub open spec fn collision_text(port: u16, alt: u16) -> Seq<char> {
    let p = decimal(port as nat);
    let a = decimal(alt as nat);
    "\n  ! Your web service publishes :"@ + p + " on the host — Traefik also wants :"@ + p
        + ".\n    Suggested fix: append `APP_PORT="@ + a
        + "` to your `.env` so Sail/Compose\n    binds the host port elsewhere. Traefik talks to the container directly,\n    so the URL still works.\n    Append `APP_PORT="@
        + a + "` to .env now? [Y/n] "@
}

/// Asks about a port collision.
pub fn collision_question(port: u16, alt: u16) -> (r: String)
    ensures
        r@ == collision_text(port, alt),
{
    let p = decimal_u16(port);
    let a = decimal_u16(alt);
    "\n  ! Your web service publishes :".to_owned().concat(p.as_str()).concat(
        " on the host — Traefik also wants :",
    ).concat(p.as_str()).concat(".\n    Suggested fix: append `APP_PORT=").concat(
        a.as_str(),
    ).concat(
        "` to your `.env` so Sail/Compose\n    binds the host port elsewhere. Traefik talks to the container directly,\n    so the URL still works.\n    Append `APP_PORT=",
    ).concat(a.as_str()).concat("` to .env now? [Y/n] ")
}

/// What becomes of a port collision.
#[derive(Debug, PartialEq, Eq)]
pub struct CollisionOutcome {
    /// New contents of `.env`, when it is to be written.
    pub env: Option<String>,
    /// What to print.
    pub notice: String,
}

/// What becomes of a port collision: with consent, `APP_PORT` is appended to the
/// project's `.env` unless it is there already.
pub fn handle_port_collision(port: u16, alt: u16, answer: &str, env: &str) -> (r: CollisionOutcome)
    ensures
        opt_text(r.env) == (if means_yes(answer@) && !mentions(env@, "APP_PORT"@) {
            Some(with_line(env@, "APP_PORT"@, decimal(alt as nat)))
        } else {
            None
        }),
        r.notice@ == (if !means_yes(answer@) {
            "    Skipped. You'll need to free :"@ + decimal(port as nat)
                + " yourself before `npm run dev`."@
        } else if mentions(env@, "APP_PORT"@) {
            "    ✓ APP_PORT already set in .env — left untouched"@
        } else {
            "    ✓ appended `APP_PORT="@ + decimal(alt as nat) + "` to .env"@
        }),
{
    if !accepted(answer) {
        return CollisionOutcome {
            env: None,
            notice: "    Skipped. You'll need to free :".to_owned().concat(
                decimal_u16(port).as_str(),
            ).concat(" yourself before `npm run dev`."),
        };
    }
    let a = decimal_u16(alt);
    match append_if_absent(env, "APP_PORT", a.as_str()) {
        Some(text) => CollisionOutcome {
            env: Some(text),
            notice: "    ✓ appended `APP_PORT=".to_owned().concat(a.as_str()).concat(
                "` to .env",
            ),
        },
        None => CollisionOutcome {
            env: None,
            notice: "    ✓ APP_PORT already set in .env — left untouched".to_owned(),
        },
    }
}

// ------------------------------------------------------------- certificate names

/// The hosts in the rules of a routing file, as the regex engine finds them.
pub open spec fn rule_hosts(body: Seq<char>) -> Seq<Seq<char>> {
    found_of(regex_groups(r"Host\(`([^`]+)`\)"@, body))
}

/// Does some routing file have a rule for this host?
pub open spec fn routed(files: Seq<RouteFile>, host: Seq<char>) -> bool {
    exists|i: int|
        0 <= i < files.len() && route_slug((#[trigger] files[i]).name@) is Some && rule_hosts(
            files[i].body@,
        ).contains(host)
}

/// Has the certificate to name this host? The dashboard, every routed host, and
/// every host of the project at hand.
pub open spec fn needs_name(
    tld: Seq<char>,
    files: Seq<RouteFile>,
    hosts: Seq<HostView>,
    host: Seq<char>,
) -> bool {
    host == "traefik."@ + tld || routed(files, host) || registered(hosts, host)
}

/// Sorted, and nothing occurs twice.
pub open spec fn strictly_sorted(list: Seq<Seq<char>>) -> bool {
    forall|i: int, j: int|
        #![trigger list[i], list[j]]
        0 <= i < j < list.len() ==> less(list[i], list[j])
}

/// Adds every host of a list to a set.
fn gather(names: &mut Table<bool>, hosts: &Vec<String>)
    requires
        old(names).wf(),
    ensures
        final(names).wf(),
        forall|x: Seq<char>| #[trigger]
            final(names)@.dom().contains(x) <==> old(names)@.dom().contains(x) || texts(
                hosts@,
            ).contains(x),
{
    let ghost before = names@.dom();
    let ghost all = texts(hosts@);
    let mut i: usize = 0;
    while i < hosts.len()
        invariant
            i <= hosts@.len(),
            names.wf(),
            all == texts(hosts@),
            forall|x: Seq<char>| #[trigger]
                names@.dom().contains(x) <==> before.contains(x) || all.take(i as int).contains(x),
        decreases hosts@.len() - i,
    {
        let ghost was = names@.dom();
        let h = hosts[i].clone();
        let ghost host = h@;
        names.insert(h, true);
        proof {
            let now = all.take(i + 1);
            let past = all.take(i as int);
            assert(now =~= past.push(host));
            assert forall|x: Seq<char>| now.contains(x) <==> past.contains(x) || x == host by {
                if past.contains(x) {
                    let j = choose|j: int| 0 <= j < past.len() && past[j] == x;
                    assert(now[j] == x);
                }
                assert(now[i as int] == host);
                if now.contains(x) && x != host {
                    let j = choose|j: int| 0 <= j < now.len() && now[j] == x;
                    assert(past[j] == x);
                }
            }
            assert forall|x: Seq<char>| #[trigger]
                names@.dom().contains(x) <==> before.contains(x) || now.contains(x) by {
                assert(names@.dom().contains(x) <==> was.contains(x) || x == host);
            }
        }
        i += 1;
    }
    assert(all.take(i as int) =~= all);
}

/// The keys of a table, in order.
fn keys(names: &Table<bool>) -> (r: Vec<String>)
    requires
        names.wf(),
    ensures
        strictly_sorted(texts(r@)),
        forall|x: Seq<char>| #[trigger]
            texts(r@).contains(x) <==> names@.dom().contains(x),
{
    let entries = names.entries();
    let mut out: Vec<String> = Vec::new();
    let mut i: usize = 0;
    while i < entries.len()
        invariant
            i <= entries@.len(),
            entries@ == names.list(),
            out@.len() == i,
            forall|j: int| 0 <= j < i ==> (#[trigger] out@[j])@ == names.key(j),
        decreases entries@.len() - i,
    {
        out.push(entries[i].0.clone());
        i += 1;
    }
    proof {
        let list = texts(out@);
        assert forall|j: int| 0 <= j < list.len() implies #[trigger] list[j] == names.key(j) by {
            assert(list[j] == out@[j]@);
        }
        assert forall|x: Seq<char>| #[trigger]
            list.contains(x) <==> names@.dom().contains(x) by {
            if list.contains(x) {
                let j = choose|j: int| 0 <= j < list.len() && list[j] == x;
                assert(names.is_at(x, j));
            }
            if names@.dom().contains(x) {
                let j = choose|j: int| names.is_at(x, j);
                assert(list[j] == x);
            }
        }
    }
    out
}

/// The hosts of a manifest.
fn host_names(hosts: &Vec<HostEntry>) -> (r: Vec<String>)
    ensures
        forall|x: Seq<char>| #[trigger]
            texts(r@).contains(x) <==> registered(host_views(hosts@), x),
{
    let mut out: Vec<String> = Vec::new();
    let mut i: usize = 0;
    while i < hosts.len()
        invariant
            i <= hosts@.len(),
            out@.len() == i,
            forall|j: int| 0 <= j < i ==> (#[trigger] out@[j])@ == hosts@[j].host@,
        decreases hosts@.len() - i,
    {
        out.push(hosts[i].host.clone());
        i += 1;
    }
    proof {
        let list = texts(out@);
        let all = host_views(hosts@);
        assert forall|x: Seq<char>| #[trigger] list.contains(x) <==> registered(all, x) by {
            if list.contains(x) {
                let j = choose|j: int| 0 <= j < list.len() && list[j] == x;
                assert(list[j] == out@[j]@);
                assert(all[j].host == x);
            }
            if registered(all, x) {
                let j = choose|j: int| 0 <= j < all.len() && (#[trigger] all[j]).host == x;
                assert(list[j] == out@[j]@);
            }
        }
    }
    out
}

/// The hosts that the rules of a list of routing files name.
fn routed_hosts(files: &Vec<RouteFile>) -> (r: Vec<String>)
    ensures
        forall|x: Seq<char>| #[trigger] texts(r@).contains(x) <==> routed(files@, x),
{
    let mut out: Vec<String> = Vec::new();
    let mut i: usize = 0;
    while i < files.len()
        invariant
            i <= files@.len(),
            forall|x: Seq<char>| #[trigger]
                texts(out@).contains(x) <==> routed(files@.take(i as int), x),
        decreases files@.len() - i,
    {
        let ghost past = files@.take(i as int);
        let ghost now = files@.take(i + 1);
        let ghost was = texts(out@);
        let ghost f = files@[i as int];
        let ghost mut fresh: Seq<Seq<char>> = seq![];
        if slug_of_route(files[i].name.as_str()).is_some() {
            let mut hosts = found(groups(r"Host\(`([^`]+)`\)", files[i].body.as_str()));
            proof {
                fresh = texts(hosts@);
            }
            out.append(&mut hosts);
        }
        proof {
            assert(texts(out@) =~= was + fresh);
            assert(now =~= past.push(f));
            assert forall|x: Seq<char>| #[trigger] texts(out@).contains(x) <==> routed(now, x) by {
                if was.contains(x) {
                    let j = choose|j: int|
                        0 <= j < past.len() && route_slug((#[trigger] past[j]).name@) is Some
                            && rule_hosts(past[j].body@).contains(x);
                    assert(now[j] == past[j]);
                    let k = choose|k: int| 0 <= k < was.len() && was[k] == x;
                    assert((was + fresh)[k] == x);
                }
                if fresh.contains(x) {
                    assert(now[i as int] == f);
                    let k = choose|k: int| 0 <= k < fresh.len() && fresh[k] == x;
                    assert((was + fresh)[was.len() + k] == x);
                }
                if routed(now, x) {
                    let j = choose|j: int|
                        0 <= j < now.len() && route_slug((#[trigger] now[j]).name@) is Some
                            && rule_hosts(now[j].body@).contains(x);
                    if j < i {
                        assert(past[j] == now[j]);
                        assert(routed(past, x));
                    }
                }
                if (was + fresh).contains(x) {
                    let k = choose|k: int| 0 <= k < (was + fresh).len() && (was + fresh)[k] == x;
                    if k < was.len() {
                        assert(was[k] == x);
                    } else {
                        assert(fresh[k - was.len()] == x);
                    }
                }
            }
        }
        i += 1;
    }
    assert(files@.take(i as int) =~= files@);
    out
}

/// The hosts of a manifest that may be missing.
pub open spec fn manifest_hosts(manifest: Option<ProjectManifest>) -> Seq<HostView> {
    match manifest {
        Some(m) => m@.hosts,
        None => seq![],
    }
}

/// The names a certificate has to list explicitly, given the hosts that are
/// routed: the dashboard, those hosts, and every host of the project at hand.
/// Sorted, each once.
pub fn certificate_names(
    tld: &str,
    routed_hosts: &Vec<String>,
    manifest: &Option<ProjectManifest>,
) -> (r: Vec<String>)
    ensures
        strictly_sorted(texts(r@)),
        forall|x: Seq<char>| #[trigger]
            texts(r@).contains(x) <==> x == "traefik."@ + tld@ || texts(routed_hosts@).contains(x)
                || registered(manifest_hosts(*manifest), x),
{
    let mut names: Table<bool> = Table::new();
    names.insert("traefik.".to_owned().concat(tld), true);
    gather(&mut names, routed_hosts);
    if let Some(m) = manifest {
        let hosts = host_names(&m.hosts);
        gather(&mut names, &hosts);
    }
    keys(&names)
}

/// The names a certificate has to list explicitly after a link: the dashboard,
/// every host with a routing rule, and every host of the project just linked.
pub fn collect_extra_sans(
    tld: &str,
    files: &Vec<RouteFile>,
    manifest: &Option<ProjectManifest>,
) -> (r: Vec<String>)
    ensures
        strictly_sorted(texts(r@)),
        forall|x: Seq<char>| #[trigger]
            texts(r@).contains(x) <==> needs_name(tld@, files@, manifest_hosts(*manifest), x),
{
    certificate_names(tld, &routed_hosts(files), manifest)
}

// ------------------------------------------------------------------------- steps

/// What is done once a link is admitted.
#[derive(Debug, PartialEq, Eq)]
pub enum LinkAction {
    /// Show what the preflight checks found.
    Preflight,
    /// Put these services on the proxy network; announce where that was written.
    WriteOverride { members: Vec<ServiceMembership>, announce: bool },
    /// Offer another `APP_PORT` in place of this host port.
    FreePort(u16),
    /// Write `.henk.toml`.
    SaveManifest,
    /// Write the routing file.
    WriteRoutes,
    /// Issue the certificate again, with every linked host.
    IssueCertificate,
    /// Restart the proxy, if it runs, so it serves the new certificate.
    RestartProxy,
    /// Print what was linked.
    Summary,
    /// Print the Vite snippet for this host.
    ViteSnippet(String),
    /// Print the bind reminder for this port.
    HostHint(u16),
}

/// The view of a [`LinkAction`].
#[verifier::ext_equal]
pub enum ActionView {
    Preflight,
    WriteOverride { members: Seq<MembershipView>, announce: bool },
    FreePort(u16),
    SaveManifest,
    WriteRoutes,
    IssueCertificate,
    RestartProxy,
    Summary,
    ViteSnippet(Seq<char>),
    HostHint(u16),
}

impl View for LinkAction {
    type V = ActionView;

    open spec fn view(&self) -> ActionView {
        match self {
            LinkAction::Preflight => ActionView::Preflight,
            LinkAction::WriteOverride { members, announce } => ActionView::WriteOverride {
                members: membership_views(members@),
                announce: *announce,
            },
            LinkAction::FreePort(p) => ActionView::FreePort(*p),
            LinkAction::SaveManifest => ActionView::SaveManifest,
            LinkAction::WriteRoutes => ActionView::WriteRoutes,
            LinkAction::IssueCertificate => ActionView::IssueCertificate,
            LinkAction::RestartProxy => ActionView::RestartProxy,
            LinkAction::Summary => ActionView::Summary,
            LinkAction::ViteSnippet(h) => ActionView::ViteSnippet(h@),
            LinkAction::HostHint(p) => ActionView::HostHint(*p),
        }
    }
}

/// The views of a list of actions.
pub open spec fn action_views(list: Seq<LinkAction>) -> Seq<ActionView> {
    list.map_values(|a: LinkAction| a@)
}

/// The steps that only Docker mode takes: the services named join the proxy
/// network, and on a fresh link a port collision is dealt with.
pub open spec fn docker_actions(
    d: DetectionView,
    members: Seq<MembershipView>,
    add_only: bool,
) -> Seq<ActionView> {
    if d.mode == ProjectMode::Docker {
        (if members.len() > 0 {
            seq![ActionView::WriteOverride { members, announce: !add_only }]
        } else {
            seq![]
        }) + (if !add_only && d.port_collision is Some {
            seq![ActionView::FreePort(d.port_collision->0)]
        } else {
            seq![]
        })
    } else {
        seq![]
    }
}

/// The hints at the end: the Vite snippet when a sub-host was added, the bind
/// reminder in Host mode.
pub open spec fn closing_actions(d: DetectionView, vite: Option<Seq<char>>) -> Seq<ActionView> {
    (match vite {
        Some(h) => seq![ActionView::ViteSnippet(h)],
        None => seq![],
    }) + (if d.mode == ProjectMode::Host {
        seq![
            ActionView::HostHint(
                match d.web_port {
                    Some(p) => p,
                    None => 3000u16,
                },
            ),
        ]
    } else {
        seq![]
    })
}

/// The steps every link takes between the two.
pub open spec fn common_actions() -> Seq<ActionView> {
    seq![
        ActionView::SaveManifest,
        ActionView::WriteRoutes,
        ActionView::IssueCertificate,
        ActionView::RestartProxy,
        ActionView::Summary,
    ]
}

/// Everything that is done once a link is admitted, in order.
pub open spec fn link_actions(
    d: DetectionView,
    members: Seq<MembershipView>,
    add_only: bool,
    vite: Option<Seq<char>>,
) -> Seq<ActionView> {
    seq![ActionView::Preflight] + docker_actions(d, members, add_only) + common_actions()
        + closing_actions(d, vite)
}

/// Plans what is done once a link is admitted. `vite` is the sub-host that was
/// added, if any.
pub fn plan(
    d: &ProjectDetection,
    m: &ProjectManifest,
    compose: &Option<ComposeFile>,
    add_only: bool,
    vite: Option<String>,
) -> (r: Vec<LinkAction>)
    requires
        compose_wf(*compose),
    ensures
        action_views(r@) == link_actions(
            d@,
            memberships_of(*compose, m@.hosts),
            add_only,
            opt_text(vite),
        ),
{
    let mut out: Vec<LinkAction> = Vec::new();
    out.push(LinkAction::Preflight);
    let ghost head = seq![ActionView::Preflight];
    let ghost members_view = memberships_of(*compose, m@.hosts);
    let ghost vite_view = opt_text(vite);
    assert(action_views(out@) =~= head);
    let ghost mut first: Seq<ActionView> = seq![];
    let ghost mut second: Seq<ActionView> = seq![];
    if d.mode == ProjectMode::Docker {
        let members = build_service_memberships(compose, m);
        assert(members@.len() == members_view.len());
        if members.len() > 0 {
            let a = LinkAction::WriteOverride { members, announce: !add_only };
            proof {
                first = seq![a@];
            }
            out.push(a);
        }
        if !add_only {
            if let Some(p) = d.port_collision {
                proof {
                    second = seq![ActionView::FreePort(p)];
                }
                out.push(LinkAction::FreePort(p));
            }
        }
    }
    assert(first + second =~= docker_actions(d@, members_view, add_only));
    assert(action_views(out@) =~= head + (first + second));
    let ghost so_far = action_views(out@);
    out.push(LinkAction::SaveManifest);
    out.push(LinkAction::WriteRoutes);
    out.push(LinkAction::IssueCertificate);
    out.push(LinkAction::RestartProxy);
    out.push(LinkAction::Summary);
    assert(action_views(out@) =~= so_far + common_actions());
    let ghost body = action_views(out@);
    let ghost mut third: Seq<ActionView> = seq![];
    let ghost mut fourth: Seq<ActionView> = seq![];
    if let Some(h) = vite {
        proof {
            third = seq![ActionView::ViteSnippet(h@)];
        }
        out.push(LinkAction::ViteSnippet(h));
    }
    if d.mode == ProjectMode::Host {
        let port: u16 = match d.web_port {
            Some(p) => p,
            None => 3000,
        };
        proof {
            fourth = seq![ActionView::HostHint(port)];
        }
        out.push(LinkAction::HostHint(port));
    }
    assert(third + fourth =~= closing_actions(d@, vite_view));
    assert(action_views(out@) =~= body + (third + fourth));
    out
}

/// The preflight findings are shown before anything is written, once.
pub proof fn law_preflight_comes_first(
    d: DetectionView,
    members: Seq<MembershipView>,
    add_only: bool,
    vite: Option<Seq<char>>,
    i: int,
)
    requires
        0 <= i < link_actions(d, members, add_only, vite).len(),
    ensures
        link_actions(d, members, add_only, vite)[i] == ActionView::Preflight <==> i == 0,
{
    let head = seq![ActionView::Preflight];
    let a = docker_actions(d, members, add_only);
    let b = common_actions();
    let c = closing_actions(d, vite);
    let all = head + a + b + c;
    assert(all[0] == ActionView::Preflight);
    if 1 <= i < 1 + a.len() {
        assert(all[i] == a[i - 1]);
    } else if 1 + a.len() <= i < 1 + a.len() + b.len() {
        assert(all[i] == b[i - 1 - a.len()]);
    } else if i >= 1 + a.len() + b.len() {
        assert(all[i] == c[i - 1 - a.len() - b.len()]);
    }
}

/// A Host-mode link never touches the project's compose files or its `.env`.
pub proof fn law_host_mode_leaves_the_project_alone(
    d: DetectionView,
    members: Seq<MembershipView>,
    add_only: bool,
    vite: Option<Seq<char>>,
    i: int,
)
    requires
        d.mode == ProjectMode::Host,
        0 <= i < link_actions(d, members, add_only, vite).len(),
    ensures
        !(link_actions(d, members, add_only, vite)[i] is WriteOverride),
        !(link_actions(d, members, add_only, vite)[i] is FreePort),
{
    let all = link_actions(d, members, add_only, vite);
    let b = common_actions();
    let c = closing_actions(d, vite);
    assert(all =~= seq![ActionView::Preflight] + b + c);
    if 1 <= i < 1 + b.len() {
        assert(all[i] == b[i - 1]);
    } else if i >= 1 + b.len() {
        assert(all[i] == c[i - 1 - b.len()]);
    }
}


// -------------------------------------------------------------- what linking does

/// In Host mode a host leads to the dev server at the detected port, or at 3000
/// when no port was found, and the liveness probe knocks at that same port.
pub proof fn law_host_entry_leads_to_the_detected_port(d: DetectionView, host: Seq<char>)
    requires
        d.mode == ProjectMode::Host,
    ensures
        entry_of(d, host) matches Ok(h) && h.host == host && h.service is None && h.port is None
            && h.flags.len() == 0 && h.target is Some && probe_port_of(h.target->0) == Some(
            match d.web_port {
                Some(p) => p,
                None => 3000u16,
            },
        ),
{
    law_host_backends_are_probed(
        match d.web_port {
            Some(p) => p,
            None => 3000u16,
        },
    );
}

/// In Docker mode a host leads to the chosen service at its container port. Only
/// a `vite.` host of a Vite project goes to port 5173, and only that one is
/// flagged. Without a service or without a port there is no entry.
pub proof fn law_docker_entry_leads_to_the_service(d: DetectionView, host: Seq<char>)
    requires
        d.mode == ProjectMode::Docker,
    ensures
        entry_of(d, host) is Ok <==> d.web_service is Some && d.web_port is Some,
        d.web_service is None ==> entry_of(d, host) == Err::<HostView, LinkErrorView>(
            LinkErrorView::NoWebService,
        ),
        d.web_service is Some && d.web_port is None ==> entry_of(d, host) == Err::<
            HostView,
            LinkErrorView,
        >(LinkErrorView::NoWebPort),
        entry_of(d, host) matches Ok(h) ==> h.host == host && h.target is None && h.service
            == d.web_service && (if d.vite_detected && begins(host, "vite."@) {
            h.port == Some(5173u16) && has_vite_flag(h)
        } else {
            h.port == d.web_port && !has_vite_flag(h)
        }),
{
    if entry_of(d, host) is Ok {
        let h = entry_of(d, host)->Ok_0;
        if d.vite_detected && begins(host, "vite."@) {
            assert(h.flags[0] == "vite"@);
        }
    }
}

/// What linking refuses and what it admits. `--add` needs a project that has a
/// host; a host is linked once; anything else is admitted in Host mode, and in
/// Docker mode as soon as there is a service with a port. The host that is added
/// is the one asked for, else the suggested one, and it stands last.
pub proof fn law_admission(d: DetectionView, request: RequestView, m: ManifestView, i: int)
    ensures
        ({
            let name = match request.host {
                Some(h) => h,
                None => d.default_host,
            };
            let r = admission(d, request, m);
            &&& request.add_only && m.hosts.len() == 0 ==> r == Err::<ManifestView, LinkErrorView>(
                LinkErrorView::AddWithoutLink,
            )
            &&& !(request.add_only && m.hosts.len() == 0) && 0 <= i < m.hosts.len()
                && m.hosts[i].host == name ==> r == Err::<ManifestView, LinkErrorView>(
                LinkErrorView::AlreadyLinked(name),
            )
            &&& !(request.add_only && m.hosts.len() == 0) && (forall|j: int|
                0 <= j < m.hosts.len() ==> (#[trigger] m.hosts[j]).host != name) && (d.mode
                == ProjectMode::Host || (d.web_service is Some && d.web_port is Some)) ==> r is Ok
            &&& r matches Ok(after) ==> after.hosts.len() == m.hosts.len() + 1
                && after.hosts.last().host == name && Ok::<HostView, LinkErrorView>(
                after.hosts.last(),
            ) == entry_of(d, name)
        }),
{
    let name = match request.host {
        Some(h) => h,
        None => d.default_host,
    };
    if 0 <= i < m.hosts.len() && m.hosts[i].host == name {
        assert(registered(m.hosts, name));
    }
}

/// A service given on the command line is used as it is, with the port given
/// beside it, else the detected one. Otherwise a pick counts when detection found
/// no service or `--add` has several to choose from, and nothing else changes
/// what was detected.
pub proof fn law_explicit_service_wins(
    d: DetectionView,
    request: RequestView,
    picked: Option<(Seq<char>, u16)>,
)
    ensures
        ({
            let r = resolved(d, request, picked);
            &&& r.mode == d.mode && r.default_host == d.default_host && r.candidates
                == d.candidates && r.port_collision == d.port_collision && r.vite_detected
                == d.vite_detected
            &&& request.service is Some ==> r.web_service == request.service
            &&& request.service is Some && request.port is Some ==> r.web_port == request.port
            &&& request.service is Some && request.port is None ==> r.web_port == d.web_port
            &&& request.service is None && (d.mode == ProjectMode::Host || picked is None)
                ==> r == d
            &&& request.service is None && d.web_service is Some && !(request.add_only
                && d.candidates.len() > 1) ==> r == d
            &&& request.service is None && d.mode == ProjectMode::Docker && (d.web_service is None
                || (request.add_only && d.candidates.len() > 1)) ==> (picked matches Some(c)
                ==> r.web_service == Some(c.0) && r.web_port == Some(c.1))
        }),
{
}

/// One candidate is taken without a question; several are put to the user, one
/// label each, in order; without a user the first is taken.
pub proof fn law_pick_offers_every_candidate(list: Seq<CandidateView>, interactive: bool, i: int)
    ensures
        list.len() == 0 <==> pick_of(list, interactive) is Nothing,
        list.len() == 1 ==> pick_of(list, interactive) == PickView::Take(
            list[0].name,
            list[0].container_port,
        ),
        list.len() > 1 && !interactive ==> (pick_of(list, interactive) matches PickView::Default(
            s,
            p,
            _,
        ) && s == list[0].name && p == list[0].container_port),
        list.len() > 1 && interactive ==> (pick_of(list, interactive) matches PickView::Ask(labels)
            && labels.len() == list.len() && (0 <= i < list.len() ==> begins(
            labels[i],
            list[i].name + " (:"@ + decimal(list[i].host_port as nat) + " → :"@ + decimal(
                list[i].container_port as nat,
            ) + ") — "@,
        ))),
{
    if list.len() > 1 && interactive && 0 <= i < list.len() {
        let head = list[i].name + " (:"@ + decimal(list[i].host_port as nat) + " → :"@ + decimal(
            list[i].container_port as nat,
        ) + ") — "@;
        assert(labels_of(list)[i] == label_of(list[i]));
        assert(label_of(list[i]).subrange(0, head.len() as int) =~= head);
    }
}

/// The label that was chosen leads back to the first candidate offered under it.
pub proof fn law_label_leads_back(list: Seq<CandidateView>, label: Seq<char>, i: int, k: int)
    requires
        0 <= i <= k < list.len(),
        label_of(list[k]) == label,
        forall|j: int| i <= j < k ==> label_of(#[trigger] list[j]) != label,
    ensures
        label_index(list, label, i) == k,
    decreases k - i,
{
    if i < k {
        assert(label_of(list[i]) != label);
        law_label_leads_back(list, label, i + 1, k);
    }
}

/// A Vite sub-host is offered exactly on a fresh link of a Vite project in Docker
/// mode that has no Vite sub-host and no host of that name, and it is `vite.`
/// before the host just linked.
pub proof fn law_vite_offer(
    d: DetectionView,
    add_only: bool,
    hosts: Seq<HostView>,
    new_host: Seq<char>,
    i: int,
)
    ensures
        ({
            let r = vite_offer_of(d, add_only, hosts, new_host);
            &&& r is Some ==> r == Some("vite."@ + new_host)
            &&& add_only || !d.vite_detected || d.mode == ProjectMode::Host ==> r is None
            &&& 0 <= i < hosts.len() && (has_vite_flag(hosts[i]) || hosts[i].host == "vite."@
                + new_host) ==> r is None
            &&& !add_only && d.vite_detected && d.mode == ProjectMode::Docker && (forall|j: int|
                0 <= j < hosts.len() ==> !has_vite_flag(#[trigger] hosts[j]) && hosts[j].host
                    != "vite."@ + new_host) ==> r is Some
        }),
{
    if 0 <= i < hosts.len() {
        if has_vite_flag(hosts[i]) {
            assert(any_vite(hosts));
        }
        if hosts[i].host == "vite."@ + new_host {
            assert(registered(hosts, "vite."@ + new_host));
        }
    }
}

/// Accepting the Vite sub-host adds one flagged entry, which leads to port 5173
/// of the first host's service; the hosts from before stay.
pub proof fn law_vite_host_leads_to_vite(m: ManifestView, vite_host: Seq<char>)
    ensures
        ({
            let after = vite_added(m, vite_host);
            &&& m.hosts.len() > 0 && m.hosts[0].service is Some ==> after.hosts.len()
                == m.hosts.len() + 1 && after.hosts.drop_last() == m.hosts
                && after.hosts.last().host == vite_host && after.hosts.last().service
                == m.hosts[0].service && after.hosts.last().port == Some(5173u16)
                && after.hosts.last().target is None && has_vite_flag(after.hosts.last())
            &&& m.hosts.len() == 0 || m.hosts[0].service is None ==> after == m
        }),
{
    if m.hosts.len() > 0 && m.hosts[0].service is Some {
        let after = vite_added(m, vite_host);
        assert(after.hosts.drop_last() =~= m.hosts);
        assert(after.hosts.last().flags[0] == "vite"@);
    }
}

/// A lower-case text has no upper-case letter.
proof fn lemma_lower_first(s: Seq<char>)
    requires
        s.len() > 0,
        lower_of(s) == "y"@ || lower_of(s) == "yes"@,
    ensures
        s[0] == 'y' || s[0] == 'Y',
{
    reveal_strlit("y");
    reveal_strlit("yes");
    assert(lower_of(s)[0] == lower_char(s[0]));
}

/// Return alone means yes; an answer that begins with anything but `y` or `Y`
/// means no; `y` and `yes` mean yes in any case.
pub proof fn law_yes_is_said_with_y(answer: Seq<char>)
    ensures
        trim_of(answer).len() == 0 ==> means_yes(answer),
        trim_of(answer).len() > 0 && trim_of(answer)[0] != 'y' && trim_of(answer)[0] != 'Y'
            ==> !means_yes(answer),
        lower_of(trim_of(answer)) == "y"@ || lower_of(trim_of(answer)) == "yes"@ ==> means_yes(
            answer,
        ),
        trim_of(answer).len() > 3 ==> !means_yes(answer),
{
    reveal_strlit("y");
    reveal_strlit("yes");
    let t = trim_of(answer);
    assert(lower_of(t).len() == t.len());
    if t.len() > 0 && means_yes(answer) {
        lemma_lower_first(t);
    }
}

/// The services named are those of the hosts, each once.
proof fn lemma_services_in(hosts: Seq<HostView>)
    ensures
        forall|h: int|
            0 <= h < hosts.len() && (#[trigger] hosts[h]).service is Some ==> services_in(
                hosts,
            ).contains(hosts[h].service->0),
        forall|k: int|
            0 <= k < services_in(hosts).len() ==> exists|h: int|
                0 <= h < hosts.len() && (#[trigger] hosts[h]).service == Some(
                    #[trigger] services_in(hosts)[k],
                ),
        services_in(hosts).no_duplicates(),
    decreases hosts.len(),
{
    if hosts.len() > 0 {
        let before = hosts.drop_last();
        let was = services_in(before);
        let now = services_in(hosts);
        let n = hosts.len() - 1;
        lemma_services_in(before);
        assert forall|h: int|
            0 <= h < hosts.len() && (#[trigger] hosts[h]).service is Some implies now.contains(
            hosts[h].service->0,
        ) by {
            let s = hosts[h].service->0;
            if h < n {
                assert(before[h] == hosts[h]);
                let k = choose|k: int| 0 <= k < was.len() && was[k] == s;
                assert(now[k] == s);
            } else if was.contains(s) {
                assert(now == was);
            } else {
                assert(now[was.len() as int] == s);
            }
        }
        assert forall|k: int| 0 <= k < now.len() implies exists|h: int|
            0 <= h < hosts.len() && (#[trigger] hosts[h]).service == Some(#[trigger] now[k]) by {
            if k < was.len() {
                assert(now[k] == was[k]);
                let h = choose|h: int|
                    0 <= h < before.len() && (#[trigger] before[h]).service == Some(was[k]);
                assert(hosts[h] == before[h]);
            } else {
                assert(hosts[n].service == Some(now[k]));
            }
        }
    }
}

/// In Docker mode, on a fresh link and with `--add` alike, one override is
/// planned as soon as some host names a service, and every service that a host
/// names is among its members.
pub proof fn law_every_named_service_joins(
    d: DetectionView,
    compose: Option<ComposeFile>,
    hosts: Seq<HostView>,
    add_only: bool,
    vite: Option<Seq<char>>,
    h: int,
)
    requires
        d.mode == ProjectMode::Docker,
        0 <= h < hosts.len(),
        hosts[h].service is Some,
    ensures
        ({
            let all = link_actions(d, memberships_of(compose, hosts), add_only, vite);
            exists|i: int, k: int|
                0 <= i < all.len() && #[trigger] all[i] is WriteOverride && 0 <= k
                    < all[i]->members.len() && (#[trigger] all[i]->members[k]).service
                    == hosts[h].service->0
        }),
{
    lemma_services_in(hosts);
    let members = memberships_of(compose, hosts);
    let names = services_in(hosts);
    let all = link_actions(d, members, add_only, vite);
    let s = hosts[h].service->0;
    let k = choose|k: int| 0 <= k < names.len() && names[k] == s;
    assert(members[k].service == s);
    assert(docker_actions(d, members, add_only)[0] is WriteOverride);
    assert(all[1] == docker_actions(d, members, add_only)[0]);
    assert(all[1]->members[k].service == s);
}

/// The override of a link is planned once, and only when a host names a service.
/// Its members are services that hosts name, each once, with the networks they
/// have in the compose file; where it was written is announced on a fresh link.
pub proof fn law_one_override_for_the_named_services(
    d: DetectionView,
    compose: Option<ComposeFile>,
    hosts: Seq<HostView>,
    add_only: bool,
    vite: Option<Seq<char>>,
    i: int,
    j: int,
    k: int,
    l: int,
)
    requires
        0 <= i < link_actions(d, memberships_of(compose, hosts), add_only, vite).len(),
        link_actions(d, memberships_of(compose, hosts), add_only, vite)[i] is WriteOverride,
    ensures
        ({
            let all = link_actions(d, memberships_of(compose, hosts), add_only, vite);
            let members = all[i]->members;
            &&& d.mode == ProjectMode::Docker
            &&& 0 <= j < all.len() && all[j] is WriteOverride ==> i == j
            &&& all[i]->announce == !add_only
            &&& members.len() > 0
            &&& 0 <= k < members.len() ==> exists|h: int|
                0 <= h < hosts.len() && (#[trigger] hosts[h]).service == Some(members[k].service)
            &&& 0 <= k < l < members.len() ==> members[k].service != members[l].service
            &&& 0 <= k < members.len() ==> members[k].existing_networks == (match compose {
                Some(cf) => if cf.services@.dom().contains(members[k].service) {
                    names_of(cf.services@[members[k].service].networks)
                } else {
                    seq![]
                },
                None => seq![],
            })
        }),
{
    let members = memberships_of(compose, hosts);
    let names = services_in(hosts);
    let all = link_actions(d, members, add_only, vite);
    lemma_services_in(hosts);
    lemma_planned(d, members, add_only, vite, i);
    if 0 <= j < all.len() {
        lemma_planned(d, members, add_only, vite, j);
    }
    if 0 <= k < members.len() {
        assert(members[k].service == names[k]);
    }
    if 0 <= l < members.len() {
        assert(members[l].service == names[l]);
    }
}

/// Which step stands where.
proof fn lemma_planned(
    d: DetectionView,
    members: Seq<MembershipView>,
    add_only: bool,
    vite: Option<Seq<char>>,
    i: int,
)
    requires
        0 <= i < link_actions(d, members, add_only, vite).len(),
    ensures
        ({
            let all = link_actions(d, members, add_only, vite);
            let n = 1 + docker_actions(d, members, add_only).len();
            &&& i == 0 ==> all[i] is Preflight
            &&& 0 < i < n ==> (all[i] == ActionView::WriteOverride { members, announce: !add_only }
                && i == 1 && members.len() > 0 && d.mode == ProjectMode::Docker) || (all[i]
                == ActionView::FreePort(d.port_collision->0) && i == n - 1 && d.port_collision
                is Some && !add_only && d.mode == ProjectMode::Docker)
            &&& i == n ==> all[i] is SaveManifest
            &&& i == n + 1 ==> all[i] is WriteRoutes
            &&& i == n + 2 ==> all[i] is IssueCertificate
            &&& i == n + 3 ==> all[i] is RestartProxy
            &&& i == n + 4 ==> all[i] is Summary
            &&& i >= n + 5 ==> (vite is Some && i == n + 5 && all[i] == ActionView::ViteSnippet(
                vite->0,
            )) || (d.mode == ProjectMode::Host && i == all.len() - 1 && all[i]
                == ActionView::HostHint(
                match d.web_port {
                    Some(p) => p,
                    None => 3000u16,
                },
            ))
            &&& all.len() >= n + 5
        }),
{
    let head = seq![ActionView::Preflight];
    let a = docker_actions(d, members, add_only);
    let b = common_actions();
    let c = closing_actions(d, vite);
    let all = head + a + b + c;
    assert(all == link_actions(d, members, add_only, vite));
    if 1 <= i < 1 + a.len() {
        assert(all[i] == a[i - 1]);
    } else if 1 + a.len() <= i < 1 + a.len() + b.len() {
        assert(all[i] == b[i - 1 - a.len()]);
    } else if i >= 1 + a.len() + b.len() {
        assert(all[i] == c[i - 1 - a.len() - b.len()]);
    }
}

/// Every link saves the manifest, writes the routes, issues the certificate,
/// restarts the proxy and prints the summary, in this order and each once: a
/// certificate is issued for routes that are written, and the proxy is restarted
/// with a certificate that is issued.
pub proof fn law_link_steps_come_in_order(
    d: DetectionView,
    members: Seq<MembershipView>,
    add_only: bool,
    vite: Option<Seq<char>>,
)
    ensures
        ({
            let all = link_actions(d, members, add_only, vite);
            exists|n: int|
                0 < n && n + 4 < all.len() && #[trigger] all[n] is SaveManifest && all[n + 1]
                    is WriteRoutes && all[n + 2] is IssueCertificate && all[n + 3] is RestartProxy
                    && all[n + 4] is Summary && (forall|j: int|
                    0 < j < n ==> #[trigger] all[j] is WriteOverride || all[j] is FreePort) && (
                forall|j: int|
                    n + 4 < j < all.len() ==> #[trigger] all[j] is ViteSnippet || all[j]
                        is HostHint)
        }),
{
    let all = link_actions(d, members, add_only, vite);
    let n = 1 + docker_actions(d, members, add_only).len() as int;
    lemma_planned(d, members, add_only, vite, 0);
    assert forall|j: int| 0 < j < n implies #[trigger] all[j] is WriteOverride || all[j]
        is FreePort by {
        lemma_planned(d, members, add_only, vite, j);
    }
    assert forall|j: int| n + 4 < j < all.len() implies #[trigger] all[j] is ViteSnippet
        || all[j] is HostHint by {
        lemma_planned(d, members, add_only, vite, j);
    }
    lemma_planned(d, members, add_only, vite, n);
    lemma_planned(d, members, add_only, vite, n + 1);
    lemma_planned(d, members, add_only, vite, n + 2);
    lemma_planned(d, members, add_only, vite, n + 3);
    lemma_planned(d, members, add_only, vite, n + 4);
    assert(all[n] is SaveManifest);
}

/// A colliding port is dealt with exactly on a fresh Docker-mode link that has
/// one; the Vite snippet is printed exactly for the sub-host that was added; the
/// bind reminder is printed exactly in Host mode, for the port that is routed to.
pub proof fn law_link_hints(
    d: DetectionView,
    members: Seq<MembershipView>,
    add_only: bool,
    vite: Option<Seq<char>>,
    port: u16,
    host: Seq<char>,
)
    ensures
        ({
            let all = link_actions(d, members, add_only, vite);
            &&& all.contains(ActionView::FreePort(port)) <==> d.mode == ProjectMode::Docker
                && !add_only && d.port_collision == Some(port)
            &&& all.contains(ActionView::ViteSnippet(host)) <==> vite == Some(host)
            &&& all.contains(ActionView::HostHint(port)) <==> d.mode == ProjectMode::Host && (
            d.web_port == Some(port) || (d.web_port is None && port == 3000))
        }),
{
    let all = link_actions(d, members, add_only, vite);
    let a = docker_actions(d, members, add_only);
    let n = 1 + a.len() as int;
    if all.contains(ActionView::FreePort(port)) {
        let i = choose|i: int| 0 <= i < all.len() && all[i] == ActionView::FreePort(port);
        lemma_planned(d, members, add_only, vite, i);
    }
    if all.contains(ActionView::ViteSnippet(host)) {
        let i = choose|i: int| 0 <= i < all.len() && all[i] == ActionView::ViteSnippet(host);
        lemma_planned(d, members, add_only, vite, i);
    }
    if all.contains(ActionView::HostHint(port)) {
        let i = choose|i: int| 0 <= i < all.len() && all[i] == ActionView::HostHint(port);
        lemma_planned(d, members, add_only, vite, i);
    }
    if d.mode == ProjectMode::Docker && !add_only && d.port_collision == Some(port) {
        assert(a.last() == ActionView::FreePort(port));
        assert(all[n - 1] == a.last());
    }
    let c = closing_actions(d, vite);
    assert(all.len() == n + 5 + c.len());
    if vite == Some(host) {
        assert(c[0] == ActionView::ViteSnippet(host));
        assert(all[n + 5] == c[0]);
    }
    if d.mode == ProjectMode::Host && (d.web_port == Some(port) || (d.web_port is None && port
        == 3000)) {
        assert(c.last() == ActionView::HostHint(port));
        assert(all[all.len() - 1] == c.last());
    }
}

/// The suggested port is an alternative for the one that collides: the first
/// free one, or the first of all when none is free.
pub proof fn law_first_free_alternative(collided: u16, free: Seq<u16>, i: int, k: int)
    requires
        0 <= i <= k <= alternatives(collided).len(),
        forall|j: int| i <= j < k ==> !free.contains(#[trigger] alternatives(collided)[j]),
    ensures
        k < alternatives(collided).len() && free.contains(alternatives(collided)[k])
            ==> first_free(alternatives(collided), free, i) == alternatives(collided)[k],
        k == alternatives(collided).len() ==> first_free(alternatives(collided), free, i)
            == alternatives(collided)[0],
    decreases k - i,
{
    if i < k {
        assert(!free.contains(alternatives(collided)[i]));
        law_first_free_alternative(collided, free, i + 1, k);
    }
}

/// The alternatives to :443 end in 443, those to any other port end in 80 to 83.
pub proof fn law_alternatives_resemble_the_port(collided: u16, free: Seq<u16>, i: int)
    ensures
        collided == 443 ==> first_free(alternatives(collided), free, i) % 1000 == 443,
        collided != 443 ==> 80 <= first_free(alternatives(collided), free, i) % 1000 <= 83,
    decreases alternatives(collided).len() - i,
{
    let list = alternatives(collided);
    if collided == 443 {
        assert(list =~= seq![18443u16, 28443u16, 38443u16, 8443u16]);
    } else {
        assert(list =~= seq![
            18080u16,
            18081u16,
            18082u16,
            28080u16,
            28081u16,
            8081u16,
            8082u16,
            8083u16,
        ]);
    }
    if 0 <= i < list.len() && !free.contains(list[i]) {
        law_alternatives_resemble_the_port(collided, free, i + 1);
    }
}

/// The certificate has to name the dashboard, every host of the project at hand
/// and every host that a routing file has a rule for, and no other.
pub proof fn law_certificate_has_every_name(
    tld: Seq<char>,
    files: Seq<RouteFile>,
    hosts: Seq<HostView>,
    i: int,
    k: int,
    host: Seq<char>,
)
    ensures
        needs_name(tld, files, hosts, "traefik."@ + tld),
        0 <= i < hosts.len() ==> needs_name(tld, files, hosts, hosts[i].host),
        0 <= k < files.len() && route_slug(files[k].name@) is Some && found_of(
            regex_groups(r"Host\(`([^`]+)`\)"@, files[k].body@),
        ).contains(host) ==> needs_name(tld, files, hosts, host),
        needs_name(tld, files, hosts, host) ==> host == "traefik."@ + tld || registered(
            hosts,
            host,
        ) || exists|j: int|
            0 <= j < files.len() && route_slug((#[trigger] files[j]).name@) is Some && found_of(
                regex_groups(r"Host\(`([^`]+)`\)"@, files[j].body@),
            ).contains(host),
{
}

/// The user is asked for a service only in Docker mode and when none was named:
/// when detection settled on none, or when `--add` leaves a choice.
pub proof fn law_service_is_asked_for(d: DetectionView, request: RequestView)
    ensures
        request.service is Some ==> !must_pick(d, request),
        d.mode == ProjectMode::Host ==> !must_pick(d, request),
        request.service is None && d.mode == ProjectMode::Docker && d.web_service is None
            ==> must_pick(d, request),
        request.service is None && d.mode == ProjectMode::Docker && request.add_only
            && d.candidates.len() > 1 ==> must_pick(d, request),
        d.web_service is Some && !request.add_only ==> !must_pick(d, request),
        d.web_service is Some && d.candidates.len() <= 1 ==> !must_pick(d, request),
{
}

/// The question about a collision names the port that collides and the line that
/// would be appended.
pub proof fn law_collision_question(port: u16, alt: u16)
    ensures
        contains(
            collision_text(port, alt),
            "\n  ! Your web service publishes :"@ + decimal(port as nat),
        ),
        contains(
            collision_text(port, alt),
            ".\n    Suggested fix: append `APP_PORT="@ + decimal(alt as nat),
        ),
{
    let p = decimal(port as nat);
    let a = decimal(alt as nat);
    let mid = "` to your `.env` so Sail/Compose\n    binds the host port elsewhere. Traefik talks to the container directly,\n    so the URL still works.\n    Append `APP_PORT="@;
    let first = "\n  ! Your web service publishes :"@ + p;
    let t1 = first + " on the host — Traefik also wants :"@;
    let t2 = t1 + p;
    let t3 = t2 + ".\n    Suggested fix: append `APP_PORT="@;
    let t4 = t3 + a;
    let t5 = t4 + mid;
    let t6 = t5 + a;
    let close = "` to .env now? [Y/n] "@;
    lemma_contains_itself(first);
    lemma_contains_either(first, " on the host — Traefik also wants :"@, first);
    lemma_contains_either(t1, p, first);
    lemma_contains_either(t2, ".\n    Suggested fix: append `APP_PORT="@, first);
    lemma_contains_either(t3, a, first);
    lemma_contains_either(t4, mid, first);
    lemma_contains_either(t5, a, first);
    lemma_contains_either(t6, close, first);
    let fix = ".\n    Suggested fix: append `APP_PORT="@ + a;
    lemma_contains_pair(t2, ".\n    Suggested fix: append `APP_PORT="@, a);
    lemma_contains_either(t4, mid, fix);
    lemma_contains_either(t5, a, fix);
    lemma_contains_either(t6, close, fix);
}

/// A host that is linked already is named in the message, with the command that
/// would free it.
pub proof fn law_linked_host_is_named(host: Seq<char>)
    ensures
        contains(link_error_text(LinkErrorView::AlreadyLinked(host)), "host `"@ + host),
        contains(
            link_error_text(LinkErrorView::AlreadyLinked(host)),
            "` is already linked. Use `henk unlink "@ + host,
        ),
{
    let first = "host `"@ + host;
    let mid = "` is already linked. Use `henk unlink "@;
    let close = "` first if you want to re-register it."@;
    lemma_contains_itself(first);
    lemma_contains_either(first, mid, first);
    lemma_contains_either(first + mid, host, first);
    lemma_contains_either(first + mid + host, close, first);
    lemma_contains_pair(first, mid, host);
    lemma_contains_either(first + mid + host, close, mid + host);
}

/// The networks of a service are those of the compose file, and none where the
/// file or the service is missing.
pub proof fn law_networks_come_from_the_compose_file(
    compose: Option<ComposeFile>,
    service: Seq<char>,
)
    ensures
        compose is None ==> networks_of(compose, service).len() == 0,
        compose matches Some(cf) ==> (cf.services@.dom().contains(service) ==> networks_of(
            compose,
            service,
        ) == names_of(cf.services@[service].networks)),
        compose matches Some(cf) ==> (!cf.services@.dom().contains(service) ==> networks_of(
            compose,
            service,
        ).len() == 0),
{
}

/// A slug keeps a name but for its upper-case letters, which become lower case,
/// and its underscores, blanks and dots, which become dashes.
pub proof fn law_slug_keeps_the_name(name: Seq<char>, i: int)
    ensures
        slug_of(name).len() == name.len(),
        0 <= i < name.len() ==> {
            &&& (name[i] == '_' || name[i] == ' ' || name[i] == '.') ==> slug_of(name)[i] == '-'
            &&& 'A' <= name[i] <= 'Z' ==> slug_of(name)[i] as int == name[i] as int + 32
            &&& ('a' <= name[i] <= 'z' || '0' <= name[i] <= '9' || name[i] == '-') ==> slug_of(
                name,
            )[i] == name[i]
        },
{
    if 0 <= i < name.len() {
        assert(slug_of(name)[i] == slug_char(name[i]));
    }
}

/// Services join in the order in which the hosts first name them: more hosts only
/// add services at the end.
pub proof fn law_members_keep_the_order(
    compose: Option<ComposeFile>,
    a: Seq<HostView>,
    b: Seq<HostView>,
)
    ensures
        memberships_of(compose, a).is_prefix_of(memberships_of(compose, a + b)),
    decreases b.len(),
{
    let left = memberships_of(compose, a);
    if b.len() == 0 {
        assert(a + b =~= a);
        assert(left.take(left.len() as int) =~= left);
    } else {
        let rest = b.drop_last();
        assert((a + b).drop_last() =~= a + rest);
        law_members_keep_the_order(compose, a, rest);
        let mid = memberships_of(compose, a + rest);
        let all = memberships_of(compose, a + b);
        assert(all.take(mid.len() as int) =~= mid);
        assert(all.take(left.len() as int) =~= mid.take(left.len() as int));
    }
}

} // verus!
