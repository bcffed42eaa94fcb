//! Evidence-first project detection for `henk link`.
//!
//! Reads the project's compose file, `.env` and `package.json` to figure out:
//!   - whether this is a Docker-mode or Host-mode project,
//!   - which service is the web entry point,
//!   - what container port to route to,
//!   - what hostname to default to,
//!   - whether the service collides with the proxy's :80 / :443 binding,
//!   - whether Vite is in play.

use vstd::prelude::*;
use vstd::string::*;

use crate::consts::WEB_PORTS;
use crate::detect::backend::lemma_last_of;
use crate::project::compose::{
    image_of, is_datastore, ports_of, ComposeFile, ComposeService, PublishedPort,
};
use crate::project::env_file::{env_view, project_env, EnvFile, FileState};
use crate::project::manifest::ProjectMode;
use crate::search::{group, one_group_text, regex_group};
use crate::table::Table;
use crate::text::{
    begins, contains, decimal, decimal_u16, ends, ends_with, has_text, is_digit, last_of,
    law_port_round_trip, lemma_contains_either, lemma_contains_itself, lemma_contains_pair,
    lemma_decimal_plain, lemma_find_of_is, lemma_split_cons, lemma_split_whole, occurs_at, opt_text,
    parse_u16, parse_u16_of, rsplit_once, rsplit_once_of, split, split_of, split_once,
    split_once_of, starts_with,
};

verus! {

/// A service that could answer a URL.
#[derive(Debug)]
pub struct ServiceCandidate {
    pub name: String,
    pub container_port: u16,
    /// Host port the service publishes.
    pub host_port: u16,
    /// Why this service is offered.
    pub rationale: String,
}

/// The view of a [`ServiceCandidate`].
#[verifier::ext_equal]
pub struct CandidateView {
    pub name: Seq<char>,
    pub container_port: u16,
    pub host_port: u16,
    pub rationale: Seq<char>,
}

impl View for ServiceCandidate {
    type V = CandidateView;

    open spec fn view(&self) -> CandidateView {
        CandidateView {
            name: self.name@,
            container_port: self.container_port,
            host_port: self.host_port,
            rationale: self.rationale@,
        }
    }
}

/// The views of a list of candidates.
pub open spec fn candidate_views(list: Seq<ServiceCandidate>) -> Seq<CandidateView> {
    list.map_values(|c: ServiceCandidate| c@)
}

/// What was found out about a project.
#[derive(Debug)]
pub struct ProjectDetection {
    pub mode: ProjectMode,
    /// Set when detection is unambiguous; otherwise the caller picks one of
    /// `candidates`.
    pub web_service: Option<String>,
    pub web_port: Option<u16>,
    /// Default hostname suggestion (without https://). Always set.
    pub default_host: String,
    /// All web-eligible services (datastores excluded).
    pub candidates: Vec<ServiceCandidate>,
    /// The host port, when the chosen service publishes :80 or :443.
    pub port_collision: Option<u16>,
    /// Vite in package.json or a vite.config.*.
    pub vite_detected: bool,
}

/// The view of a [`ProjectDetection`].
#[verifier::ext_equal]
pub struct DetectionView {
    pub mode: ProjectMode,
    pub web_service: Option<Seq<char>>,
    pub web_port: Option<u16>,
    pub default_host: Seq<char>,
    pub candidates: Seq<CandidateView>,
    pub port_collision: Option<u16>,
    pub vite_detected: bool,
}

impl View for ProjectDetection {
    type V = DetectionView;

    open spec fn view(&self) -> DetectionView {
        DetectionView {
            mode: self.mode,
            web_service: opt_text(self.web_service),
            web_port: self.web_port,
            default_host: self.default_host@,
            candidates: candidate_views(self.candidates@),
            port_collision: self.port_collision,
            vite_detected: self.vite_detected,
        }
    }
}

// ------------------------------------------------------------------ URL parts

/// What follows `://`, or all of it.
pub open spec fn after_scheme(url: Seq<char>) -> Seq<char> {
    match split_once_of(url, "://"@) {
        Some((_, rest)) => rest,
        None => url,
    }
}

/// The host and port part of a URL.
pub open spec fn authority(url: Seq<char>) -> Seq<char> {
    split_of(after_scheme(url), '/')[0]
}

/// The port of a URL: the one it names, otherwise 443 for https and 80 for
/// anything else. `None` when it names one that is no port number.
pub open spec fn url_port(url: Seq<char>) -> Option<u16> {
    match rsplit_once_of(authority(url), ':') {
        Some((_, port)) => parse_u16_of(port),
        None => if begins(url, "https://"@) {
            Some(443u16)
        } else {
            Some(80u16)
        },
    }
}

/// The `.env` keys that hold a project's URL, strongest first.
pub const URL_KEYS: [&'static str; 4] = ["APP_URL", "PUBLIC_URL", "NUXT_BASE_URL", "APP_BASE_URL"];

/// The port of the first URL variable, from key `i` on, that has one.
pub open spec fn env_port_from(env: Map<Seq<char>, Seq<char>>, i: int) -> Option<u16>
    decreases URL_KEYS@.len() - i,
{
    if i < 0 || i >= URL_KEYS@.len() {
        None
    } else {
        let key = URL_KEYS@[i]@;
        if env.dom().contains(key) && url_port(env[key]) is Some {
            url_port(env[key])
        } else {
            env_port_from(env, i + 1)
        }
    }
}

/// The bare host of a URL variable, when it lies under the TLD.
pub open spec fn host_under(url: Seq<char>, tld: Seq<char>) -> Option<Seq<char>> {
    let bare = split_of(authority(url), ':')[0];
    if authority(url).len() > 0 && bare.len() > 0 && ends(bare, "."@ + tld) {
        Some(bare)
    } else {
        None
    }
}

/// The host of the first URL variable, from key `i` on, that lies under the
/// TLD; otherwise `<slug>.<tld>`.
pub open spec fn env_host_from(
    env: Map<Seq<char>, Seq<char>>,
    slug: Seq<char>,
    tld: Seq<char>,
    i: int,
) -> Seq<char>
    decreases URL_KEYS@.len() - i,
{
    if i < 0 || i >= URL_KEYS@.len() {
        slug + "."@ + tld
    } else {
        let key = URL_KEYS@[i]@;
        if env.dom().contains(key) && host_under(env[key], tld) is Some {
            host_under(env[key], tld)->0
        } else {
            env_host_from(env, slug, tld, i + 1)
        }
    }
}

/// The host and port part of a URL.
fn authority_part(url: &str) -> (r: String)
    ensures
        r@ == authority(url@),
{
    let rest = match split_once(url, "://") {
        Some((_, rest)) => rest,
        None => url.to_owned(),
    };
    let parts = split(rest.as_str(), '/');
    assert(parts@[0]@ == split_of(rest@, '/')[0]);
    parts[0].clone()
}

/// The port a URL means.
pub fn port_from_url(url: &str) -> (r: Option<u16>)
    ensures
        r == url_port(url@),
{
    let host = authority_part(url);
    match rsplit_once(host.as_str(), ':') {
        Some((_, port)) => parse_u16(port.as_str()),
        None => if starts_with(url, "https://") {
            Some(443)
        } else {
            Some(80)
        },
    }
}

/// The host part of a URL, if there is one.
pub fn host_from_url(url: &str) -> (r: Option<String>)
    ensures
        opt_text(r) == (if authority(url@).len() > 0 {
            Some(authority(url@))
        } else {
            None
        }),
{
    let host = authority_part(url);
    if host.as_str().is_empty() {
        None
    } else {
        Some(host)
    }
}

/// The value of a variable.
fn lookup<'a>(env: &'a Table<String>, key: &str) -> (r: Option<&'a String>)
    requires
        env.wf(),
    ensures
        match r {
            Some(v) => env_view(*env).dom().contains(key@) && env_view(*env)[key@] == v@,
            None => !env_view(*env).dom().contains(key@),
        },
{
    env.get(key)
}

/// The port that a project's URL variables point at.
pub fn env_url_port(env: &Table<String>) -> (r: Option<u16>)
    requires
        env.wf(),
    ensures
        r == env_port_from(env_view(*env), 0),
{
    let mut i: usize = 0;
    while i < 4
        invariant
            i <= 4,
            env.wf(),
            URL_KEYS@.len() == 4,
            env_port_from(env_view(*env), i as int) == env_port_from(env_view(*env), 0),
        decreases 4 - i,
    {
        if let Some(url) = lookup(env, URL_KEYS[i]) {
            if let Some(port) = port_from_url(url.as_str()) {
                return Some(port);
            }
        }
        i += 1;
    }
    None
}

/// The hostname to suggest: the host of a URL variable that lies under the TLD,
/// otherwise `<slug>.<tld>`.
pub fn default_host_for(env: &Table<String>, slug: &str, tld: &str) -> (r: String)
    requires
        env.wf(),
    ensures
        r@ == env_host_from(env_view(*env), slug@, tld@, 0),
{
    let suffix = ".".to_owned().concat(tld);
    let mut i: usize = 0;
    while i < 4
        invariant
            i <= 4,
            env.wf(),
            URL_KEYS@.len() == 4,
            suffix@ == "."@ + tld@,
            env_host_from(env_view(*env), slug@, tld@, i as int) == env_host_from(
                env_view(*env),
                slug@,
                tld@,
                0,
            ),
        decreases 4 - i,
    {
        if let Some(url) = lookup(env, URL_KEYS[i]) {
            if let Some(host) = host_from_url(url.as_str()) {
                let parts = split(host.as_str(), ':');
                assert(parts@[0]@ == split_of(host@, ':')[0]);
                if ends_with(parts[0].as_str(), suffix.as_str())
                    && !parts[0].as_str().is_empty() {
                    return parts[0].clone();
                }
            }
        }
        i += 1;
    }
    slug.to_owned().concat(".").concat(tld)
}

// ------------------------------------------------------------------- services

/// The first mapping to a container port.
pub open spec fn mapping_to(ports: Seq<PublishedPort>, container: u16) -> Option<PublishedPort>
    decreases ports.len(),
{
    if ports.len() == 0 {
        None
    } else if ports[0].container == container {
        Some(ports[0])
    } else {
        mapping_to(ports.drop_first(), container)
    }
}

/// The first mapping to a web port, from preference `i` on; otherwise the first
/// mapping of all.
pub open spec fn preferred_from(ports: Seq<PublishedPort>, i: int) -> Option<PublishedPort>
    decreases WEB_PORTS@.len() - i,
{
    if i < 0 || i >= WEB_PORTS@.len() {
        if ports.len() == 0 {
            None
        } else {
            Some(ports[0])
        }
    } else if mapping_to(ports, WEB_PORTS@[i]) is Some {
        mapping_to(ports, WEB_PORTS@[i])
    } else {
        preferred_from(ports, i + 1)
    }
}

/// The most web-like mapping of a service; `None` when it publishes nothing.
pub open spec fn web_port_of(svc: ComposeService) -> Option<PublishedPort> {
    preferred_from(ports_of(svc.ports@), 0)
}

/// Finds the first mapping to a container port.
fn find_mapping(ports: &Vec<PublishedPort>, container: u16) -> (r: Option<PublishedPort>)
    ensures
        r == mapping_to(ports@, container),
{
    let mut i: usize = 0;
    assert(ports@.skip(0) =~= ports@);
    while i < ports.len()
        invariant
            i <= ports@.len(),
            mapping_to(ports@.skip(i as int), container) == mapping_to(ports@, container),
        decreases ports@.len() - i,
    {
        assert(ports@.skip(i as int)[0] == ports@[i as int]);
        if ports[i].container == container {
            return Some(ports[i]);
        }
        assert(ports@.skip(i as int).drop_first() =~= ports@.skip(i + 1));
        i += 1;
    }
    None
}

/// Picks the most web-like published port of a service. A service that
/// publishes nothing cannot be reached and gives `None`.
pub fn pick_web_port(svc: &ComposeService) -> (r: Option<PublishedPort>)
    ensures
        r == web_port_of(*svc),
{
    let ports = svc.published_ports();
    let mut i: usize = 0;
    while i < 10
        invariant
            i <= 10,
            WEB_PORTS@.len() == 10,
            ports@ == ports_of(svc.ports@),
            preferred_from(ports@, i as int) == preferred_from(ports@, 0),
        decreases 10 - i,
    {
        if let Some(p) = find_mapping(&ports, WEB_PORTS[i]) {
            return Some(p);
        }
        i += 1;
    }
    if ports.len() == 0 {
        None
    } else {
        Some(ports[0])
    }
}

/// Why a service is offered.
pub open spec fn rationale_of(name: Seq<char>, p: PublishedPort) -> Seq<char> {
    "`"@ + name + "` publishes :"@ + decimal(p.host as nat) + " (container :"@ + decimal(
        p.container as nat,
    ) + ")"@
}

/// Says why a service is offered.
pub fn rationale_for(name: &str, p: &PublishedPort) -> (r: String)
    ensures
        r@ == rationale_of(name@, *p),
{
    "`".to_owned().concat(name).concat("` publishes :").concat(
        decimal_u16(p.host).as_str(),
    ).concat(" (container :").concat(decimal_u16(p.container).as_str()).concat(")")
}

/// The candidate that a service makes: none for a datastore or a service that
/// publishes nothing.
pub open spec fn candidate_of(name: Seq<char>, svc: ComposeService) -> Option<CandidateView> {
    if is_datastore(name, image_of(svc.image)) {
        None
    } else {
        match web_port_of(svc) {
            None => None,
            Some(p) => Some(
                CandidateView {
                    name,
                    container_port: p.container,
                    host_port: p.host,
                    rationale: rationale_of(name, p),
                },
            ),
        }
    }
}

/// The candidates among a list of services, in order.
pub open spec fn candidates_of(services: Seq<(String, ComposeService)>) -> Seq<CandidateView>
    decreases services.len(),
{
    if services.len() == 0 {
        seq![]
    } else {
        let before = candidates_of(services.drop_last());
        match candidate_of(services.last().0@, services.last().1) {
            Some(c) => before.push(c),
            None => before,
        }
    }
}

/// Builds the list of web-eligible services.
pub fn web_candidates(cf: &ComposeFile) -> (r: Vec<ServiceCandidate>)
    ensures
        candidate_views(r@) == candidates_of(cf.services.list()),
{
    let ghost all = cf.services.list();
    let entries = cf.services.entries();
    let mut out: Vec<ServiceCandidate> = Vec::new();
    let mut i: usize = 0;
    assert(candidate_views(out@) =~= candidates_of(all.take(0)));
    while i < entries.len()
        invariant
            i <= all.len(),
            all == entries@,
            candidate_views(out@) == candidates_of(all.take(i as int)),
        decreases all.len() - i,
    {
        assert(all.take(i + 1).drop_last() =~= all.take(i as int));
        let ghost before = candidate_views(out@);
        let name = &entries[i].0;
        let svc = &entries[i].1;
        if !svc.looks_like_datastore(name.as_str()) {
            if let Some(p) = pick_web_port(svc) {
                let c = ServiceCandidate {
                    name: name.clone(),
                    container_port: p.container,
                    host_port: p.host,
                    rationale: rationale_for(name.as_str(), &p),
                };
                let ghost view = c@;
                out.push(c);
                assert(candidate_views(out@) =~= before.push(view));
            }
        }
        i += 1;
    }
    assert(all.take(i as int) =~= all);
    out
}

/// Index of the first candidate that serves `port`, on either side; the length
/// of the list when none does.
pub open spec fn serving(list: Seq<CandidateView>, port: u16) -> int
    decreases list.len(),
{
    if list.len() == 0 || list[0].host_port == port || list[0].container_port == port {
        0
    } else {
        1 + serving(list.drop_first(), port)
    }
}

/// The candidate that the evidence pins: the one serving the port of the
/// project's URL when a URL variable names one, otherwise the only one.
pub open spec fn pinned(list: Seq<CandidateView>, env_port: Option<u16>) -> Option<CandidateView> {
    match env_port {
        Some(port) => if serving(list, port) < list.len() {
            Some(list[serving(list, port)])
        } else {
            None
        },
        None => if list.len() == 1 {
            Some(list[0])
        } else {
            None
        },
    }
}

/// The host port that collides with the proxy, if the chosen service has one.
pub open spec fn collision_of(chosen: Option<CandidateView>) -> Option<u16> {
    match chosen {
        Some(c) => if c.host_port == 80 || c.host_port == 443 {
            Some(c.host_port)
        } else {
            None
        },
        None => None,
    }
}

/// What is found out about a project with a compose file.
pub open spec fn docker_detection(
    services: Seq<(String, ComposeService)>,
    env: Map<Seq<char>, Seq<char>>,
    slug: Seq<char>,
    tld: Seq<char>,
    vite: bool,
) -> DetectionView {
    let list = candidates_of(services);
    let chosen = pinned(list, env_port_from(env, 0));
    DetectionView {
        mode: ProjectMode::Docker,
        web_service: match chosen {
            Some(c) => Some(c.name),
            None => None,
        },
        web_port: match chosen {
            Some(c) => Some(c.container_port),
            None => None,
        },
        default_host: env_host_from(env, slug, tld, 0),
        candidates: list,
        port_collision: collision_of(chosen),
        vite_detected: vite,
    }
}

/// Index of the first candidate that serves `port`.
fn find_serving(list: &Vec<ServiceCandidate>, port: u16) -> (r: usize)
    ensures
        r == serving(candidate_views(list@), port),
        r <= list@.len(),
{
    let ghost all = candidate_views(list@);
    let mut i: usize = 0;
    assert(all.skip(0) =~= all);
    while i < list.len()
        invariant
            i <= list@.len(),
            all == candidate_views(list@),
            serving(all, port) == i + serving(all.skip(i as int), port),
        decreases list@.len() - i,
    {
        assert(all.skip(i as int)[0] == list@[i as int]@);
        if list[i].host_port == port || list[i].container_port == port {
            return i;
        }
        assert(all.skip(i as int).drop_first() =~= all.skip(i + 1));
        i += 1;
    }
    i
}

/// Index of the candidate that the evidence pins.
fn find_pinned(list: &Vec<ServiceCandidate>, env_port: Option<u16>) -> (r: Option<usize>)
    ensures
        match r {
            Some(i) => i < list@.len() && pinned(candidate_views(list@), env_port) == Some(
                list@[i as int]@,
            ),
            None => pinned(candidate_views(list@), env_port) is None,
        },
{
    match env_port {
        Some(port) => {
            let i = find_serving(list, port);
            if i < list.len() {
                Some(i)
            } else {
                None
            }
        },
        None => if list.len() == 1 {
            Some(0)
        } else {
            None
        },
    }
}

/// Detection for a project with a compose file.
pub fn detect_docker_mode(
    cf: &ComposeFile,
    env: &Table<String>,
    slug: &str,
    tld: &str,
    vite_detected: bool,
) -> (r: ProjectDetection)
    requires
        env.wf(),
    ensures
        r@ == docker_detection(
            cf.services.list(),
            env_view(*env),
            slug@,
            tld@,
            vite_detected,
        ),
{
    let candidates = web_candidates(cf);
    let env_port = env_url_port(env);
    let (web_service, web_port, port_collision) = match find_pinned(&candidates, env_port) {
        Some(i) => {
            let c = &candidates[i];
            let collision: Option<u16> = if c.host_port == 80 || c.host_port == 443 {
                Some(c.host_port)
            } else {
                None
            };
            (Some(c.name.clone()), Some(c.container_port), collision)
        },
        None => (None, None, None),
    };
    ProjectDetection {
        mode: ProjectMode::Docker,
        web_service,
        web_port,
        default_host: default_host_for(env, slug, tld),
        candidates,
        port_collision,
        vite_detected,
    }
}

// ------------------------------------------------------------------ host mode

/// The port in what the search for `--port` found.
pub open spec fn matched_port(found: Option<Option<Option<Seq<char>>>>) -> Option<u16> {
    match found {
        Some(Some(Some(digits))) => parse_u16_of(digits),
        _ => None,
    }
}

/// The port that a `package.json` passes to its dev server.
pub open spec fn package_port(body: Seq<char>) -> Option<u16> {
    matched_port(regex_group(r"--port[ =](\d{2,5})"@, body))
}

/// Reads the port in what the search for `--port` found.
pub fn port_from_match(found: &Option<Option<Option<String>>>) -> (r: Option<u16>)
    ensures
        r == matched_port(one_group_text(*found)),
{
    match found {
        Some(Some(Some(digits))) => parse_u16(digits.as_str()),
        _ => None,
    }
}

/// Looks for `--port 1234` or `--port=1234` in a `package.json`.
pub fn port_from_package_json(body: &str) -> (r: Option<u16>)
    ensures
        r == package_port(body@),
{
    let found = group(r"--port[ =](\d{2,5})", body);
    port_from_match(&found)
}

/// The port of a dev server on the host: that of the URL variables, otherwise
/// that of `package.json`, otherwise 3000.
pub open spec fn host_port_of(
    env: Map<Seq<char>, Seq<char>>,
    package_json: Option<Seq<char>>,
) -> u16 {
    match env_port_from(env, 0) {
        Some(p) => p,
        None => match package_json {
            Some(body) => match package_port(body) {
                Some(p) => p,
                None => 3000,
            },
            None => 3000,
        },
    }
}

/// Port detection for Host mode.
pub fn detect_host_mode_port(env: &Table<String>, package_json: &Option<String>) -> (r: u16)
    requires
        env.wf(),
    ensures
        r == host_port_of(env_view(*env), opt_text(*package_json)),
{
    if let Some(p) = env_url_port(env) {
        return p;
    }
    if let Some(body) = package_json {
        if let Some(p) = port_from_package_json(body.as_str()) {
            return p;
        }
    }
    3000
}

/// The Vite config files looked for.
pub const VITE_CONFIGS: [&'static str; 3] = ["vite.config.js", "vite.config.ts", "vite.config.mjs"];

/// A Vite config exists, or `package.json` lists Vite or one of its plugins.
pub open spec fn uses_vite(configs: Seq<bool>, package_json: Option<Seq<char>>) -> bool {
    configs.contains(true) || match package_json {
        Some(body) => contains(body, "\"vite\""@) || contains(body, "\"@vitejs/plugin-"@),
        None => false,
    }
}

/// Is Vite in play? `configs` says which of [`VITE_CONFIGS`] exist.
pub fn detect_vite(configs: &Vec<bool>, package_json: &Option<String>) -> (r: bool)
    ensures
        r == uses_vite(configs@, opt_text(*package_json)),
{
    let mut i: usize = 0;
    while i < configs.len()
        invariant
            i <= configs@.len(),
            forall|j: int| 0 <= j < i ==> !#[trigger] configs@[j],
        decreases configs@.len() - i,
    {
        if configs[i] {
            assert(configs@[i as int]);
            return true;
        }
        i += 1;
    }
    assert(!configs@.contains(true));
    match package_json {
        Some(body) => has_text(body.as_str(), "\"vite\"") || has_text(body.as_str(), "\"@vitejs/plugin-"),
        None => false,
    }
}

/// What detection reads of a project directory.
#[derive(Debug)]
pub struct ProjectFiles {
    pub env_local: FileState,
    pub env: FileState,
    /// The compose file, when there is one.
    pub compose: Option<ComposeFile>,
    /// Which of [`VITE_CONFIGS`] exist.
    pub vite_configs: Vec<bool>,
    /// `package.json`, when it can be read.
    pub package_json: Option<String>,
}

/// What is found out about a project.
pub open spec fn detection_of(
    files: ProjectFiles,
    env: Map<Seq<char>, Seq<char>>,
    slug: Seq<char>,
    tld: Seq<char>,
) -> DetectionView {
    let vite = uses_vite(files.vite_configs@, opt_text(files.package_json));
    match files.compose {
        Some(cf) => docker_detection(cf.services.list(), env, slug, tld, vite),
        None => DetectionView {
            mode: ProjectMode::Host,
            web_service: None,
            web_port: Some(host_port_of(env, opt_text(files.package_json))),
            default_host: env_host_from(env, slug, tld, 0),
            candidates: seq![],
            port_collision: None,
            vite_detected: vite,
        },
    }
}

/// Runs detection. A project with a compose file is a Docker-mode project,
/// another one a Host-mode project. The only error is a `.env` file that exists
/// and cannot be read.
pub fn detect(files: &ProjectFiles, slug: &str, tld: &str) -> (r: Result<ProjectDetection, EnvFile>)
    ensures
        match (r, project_env(files.env_local, files.env)) {
            (Ok(d), Ok(env)) => d@ == detection_of(*files, env, slug@, tld@),
            (Err(e), Err(f)) => e == f,
            _ => false,
        },
{
    let env = match crate::project::env_file::read(&files.env_local, &files.env) {
        Ok(env) => env,
        Err(e) => return Err(e),
    };
    let vite_detected = detect_vite(&files.vite_configs, &files.package_json);
    if let Some(cf) = &files.compose {
        return Ok(detect_docker_mode(cf, &env, slug, tld, vite_detected));
    }
    Ok(
        ProjectDetection {
            mode: ProjectMode::Host,
            web_service: None,
            web_port: Some(detect_host_mode_port(&env, &files.package_json)),
            default_host: default_host_for(&env, slug, tld),
            candidates: Vec::new(),
            port_collision: None,
            vite_detected,
        },
    )
}

/// Every candidate comes from a service that is no datastore and publishes the
/// port it is offered with.
pub proof fn law_candidates_are_reachable_and_no_datastores(
    services: Seq<(String, ComposeService)>,
    i: int,
)
    requires
        0 <= i < candidates_of(services).len(),
    ensures
        exists|j: int|
            #![trigger services[j]]
            0 <= j < services.len() && candidate_of(services[j].0@, services[j].1) == Some(
                candidates_of(services)[i],
            ) && !is_datastore(services[j].0@, image_of(services[j].1.image)) && web_port_of(
                services[j].1,
            ) is Some,
    decreases services.len(),
{
    let last = services.len() - 1;
    let before = candidates_of(services.drop_last());
    if i < before.len() {
        law_candidates_are_reachable_and_no_datastores(services.drop_last(), i);
        let j = choose|j: int|
            #![trigger services.drop_last()[j]]
            0 <= j < services.drop_last().len() && candidate_of(
                services.drop_last()[j].0@,
                services.drop_last()[j].1,
            ) == Some(before[i]) && !is_datastore(
                services.drop_last()[j].0@,
                image_of(services.drop_last()[j].1.image),
            ) && web_port_of(services.drop_last()[j].1) is Some;
        assert(services[j] == services.drop_last()[j]);
    } else {
        assert(services[last] == services.last());
    }
}

/// The index that [`serving`] gives is within the list, or its length.
proof fn lemma_serving(list: Seq<CandidateView>, port: u16)
    ensures
        0 <= serving(list, port) <= list.len(),
        serving(list, port) < list.len() ==> (list[serving(list, port)].host_port == port
            || list[serving(list, port)].container_port == port),
    decreases list.len(),
{
    if list.len() > 0 && list[0].host_port != port && list[0].container_port != port {
        lemma_serving(list.drop_first(), port);
    }
}

/// In Docker mode a web port accompanies a web service, both are those of one
/// candidate, and a collision is one with :80 or :443.
pub proof fn law_choice_is_a_candidate(
    services: Seq<(String, ComposeService)>,
    env: Map<Seq<char>, Seq<char>>,
    slug: Seq<char>,
    tld: Seq<char>,
    vite: bool,
)
    ensures
        ({
            let d = docker_detection(services, env, slug, tld, vite);
            &&& d.web_service is Some <==> d.web_port is Some
            &&& d.web_service is Some ==> exists|i: int|
                0 <= i < d.candidates.len() && d.web_service == Some(
                    (#[trigger] d.candidates[i]).name,
                ) && d.web_port == Some(d.candidates[i].container_port)
            &&& d.port_collision is Some ==> d.web_service is Some && (d.port_collision == Some(
                80u16,
            ) || d.port_collision == Some(443u16))
        }),
{
    let d = docker_detection(services, env, slug, tld, vite);
    let port = env_port_from(env, 0);
    if port is Some {
        lemma_serving(d.candidates, port->0);
    }
    if d.web_service is Some {
        let i = if port is Some {
            serving(d.candidates, port->0)
        } else {
            0
        };
        assert(d.web_service == Some(d.candidates[i].name));
    }
}

/// The suggested host always lies under the TLD.
pub proof fn law_default_host_is_under_the_tld(
    env: Map<Seq<char>, Seq<char>>,
    slug: Seq<char>,
    tld: Seq<char>,
    i: int,
)
    ensures
        ends(env_host_from(env, slug, tld, i), "."@ + tld),
    decreases URL_KEYS@.len() - i,
{
    if i < 0 || i >= URL_KEYS@.len() {
        let s = slug + "."@ + tld;
        reveal_strlit(".");
        assert(s.subrange(s.len() - ("."@ + tld).len(), s.len() as int) =~= "."@ + tld);
    } else {
        law_default_host_is_under_the_tld(env, slug, tld, i + 1);
    }
}

/// No candidate before the one found serves the port.
proof fn lemma_serving_first(list: Seq<CandidateView>, port: u16, i: int)
    ensures
        0 <= i < serving(list, port) ==> list[i].host_port != port && list[i].container_port
            != port,
        0 <= i < list.len() && (list[i].host_port == port || list[i].container_port == port)
            ==> serving(list, port) <= i,
    decreases list.len(),
{
    if list.len() > 0 && list[0].host_port != port && list[0].container_port != port {
        lemma_serving_first(list.drop_first(), port, i - 1);
        if i > 0 && i < list.len() {
            assert(list.drop_first()[i - 1] == list[i]);
        }
        lemma_serving(list.drop_first(), port);
    }
}

/// When the URL of a project names a port, the detected web service is the
/// first candidate that has this port on the host or in its container, and it
/// is reached at its container port. When no candidate has it, none is chosen.
pub proof fn law_url_port_picks_the_service(
    services: Seq<(String, ComposeService)>,
    env: Map<Seq<char>, Seq<char>>,
    slug: Seq<char>,
    tld: Seq<char>,
    vite: bool,
    port: u16,
    i: int,
)
    requires
        env_port_from(env, 0) == Some(port),
    ensures
        ({
            let d = docker_detection(services, env, slug, tld, vite);
            let all = d.candidates;
            &&& 0 <= i < all.len() && (all[i].host_port == port || all[i].container_port == port)
                && (forall|j: int|
                0 <= j < i ==> (#[trigger] all[j]).host_port != port && all[j].container_port
                    != port) ==> d.web_service == Some(all[i].name) && d.web_port == Some(
                all[i].container_port,
            )
            &&& (forall|j: int|
                0 <= j < all.len() ==> (#[trigger] all[j]).host_port != port
                    && all[j].container_port != port) ==> d.web_service is None
                && d.web_port is None
        }),
{
    let all = docker_detection(services, env, slug, tld, vite).candidates;
    let k = serving(all, port);
    lemma_serving(all, port);
    lemma_serving_first(all, port, i);
    if k < all.len() {
        assert(all[k].host_port == port || all[k].container_port == port);
    }
}

/// Without a port in the URL variables, a web service is detected exactly when
/// there is a single candidate: that one.
pub proof fn law_lone_candidate_is_chosen(
    services: Seq<(String, ComposeService)>,
    env: Map<Seq<char>, Seq<char>>,
    slug: Seq<char>,
    tld: Seq<char>,
    vite: bool,
)
    requires
        env_port_from(env, 0) is None,
    ensures
        ({
            let d = docker_detection(services, env, slug, tld, vite);
            &&& d.candidates.len() == 1 ==> d.web_service == Some(d.candidates[0].name)
                && d.web_port == Some(d.candidates[0].container_port)
            &&& d.candidates.len() != 1 ==> d.web_service is None && d.web_port is None
        }),
{
}

/// A collision is reported exactly when the chosen service publishes :80 or
/// :443 on the host, and it is that port.
pub proof fn law_collision_is_the_published_port(
    services: Seq<(String, ComposeService)>,
    env: Map<Seq<char>, Seq<char>>,
    slug: Seq<char>,
    tld: Seq<char>,
    vite: bool,
    i: int,
)
    ensures
        ({
            let d = docker_detection(services, env, slug, tld, vite);
            let all = d.candidates;
            let port = env_port_from(env, 0);
            let serves = |c: CandidateView|
                port == Some(c.host_port) || port == Some(c.container_port);
            &&& d.web_service is None ==> d.port_collision is None
            &&& 0 <= i < all.len() && (if port is Some {
                serves(all[i]) && forall|j: int| 0 <= j < i ==> !serves(#[trigger] all[j])
            } else {
                all.len() == 1
            }) ==> (d.port_collision is Some <==> all[i].host_port == 80 || all[i].host_port
                == 443) && (d.port_collision is Some ==> d.port_collision == Some(
                all[i].host_port,
            ))
        }),
{
    let d = docker_detection(services, env, slug, tld, vite);
    let all = d.candidates;
    let port = env_port_from(env, 0);
    if port is Some {
        let p = port->0;
        lemma_serving(all, p);
        lemma_serving_first(all, p, i);
        let k = serving(all, p);
        if k < all.len() {
            assert(all[k].host_port == p || all[k].container_port == p);
        }
    }
}

/// The first mapping to a container port is one of the mappings, and none
/// before it goes there.
proof fn lemma_mapping_to(ports: Seq<PublishedPort>, container: u16, k: int)
    ensures
        0 <= k < ports.len() && ports[k].container == container && (forall|j: int|
            0 <= j < k ==> (#[trigger] ports[j]).container != container) ==> mapping_to(
            ports,
            container,
        ) == Some(ports[k]),
        (forall|j: int| 0 <= j < ports.len() ==> (#[trigger] ports[j]).container != container)
            ==> mapping_to(ports, container) is None,
        mapping_to(ports, container) is Some ==> exists|j: int|
            0 <= j < ports.len() && #[trigger] ports[j] == mapping_to(ports, container)->0
                && ports[j].container == container,
    decreases ports.len(),
{
    if ports.len() > 0 && ports[0].container != container {
        let rest = ports.drop_first();
        lemma_mapping_to(rest, container, k - 1);
        assert forall|j: int| 0 <= j < rest.len() implies #[trigger] rest[j] == ports[j + 1] by {}
        if mapping_to(rest, container) is Some {
            let j = choose|j: int|
                0 <= j < rest.len() && #[trigger] rest[j] == mapping_to(rest, container)->0
                    && rest[j].container == container;
            assert(ports[j + 1] == rest[j]);
        }
    } else if ports.len() > 0 {
        assert(ports[0].container == container);
    }
}

/// The container ports that web services use, best first.
pub open spec fn web_preference() -> Seq<u16> {
    seq![80u16, 443u16, 8080u16, 8000u16, 8055u16, 3000u16, 5173u16, 4321u16, 4200u16, 8025u16]
}

/// The mapping that a preference from `i` on gives is one of the mappings.
proof fn lemma_preferred(ports: Seq<PublishedPort>, i: int, n: int, k: int)
    requires
        0 <= i <= n <= web_preference().len(),
        forall|m: int, j: int|
            i <= m < n && 0 <= j < ports.len() ==> (#[trigger] ports[j]).container
                != #[trigger] web_preference()[m],
    ensures
        ports.len() == 0 ==> preferred_from(ports, i) is None,
        n < web_preference().len() && 0 <= k < ports.len() && ports[k].container
            == web_preference()[n] && (forall|j: int|
            0 <= j < k ==> (#[trigger] ports[j]).container != web_preference()[n])
            ==> preferred_from(ports, i) == Some(ports[k]),
        n == web_preference().len() && ports.len() > 0 ==> preferred_from(ports, i) == Some(
            ports[0],
        ),
    decreases web_preference().len() - i,
{
    assert(WEB_PORTS@ =~= web_preference());
    if i < web_preference().len() {
        lemma_mapping_to(ports, web_preference()[i], k);
        if i < n {
            lemma_preferred(ports, i + 1, n, k);
        } else if ports.len() == 0 {
            lemma_preferred(ports, i + 1, i + 1, k);
        }
    }
}

/// A service is routed to the first mapping to the best web port it publishes:
/// 80 before 443, then 8080, 8000, 8055, 3000, 5173, 4321, 4200, 8025.
pub proof fn law_best_web_port_is_picked(svc: ComposeService, n: int, k: int)
    requires
        0 <= n < 10,
        0 <= k < ports_of(svc.ports@).len(),
        ports_of(svc.ports@)[k].container == web_preference()[n],
        forall|j: int|
            0 <= j < k ==> (#[trigger] ports_of(svc.ports@)[j]).container != web_preference()[n],
        forall|m: int, j: int|
            0 <= m < n && 0 <= j < ports_of(svc.ports@).len() ==> (#[trigger] ports_of(
                svc.ports@,
            )[j]).container != #[trigger] web_preference()[m],
    ensures
        web_port_of(svc) == Some(ports_of(svc.ports@)[k]),
{
    lemma_preferred(ports_of(svc.ports@), 0, n, k);
}

/// A service without a mapping to a web port is routed to the first mapping it
/// has; one that publishes nothing is not routed.
pub proof fn law_first_mapping_is_the_fallback(svc: ComposeService)
    requires
        forall|m: int, j: int|
            0 <= m < 10 && 0 <= j < ports_of(svc.ports@).len() ==> (#[trigger] ports_of(
                svc.ports@,
            )[j]).container != #[trigger] web_preference()[m],
    ensures
        ports_of(svc.ports@).len() == 0 ==> web_port_of(svc) is None,
        ports_of(svc.ports@).len() > 0 ==> web_port_of(svc) == Some(ports_of(svc.ports@)[0]),
{
    lemma_preferred(ports_of(svc.ports@), 0, 10, 0);
}

/// A service that publishes something is routed to one of its mappings.
proof fn lemma_preferred_is_published(ports: Seq<PublishedPort>, i: int)
    requires
        0 <= i,
        ports.len() > 0,
    ensures
        preferred_from(ports, i) is Some,
        exists|j: int| 0 <= j < ports.len() && #[trigger] ports[j] == preferred_from(ports, i)->0,
    decreases WEB_PORTS@.len() - i,
{
    if i >= WEB_PORTS@.len() {
        assert(ports[0] == preferred_from(ports, i)->0);
    } else {
        lemma_mapping_to(ports, WEB_PORTS@[i], 0);
        lemma_preferred_is_published(ports, i + 1);
    }
}

/// Every service that is no datastore and publishes a port is a candidate, under
/// its name and with one of the mappings it publishes.
pub proof fn law_web_services_are_candidates(
    services: Seq<(String, ComposeService)>,
    env: Map<Seq<char>, Seq<char>>,
    slug: Seq<char>,
    tld: Seq<char>,
    vite: bool,
    k: int,
)
    requires
        0 <= k < services.len(),
        !is_datastore(services[k].0@, image_of(services[k].1.image)),
        ports_of(services[k].1.ports@).len() > 0,
    ensures
        ({
            let ports = ports_of(services[k].1.ports@);
            let all = docker_detection(services, env, slug, tld, vite).candidates;
            exists|i: int, j: int|
                0 <= i < all.len() && 0 <= j < ports.len() && (#[trigger] all[i]).name
                    == services[k].0@ && all[i].container_port == (#[trigger] ports[j]).container
                    && all[i].host_port == ports[j].host
        }),
    decreases services.len(),
{
    let ports = ports_of(services[k].1.ports@);
    let all = candidates_of(services);
    assert(docker_detection(services, env, slug, tld, vite).candidates == all);
    lemma_preferred_is_published(ports, 0);
    let j = choose|j: int|
        0 <= j < ports.len() && #[trigger] ports[j] == preferred_from(ports, 0)->0;
    let last = services.len() - 1;
    if k < last {
        let before = services.drop_last();
        assert(before[k] == services[k]);
        law_web_services_are_candidates(before, env, slug, tld, vite, k);
        let old_list = candidates_of(before);
        let (i, j) = choose|i: int, j: int|
            0 <= i < old_list.len() && 0 <= j < ports.len() && (#[trigger] old_list[i]).name
                == services[k].0@ && old_list[i].container_port == (
            #[trigger] ports[j]).container && old_list[i].host_port == ports[j].host;
        assert(all[i] == old_list[i]);
        assert(all[i].name == services[k].0@);
        assert(all[i].container_port == ports[j].container);
        assert(all[i].host_port == ports[j].host);
    } else {
        assert(services.last() == services[k]);
        let i = all.len() - 1;
        assert(all[i].name == services[k].0@);
        assert(all[i].container_port == ports[j].container);
        assert(all[i].host_port == ports[j].host);
    }
}

/// The keys that hold a project's URL, strongest first.
pub open spec fn url_variables() -> Seq<Seq<char>> {
    seq!["APP_URL"@, "PUBLIC_URL"@, "NUXT_BASE_URL"@, "APP_BASE_URL"@]
}

/// The strongest URL variable that has a port decides: `APP_URL`, then
/// `PUBLIC_URL`, `NUXT_BASE_URL` and `APP_BASE_URL`.
pub proof fn law_strongest_url_gives_the_port(env: Map<Seq<char>, Seq<char>>, n: int)
    requires
        0 <= n <= 4,
        forall|m: int|
            0 <= m < n ==> !env.dom().contains(#[trigger] url_variables()[m]) || url_port(
                env[url_variables()[m]],
            ) is None,
    ensures
        n < 4 && env.dom().contains(url_variables()[n]) && url_port(env[url_variables()[n]]) is Some
            ==> env_port_from(env, 0) == url_port(env[url_variables()[n]]),
        n == 4 ==> env_port_from(env, 0) is None,
{
    reveal_with_fuel(env_port_from, 6);
    assert(URL_KEYS@.len() == 4);
    let v = url_variables();
    assert(URL_KEYS@[0]@ == v[0] && URL_KEYS@[1]@ == v[1] && URL_KEYS@[2]@ == v[2]
        && URL_KEYS@[3]@ == v[3]);
}

/// The strongest URL variable whose host lies under the TLD gives the suggested
/// host; without one it is `<slug>.<tld>`.
pub proof fn law_strongest_url_gives_the_host(
    env: Map<Seq<char>, Seq<char>>,
    slug: Seq<char>,
    tld: Seq<char>,
    n: int,
)
    requires
        0 <= n <= 4,
        forall|m: int|
            0 <= m < n ==> !env.dom().contains(#[trigger] url_variables()[m]) || host_under(
                env[url_variables()[m]],
                tld,
            ) is None,
    ensures
        n < 4 && env.dom().contains(url_variables()[n]) && host_under(
            env[url_variables()[n]],
            tld,
        ) is Some ==> Some(env_host_from(env, slug, tld, 0)) == host_under(
            env[url_variables()[n]],
            tld,
        ),
        n == 4 ==> env_host_from(env, slug, tld, 0) == slug + "."@ + tld,
{
    reveal_with_fuel(env_host_from, 6);
    assert(URL_KEYS@.len() == 4);
    let v = url_variables();
    assert(URL_KEYS@[0]@ == v[0] && URL_KEYS@[1]@ == v[1] && URL_KEYS@[2]@ == v[2]
        && URL_KEYS@[3]@ == v[3]);
}

/// A project without a compose file is served from the host, at the port of its
/// URL, else the one its `package.json` names, else 3000; one with a compose
/// file runs in Docker.
pub proof fn law_compose_file_decides_the_mode(
    files: ProjectFiles,
    env: Map<Seq<char>, Seq<char>>,
    slug: Seq<char>,
    tld: Seq<char>,
    port: u16,
)
    ensures
        ({
            let d = detection_of(files, env, slug, tld);
            let package = match files.package_json {
                Some(body) => package_port(body@),
                None => None,
            };
            &&& d.mode == ProjectMode::Docker <==> files.compose is Some
            &&& files.compose is None ==> d.mode == ProjectMode::Host && d.web_service is None
                && d.candidates.len() == 0 && d.port_collision is None
            &&& files.compose is None && env_port_from(env, 0) == Some(port) ==> d.web_port == Some(
                port,
            )
            &&& files.compose is None && env_port_from(env, 0) is None && package == Some(port)
                ==> d.web_port == Some(port)
            &&& files.compose is None && env_port_from(env, 0) is None && package is None
                ==> d.web_port == Some(3000u16)
        }),
{
}

/// Vite is in play exactly when one of its configs exists or `package.json`
/// lists it or one of its plugins, whatever the mode.
pub proof fn law_vite_is_noticed(
    files: ProjectFiles,
    env: Map<Seq<char>, Seq<char>>,
    slug: Seq<char>,
    tld: Seq<char>,
    i: int,
)
    ensures
        ({
            let d = detection_of(files, env, slug, tld);
            &&& 0 <= i < files.vite_configs@.len() && files.vite_configs@[i] ==> d.vite_detected
            &&& (files.package_json matches Some(body) && contains(body@, "\"vite\""@))
                ==> d.vite_detected
            &&& (files.package_json matches Some(body) && contains(body@, "\"@vitejs/plugin-"@))
                ==> d.vite_detected
            &&& d.vite_detected ==> files.vite_configs@.contains(true) || (
            files.package_json matches Some(body) && (contains(body@, "\"vite\""@) || contains(
                body@,
                "\"@vitejs/plugin-"@,
            )))
        }),
{
}

/// A text without `c` has no last one.
pub proof fn lemma_last_of_none(s: Seq<char>, c: char)
    requires
        !s.contains(c),
    ensures
        last_of(s, c) == -1,
    decreases s.len(),
{
    if s.len() > 0 {
        assert(s.contains(s[s.len() - 1]));
        assert forall|j: int| 0 <= j < s.len() - 1 implies s.drop_last()[j] != c by {
            assert(s.contains(s[j]));
        }
        assert(!s.drop_last().contains(c));
        lemma_last_of_none(s.drop_last(), c);
    }
}

/// What stands between the scheme and the path of a URL.
proof fn lemma_authority(scheme: Seq<char>, host: Seq<char>, tail: Seq<char>)
    requires
        !scheme.contains(':'),
        !host.contains('/'),
        tail.len() == 0 || tail[0] == '/',
    ensures
        authority(scheme + "://"@ + host + tail) == host,
{
    reveal_strlit("://");
    let url = scheme + "://"@ + host + tail;
    let n = scheme.len() as int;
    assert(url.subrange(n, n + 3) =~= "://"@);
    assert forall|j: int| 0 <= j < n implies !occurs_at(url, "://"@, j) by {
        if occurs_at(url, "://"@, j) {
            assert(url.subrange(j, j + 3)[0] == ':');
            assert(url[j] == scheme[j]);
            assert(scheme.contains(scheme[j]));
        }
    }
    lemma_find_of_is(url, "://"@, n);
    assert(url.skip(n + 3) =~= host + tail);
    if tail.len() == 0 {
        assert(host + tail =~= host);
        lemma_split_whole(host, '/');
    } else {
        assert(host + tail =~= host + seq!['/'] + tail.drop_first());
        lemma_split_cons(host, '/', tail.drop_first());
    }
}

/// A host with a port behind it holds no more slashes than the host, and its last
/// colon stands before the port.
proof fn lemma_place(host: Seq<char>, port: u16)
    requires
        !host.contains('/'),
    ensures
        !(host + ":"@ + decimal(port as nat)).contains('/'),
        rsplit_once_of(host + ":"@ + decimal(port as nat), ':') == Some(
            (host, decimal(port as nat)),
        ),
{
    reveal_strlit(":");
    let p = decimal(port as nat);
    let place = host + ":"@ + p;
    let n = host.len() as int;
    lemma_decimal_plain(port as nat);
    assert forall|j: int| 0 <= j < p.len() implies is_digit(#[trigger] p[j]) by {
        assert(p.contains(p[j]));
    }
    assert forall|j: int| 0 <= j < place.len() implies place[j] != '/' by {
        if j < n {
            assert(host.contains(host[j]));
        } else if j > n {
            assert(place[j] == p[j - n - 1]);
        }
    }
    assert(place[n] == ':');
    assert forall|j: int| n < j < place.len() implies place[j] != ':' by {
        assert(place[j] == p[j - n - 1]);
    }
    lemma_last_of(place, ':', n);
    assert(place.take(n) =~= host);
    assert(place.skip(n + 1) =~= p);
}

/// The port of `scheme://host:port/path` is `port`.
pub proof fn law_named_port_is_read(
    scheme: Seq<char>,
    host: Seq<char>,
    port: u16,
    tail: Seq<char>,
)
    requires
        !scheme.contains(':'),
        !host.contains('/'),
        tail.len() == 0 || tail[0] == '/',
    ensures
        url_port(scheme + "://"@ + (host + ":"@ + decimal(port as nat)) + tail) == Some(port),
{
    lemma_place(host, port);
    lemma_authority(scheme, host + ":"@ + decimal(port as nat), tail);
    law_port_round_trip(port);
}

/// A URL begins with `https://` exactly when that is its scheme.
proof fn lemma_https(scheme: Seq<char>, rest: Seq<char>)
    requires
        !scheme.contains(':'),
    ensures
        begins(scheme + "://"@ + rest, "https://"@) <==> scheme == "https"@,
{
    reveal_strlit("://");
    reveal_strlit("https");
    reveal_strlit("https://");
    let url = scheme + "://"@ + rest;
    let n = scheme.len() as int;
    assert(url[n] == ':');
    if scheme == "https"@ {
        assert(url.subrange(0, 8) =~= "https://"@);
    }
    if begins(url, "https://"@) {
        let head = url.subrange(0, 8);
        assert(head[5] == ':' && head[0] == 'h' && head[1] == 't' && head[2] == 't' && head[3]
            == 'p' && head[4] == 's');
        if n > 5 {
            assert(url[5] == scheme[5]);
            assert(scheme.contains(scheme[5]));
        }
        if n < 5 {
            assert(head[n] == url[n]);
        }
        assert(scheme =~= "https"@);
    }
}

/// A URL that names no port means 443 for https and 80 for any other scheme.
#[verifier::spinoff_prover]
pub proof fn law_scheme_gives_the_port(scheme: Seq<char>, host: Seq<char>, tail: Seq<char>)
    requires
        !scheme.contains(':'),
        !host.contains('/'),
        !host.contains(':'),
        tail.len() == 0 || tail[0] == '/',
    ensures
        url_port(scheme + "://"@ + host + tail) == Some(
            if scheme == "https"@ {
                443u16
            } else {
                80u16
            },
        ),
{
    lemma_authority(scheme, host, tail);
    lemma_last_of_none(host, ':');
    assert(scheme + "://"@ + host + tail =~= scheme + "://"@ + (host + tail));
    lemma_https(scheme, host + tail);
}

/// The host of a URL is suggested exactly when it lies under the TLD, whether
/// or not the URL names a port.
pub proof fn law_url_host_is_suggested(
    scheme: Seq<char>,
    host: Seq<char>,
    port: u16,
    tail: Seq<char>,
    tld: Seq<char>,
)
    requires
        !scheme.contains(':'),
        !host.contains('/'),
        !host.contains(':'),
        tail.len() == 0 || tail[0] == '/',
    ensures
        ({
            let found = if ends(host, "."@ + tld) {
                Some(host)
            } else {
                None
            };
            &&& host_under(scheme + "://"@ + host + tail, tld) == found
            &&& host_under(
                scheme + "://"@ + (host + ":"@ + decimal(port as nat)) + tail,
                tld,
            ) == found
        }),
{
    reveal_strlit(":");
    reveal_strlit(".");
    let p = decimal(port as nat);
    let place = host + ":"@ + p;
    lemma_place(host, port);
    lemma_authority(scheme, host, tail);
    lemma_authority(scheme, place, tail);
    lemma_split_whole(host, ':');
    lemma_split_cons(host, ':', p);
    assert(place =~= host + seq![':'] + p);
}

/// A project without a compose file is served by a dev server on the host: at
/// the port that a URL variable names, otherwise at the one that `package.json`
/// passes on, otherwise at 3000.
pub proof fn law_dev_server_port(
    files: ProjectFiles,
    env: Map<Seq<char>, Seq<char>>,
    slug: Seq<char>,
    tld: Seq<char>,
    port: u16,
)
    requires
        files.compose is None,
    ensures
        ({
            let d = detection_of(files, env, slug, tld);
            let passed = match files.package_json {
                Some(body) => regex_group(r"--port[ =](\d{2,5})"@, body@),
                None => None,
            };
            &&& d.mode == ProjectMode::Host
            &&& env_port_from(env, 0) is Some ==> d.web_port == env_port_from(env, 0)
            &&& env_port_from(env, 0) is None && passed == Some(
                Some(Some(decimal(port as nat))),
            ) ==> d.web_port == Some(port)
            &&& env_port_from(env, 0) is None && (passed is None || passed->0 is None)
                ==> d.web_port == Some(3000u16)
        }),
{
    law_port_round_trip(port);
}

/// What is said about a candidate names the service and both of its ports.
pub proof fn law_rationale_names_the_ports(name: Seq<char>, p: PublishedPort)
    ensures
        contains(rationale_of(name, p), name),
        contains(rationale_of(name, p), "` publishes :"@ + decimal(p.host as nat)),
        contains(rationale_of(name, p), " (container :"@ + decimal(p.container as nat)),
{
    let h = decimal(p.host as nat);
    let c = decimal(p.container as nat);
    let t1 = "`"@ + name;
    let t2 = t1 + "` publishes :"@;
    let t3 = t2 + h;
    let t4 = t3 + " (container :"@;
    let t5 = t4 + c;
    lemma_contains_itself(name);
    lemma_contains_either("`"@, name, name);
    lemma_contains_either(t1, "` publishes :"@, name);
    lemma_contains_either(t2, h, name);
    lemma_contains_either(t3, " (container :"@, name);
    lemma_contains_either(t4, c, name);
    lemma_contains_either(t5, ")"@, name);
    let host = "` publishes :"@ + h;
    lemma_contains_pair(t1, "` publishes :"@, h);
    lemma_contains_either(t3, " (container :"@, host);
    lemma_contains_either(t4, c, host);
    lemma_contains_either(t5, ")"@, host);
    let inside = " (container :"@ + c;
    lemma_contains_pair(t3, " (container :"@, c);
    lemma_contains_either(t5, ")"@, inside);
}

/// The candidates come in the order of the services: those of two lists, one
/// after the other, are the candidates of the first and then of the second.
pub proof fn law_candidates_keep_the_order(
    a: Seq<(String, ComposeService)>,
    b: Seq<(String, ComposeService)>,
)
    ensures
        candidates_of(a + b) == candidates_of(a) + candidates_of(b),
    decreases b.len(),
{
    if b.len() == 0 {
        assert(a + b =~= a);
        assert(candidates_of(a) + candidates_of(b) =~= candidates_of(a));
    } else {
        assert((a + b).drop_last() =~= a + b.drop_last());
        assert((a + b).last() == b.last());
        law_candidates_keep_the_order(a, b.drop_last());
        assert(candidates_of(a + b) =~= candidates_of(a) + candidates_of(b));
    }
}

} // verus!
