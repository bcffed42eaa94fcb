//! Static project analysis surfaced at link time.
//!
//! The checks look at a project's files for the known gotchas that make
//! `https://<slug>.<tld>` go 502 or render a blank page although routing is
//! correct. They are warnings, never blockers, and they go by patterns rather
//! than by parsing TS/JS.

use vstd::prelude::*;
use vstd::string::*;

use crate::paint::{bold, bold_of, gray, gray_of, red, red_of, yellow, yellow_of};
use crate::project::detect::{DetectionView, ProjectDetection};
use crate::project::env_file::{comment_from, strip_value, value_of};
use crate::project::file_provider::lemma_contains_inside;
use crate::project::manifest::ProjectMode;
use crate::search::{group, one_group_text, regex_group};
use crate::stack::paths::{join, joined};
use crate::text::{
    begins, contains, decimal, eq, find_of, from_chars, has_text, is_digit, is_space,
    law_port_round_trip, lemma_contains_either, lemma_contains_itself, lemma_contains_pair,
    lemma_decimal, lemma_decimal_plain, lemma_find_of, lemma_find_of_is, lemma_first_of_is,
    lemma_lines_append, lemma_split_cons, lemma_split_whole, lemma_trim_end, lemma_trim_same,
    lemma_trim_start_suffix, lines, lines_of, lower, lower_of, occurs_at, opt_text, split, split_of,
    split_once, split_once_of, strip_cr, texts, to_chars, trim, trim_end_of, trim_of, trim_start_of,
};

verus! {

/// How much an issue hurts.
#[derive(Debug, Clone, Copy, PartialEq, Eq, Structural)]
pub enum Severity {
    High,
    Medium,
}

/// A gotcha, with its fix.
#[derive(Debug)]
pub struct Issue {
    pub severity: Severity,
    pub title: String,
    pub explain: String,
    /// The file or key to edit.
    pub fix_target: String,
    /// The exact snippet to paste.
    pub snippet: String,
}

/// The view of an [`Issue`].
#[verifier::ext_equal]
pub struct IssueView {
    pub severity: Severity,
    pub title: Seq<char>,
    pub explain: Seq<char>,
    pub fix_target: Seq<char>,
    pub snippet: Seq<char>,
}

impl View for Issue {
    type V = IssueView;

    open spec fn view(&self) -> IssueView {
        IssueView {
            severity: self.severity,
            title: self.title@,
            explain: self.explain@,
            fix_target: self.fix_target@,
            snippet: self.snippet@,
        }
    }
}

/// The views of a list of issues.
pub open spec fn issue_views(list: Seq<Issue>) -> Seq<IssueView> {
    list.map_values(|i: Issue| i@)
}

/// A config file: its path and its contents.
#[derive(Debug)]
pub struct ConfigFile {
    pub path: String,
    pub body: String,
}

/// The view of an optional config file: path and contents.
pub open spec fn config_view(c: Option<ConfigFile>) -> Option<(Seq<char>, Seq<char>)> {
    match c {
        Some(f) => Some((f.path@, f.body@)),
        None => None,
    }
}

/// What the checks read of a project directory.
#[derive(Debug)]
pub struct PreflightFiles {
    pub vite_config: Option<ConfigFile>,
    pub nuxt_config: Option<ConfigFile>,
    /// `.env.local` or `.env`, whichever can be read first.
    pub env: Option<String>,
    pub package_json: Option<String>,
    /// `vendor/bin/sail` exists.
    pub sail: bool,
}

/// The `.env` files, strongest first.
pub const ENV_NAMES: [&'static str; 2] = [".env.local", ".env"];

/// The Vite config files, in the order they are tried.
pub const VITE_NAMES: [&'static str; 3] = ["vite.config.ts", "vite.config.js", "vite.config.mjs"];

/// The Nuxt config files, in the order they are tried.
pub const NUXT_NAMES: [&'static str; 3] = ["nuxt.config.ts", "nuxt.config.js", "nuxt.config.mjs"];

/// Index of the first file from `i` on that could be read; the length of the
/// list when none could.
pub open spec fn first_read(bodies: Seq<Option<String>>, i: int) -> int
    decreases bodies.len() - i,
{
    if i < 0 || i >= bodies.len() {
        bodies.len() as int
    } else if bodies[i] is Some {
        i
    } else {
        first_read(bodies, i + 1)
    }
}

/// Index of the first file that could be read.
fn find_read(bodies: &Vec<Option<String>>) -> (r: usize)
    ensures
        r == first_read(bodies@, 0),
        r <= bodies@.len(),
        r < bodies@.len() ==> bodies@[r as int] is Some,
{
    let mut i: usize = 0;
    while i < bodies.len() && bodies[i].is_none()
        invariant
            i <= bodies@.len(),
            first_read(bodies@, i as int) == first_read(bodies@, 0),
        decreases bodies@.len() - i,
    {
        i += 1;
    }
    i
}

/// The first of the bodies that could be read.
pub open spec fn first_body(bodies: Seq<Option<String>>) -> Option<Seq<char>> {
    if first_read(bodies, 0) < bodies.len() {
        opt_text(bodies[first_read(bodies, 0)])
    } else {
        None
    }
}

/// The variables file to look at, given the contents of [`ENV_NAMES`] as far as
/// they could be read.
pub fn read_env(bodies: &Vec<Option<String>>) -> (r: Option<String>)
    ensures
        opt_text(r) == first_body(bodies@),
{
    let i = find_read(bodies);
    if i < bodies.len() {
        match &bodies[i] {
            Some(b) => Some(b.clone()),
            None => None,
        }
    } else {
        None
    }
}

/// The config file to look at: the first of three names that could be read.
pub open spec fn first_config(
    dir: Seq<char>,
    names: Seq<&'static str>,
    bodies: Seq<Option<String>>,
) -> Option<(Seq<char>, Seq<char>)> {
    let i = first_read(bodies, 0);
    if i < bodies.len() && i < names.len() {
        Some((joined(dir, names[i]@), (bodies[i]->0)@))
    } else {
        None
    }
}

/// The config file to look at: the first of three names that could be read.
fn read_config(dir: &str, names: &[&'static str; 3], bodies: &Vec<Option<String>>) -> (r: Option<
    ConfigFile,
>)
    ensures
        config_view(r) == first_config(dir@, names@, bodies@),
{
    let i = find_read(bodies);
    if i < bodies.len() && i < 3 {
        match &bodies[i] {
            Some(b) => Some(ConfigFile { path: join(dir, names[i]), body: b.clone() }),
            None => None,
        }
    } else {
        None
    }
}

/// The Vite config of a project, given the contents of [`VITE_NAMES`] as far as
/// they could be read.
pub fn read_vite_config(dir: &str, bodies: &Vec<Option<String>>) -> (r: Option<ConfigFile>)
    ensures
        config_view(r) == first_config(dir@, VITE_NAMES@, bodies@),
{
    read_config(dir, &VITE_NAMES, bodies)
}

/// The Nuxt config of a project, given the contents of [`NUXT_NAMES`] as far as
/// they could be read.
pub fn read_nuxt_config(dir: &str, bodies: &Vec<Option<String>>) -> (r: Option<ConfigFile>)
    ensures
        config_view(r) == first_config(dir@, NUXT_NAMES@, bodies@),
{
    read_config(dir, &NUXT_NAMES, bodies)
}

// --------------------------------------------------------------------- checks

/// Title of the Vite bind issue.
pub const VITE_BIND: &'static str = "Vite is likely binding 127.0.0.1 only";

/// Explanation of the Vite bind issue.
pub const VITE_BIND_WHY: &'static str =
    "Without `server.host: '0.0.0.0'`, Vite binds the IPv6/v4 loopback only. host.docker.internal can't reach it from the henk-traefik container — you'll get 502.";

/// Title of the Vite CORS issue.
pub const VITE_CORS: &'static str = "Vite v7 CORS will block cross-subdomain module loads";

/// Explanation of the Vite CORS issue.
pub const VITE_CORS_WHY: &'static str =
    "Vite v7 sets Access-Control-Allow-Origin to its own `origin`, not the requesting page's. Module imports from the app host get blocked, leaving a blank page even though the assets are reachable.";

/// Title of the Sail port issue.
pub const SAIL_PORT: &'static str = "Sail's compose publishes :5173 — Vite on host can't bind it";

/// Explanation of the Sail port issue.
pub const SAIL_PORT_WHY: &'static str =
    "docker-proxy reserves the host port even when the container has no Vite process inside. Run Vite on the host (the conventional Sail flow) by giving Sail a different port to publish.";

/// Title of the Nuxt bind issue.
pub const NUXT_BIND: &'static str = "Nuxt likely binds [::1] only — host mode will 502";

/// Explanation of the Nuxt bind issue.
pub const NUXT_BIND_WHY: &'static str =
    "Nuxt's default dev server binds the IPv6 loopback. host.docker.internal only sees ports on the IPv4 wildcard, so the Traefik container can't reach it. Set `devServer.host` explicitly.";

/// Title of the dev-script issue.
pub const DEV_SCRIPT: &'static str = "`npm run dev` doesn't pass --host 0.0.0.0";

/// Explanation of the dev-script issue.
pub const DEV_SCRIPT_WHY: &'static str =
    "Without it, the dev server may bind localhost only and host-mode routing fails. Either edit the script or set devServer/host in the framework config.";

/// Snippet that binds Vite for a host.
pub open spec fn vite_bind_snippet(host: Seq<char>) -> Seq<char> {
    "server: {\n  host: '0.0.0.0',\n  port: 5173,\n  strictPort: true,\n  hmr: { host: 'vite."@ + host
        + "', protocol: 'wss', clientPort: 443 },\n  origin: 'https://vite."@ + host
        + "',\n  cors: { origin: 'https://"@ + host + "' },\n}"@
}

/// Snippet that allows a host's page to load Vite's modules.
pub open spec fn vite_cors_snippet(host: Seq<char>) -> Seq<char> {
    "// inside `server: { ... }`\ncors: { origin: 'https://"@ + host + "' },"@
}

/// The Vite bind issue.
pub open spec fn vite_bind_issue(path: Seq<char>, host: Seq<char>) -> IssueView {
    IssueView {
        severity: Severity::High,
        title: VITE_BIND@,
        explain: VITE_BIND_WHY@,
        fix_target: "edit "@ + path,
        snippet: vite_bind_snippet(host),
    }
}

/// The Vite CORS issue.
pub open spec fn vite_cors_issue(path: Seq<char>, host: Seq<char>) -> IssueView {
    IssueView {
        severity: Severity::High,
        title: VITE_CORS@,
        explain: VITE_CORS_WHY@,
        fix_target: "edit "@ + path,
        snippet: vite_cors_snippet(host),
    }
}

/// The config binds the IPv4 wildcard.
pub open spec fn binds_wildcard(body: Seq<char>) -> bool {
    contains(lower_of(body), "host:"@) && contains(lower_of(body), "0.0.0.0"@)
}

/// The config says something about CORS.
pub open spec fn sets_cors(body: Seq<char>) -> bool {
    contains(lower_of(body), "cors:"@)
}

/// A list of one issue, or of none.
pub open spec fn only_if(flagged: bool, issue: IssueView) -> Seq<IssueView> {
    if flagged {
        seq![issue]
    } else {
        seq![]
    }
}

/// What is wrong with a Vite config, if there is one.
pub open spec fn vite_issues(
    config: Option<(Seq<char>, Seq<char>)>,
    host: Seq<char>,
) -> Seq<IssueView> {
    match config {
        None => seq![],
        Some((path, body)) => only_if(!binds_wildcard(body), vite_bind_issue(path, host)) + only_if(
            !sets_cors(body),
            vite_cors_issue(path, host),
        ),
    }
}

/// Builds an issue.
fn issue(
    severity: Severity,
    title: &str,
    explain: &str,
    fix_target: String,
    snippet: String,
) -> (r: Issue)
    ensures
        r@ == (IssueView {
            severity,
            title: title@,
            explain: explain@,
            fix_target: fix_target@,
            snippet: snippet@,
        }),
{
    Issue { severity, title: title.to_owned(), explain: explain.to_owned(), fix_target, snippet }
}

/// Checks a project's Vite config: it has to bind the IPv4 wildcard and to
/// allow the app host's page.
pub fn check_vite_config(config: &Option<ConfigFile>, default_host: &str) -> (r: Vec<Issue>)
    ensures
        issue_views(r@) == vite_issues(config_view(*config), default_host@),
{
    let mut out: Vec<Issue> = Vec::new();
    let cfg = match config {
        Some(cfg) => cfg,
        None => {
            assert(issue_views(out@) =~= Seq::<IssueView>::empty());
            return out;
        },
    };
    let body = lower(cfg.body.as_str());
    let has_host = has_text(body.as_str(), "host:") && has_text(body.as_str(), "0.0.0.0");
    let has_cors = has_text(body.as_str(), "cors:");
    let ghost bind = vite_bind_issue(cfg.path@, default_host@);
    let ghost cors = vite_cors_issue(cfg.path@, default_host@);
    if !has_host {
        let snippet =
            "server: {\n  host: '0.0.0.0',\n  port: 5173,\n  strictPort: true,\n  hmr: { host: 'vite.".to_owned().concat(
        default_host).concat(
            "', protocol: 'wss', clientPort: 443 },\n  origin: 'https://vite.",
        ).concat(default_host).concat("',\n  cors: { origin: 'https://").concat(
            default_host,
        ).concat("' },\n}");
        out.push(
            issue(
                Severity::High,
                VITE_BIND,
                VITE_BIND_WHY,
                "edit ".to_owned().concat(cfg.path.as_str()),
                snippet,
            ),
        );
    }
    assert(issue_views(out@) =~= only_if(!has_host, bind));
    if !has_cors {
        let snippet = "// inside `server: { ... }`\ncors: { origin: 'https://".to_owned().concat(
            default_host,
        ).concat("' },");
        out.push(
            issue(
                Severity::High,
                VITE_CORS,
                VITE_CORS_WHY,
                "edit ".to_owned().concat(cfg.path.as_str()),
                snippet,
            ),
        );
    }
    assert(issue_views(out@) =~= only_if(!has_host, bind) + only_if(!has_cors, cors));
    out
}

/// `s` without the quotes `q` it begins with.
pub open spec fn unquote_start(s: Seq<char>, q: char) -> Seq<char>
    decreases s.len(),
{
    if s.len() > 0 && s[0] == q {
        unquote_start(s.drop_first(), q)
    } else {
        s
    }
}

/// `s` without the quotes `q` it ends with.
pub open spec fn unquote_end(s: Seq<char>, q: char) -> Seq<char>
    decreases s.len(),
{
    if s.len() > 0 && s.last() == q {
        unquote_end(s.drop_last(), q)
    } else {
        s
    }
}

/// Drops every `q` at either end.
fn unquote(s: &str, q: char) -> (r: String)
    ensures
        r@ == unquote_end(unquote_start(s@, q), q),
{
    let v = to_chars(s);
    let mut from: usize = 0;
    assert(v@.skip(0) =~= v@);
    while from < v.len() && v[from] == q
        invariant
            v@ == s@,
            from <= v@.len(),
            unquote_start(v@.skip(from as int), q) == unquote_start(s@, q),
        decreases v@.len() - from,
    {
        assert(v@.skip(from as int)[0] == v@[from as int]);
        assert(v@.skip(from as int).drop_first() =~= v@.skip(from + 1));
        from += 1;
    }
    proof {
        if from < v@.len() {
            assert(v@.skip(from as int)[0] == v@[from as int]);
        }
    }
    let ghost mid = v@.skip(from as int);
    let mut to: usize = v.len();
    assert(v@.subrange(from as int, to as int) =~= mid);
    while to > from && v[to - 1] == q
        invariant
            from <= to <= v@.len(),
            unquote_end(v@.subrange(from as int, to as int), q) == unquote_end(mid, q),
        decreases to,
    {
        assert(v@.subrange(from as int, to as int).last() == v@[to - 1]);
        assert(v@.subrange(from as int, to as int).drop_last() =~= v@.subrange(
            from as int,
            to - 1,
        ));
        to -= 1;
    }
    proof {
        if to > from {
            assert(v@.subrange(from as int, to as int).last() == v@[to - 1]);
        }
    }
    from_chars(&v, from, to)
}

/// A line that sets `VITE_PORT`: its key is that name and no longer one.
pub open spec fn sets_vite_port(line: Seq<char>) -> bool {
    split_once_of(trim_of(line), "="@) matches Some((k, _)) && trim_of(k) == "VITE_PORT"@
}

/// The first line from `i` on that sets `VITE_PORT`.
pub open spec fn vite_port_line(list: Seq<Seq<char>>, i: int) -> Option<Seq<char>>
    decreases list.len() - i,
{
    if i < 0 || i >= list.len() {
        None
    } else if sets_vite_port(list[i]) {
        Some(list[i])
    } else {
        vite_port_line(list, i + 1)
    }
}

/// The value a `VITE_PORT` line sets: quotes and a comment are no part of it.
pub open spec fn vite_port_value(line: Seq<char>) -> Seq<char> {
    let parts = split_of(line, '=');
    let raw = if parts.len() > 1 {
        parts[1]
    } else {
        "5173"@
    };
    unquote_end(unquote_start(value_of(raw), '"'), '"')
}

/// Sail publishes :5173 unless `VITE_PORT` says otherwise.
pub open spec fn sail_publishes_5173(env: Option<Seq<char>>) -> bool {
    match env {
        None => true,
        Some(body) => match vite_port_line(lines_of(body), 0) {
            None => true,
            Some(line) => vite_port_value(line) == "5173"@,
        },
    }
}

/// The Sail port issue.
pub open spec fn sail_issue() -> IssueView {
    IssueView {
        severity: Severity::Medium,
        title: SAIL_PORT@,
        explain: SAIL_PORT_WHY@,
        fix_target: "append to .env"@,
        snippet: "VITE_PORT=15173"@,
    }
}

/// Does this line set `VITE_PORT`?
fn is_vite_port(line: &str) -> (r: bool)
    ensures
        r == sets_vite_port(line@),
{
    match split_once(trim(line).as_str(), "=") {
        Some((k, _)) => eq(trim(k.as_str()).as_str(), "VITE_PORT"),
        None => false,
    }
}

/// Does Sail publish :5173?
fn publishes_5173(body: &str) -> (r: bool)
    ensures
        r == sail_publishes_5173(Some(body@)),
{
    let list = lines(body);
    let ghost all = lines_of(body@);
    let mut i: usize = 0;
    while i < list.len()
        invariant
            i <= list@.len(),
            all == texts(list@),
            all == lines_of(body@),
            vite_port_line(all, i as int) == vite_port_line(all, 0),
        decreases list@.len() - i,
    {
        assert(all[i as int] == list@[i as int]@);
        if is_vite_port(list[i].as_str()) {
            let parts = split(list[i].as_str(), '=');
            let ghost pieces = split_of(list@[i as int]@, '=');
            assert(pieces.len() == parts@.len());
            let raw = if parts.len() > 1 {
                assert(parts@[1]@ == pieces[1]);
                parts[1].clone()
            } else {
                "5173".to_owned()
            };
            return eq(unquote(strip_value(raw.as_str()).as_str(), '"').as_str(), "5173");
        }
        i += 1;
    }
    true
}

/// Checks that Sail does not reserve Vite's port.
pub fn check_sail_vite_port_collision(env: &Option<String>) -> (r: Vec<Issue>)
    ensures
        issue_views(r@) == only_if(sail_publishes_5173(opt_text(*env)), sail_issue()),
{
    let mut out: Vec<Issue> = Vec::new();
    let publishing = match env {
        Some(body) => publishes_5173(body.as_str()),
        None => true,
    };
    if publishing {
        out.push(
            issue(
                Severity::Medium,
                SAIL_PORT,
                SAIL_PORT_WHY,
                "append to .env".to_owned(),
                "VITE_PORT=15173".to_owned(),
            ),
        );
    }
    assert(issue_views(out@) =~= only_if(publishing, sail_issue()));
    out
}

/// The config sets up Nuxt's dev server.
pub open spec fn sets_devserver(body: Seq<char>) -> bool {
    contains(lower_of(body), "devserver"@)
}

/// The Nuxt bind issue.
pub open spec fn nuxt_issue(path: Seq<char>) -> IssueView {
    IssueView {
        severity: Severity::High,
        title: NUXT_BIND@,
        explain: NUXT_BIND_WHY@,
        fix_target: "edit "@ + path,
        snippet: "devServer: { host: '0.0.0.0', port: 3000 }"@,
    }
}

/// What is wrong with a Nuxt config, if there is one.
pub open spec fn nuxt_issues(config: Option<(Seq<char>, Seq<char>)>) -> Seq<IssueView> {
    match config {
        None => seq![],
        Some((path, body)) => only_if(!sets_devserver(body), nuxt_issue(path)),
    }
}

/// Checks a project's Nuxt config: it has to set up the dev server.
pub fn check_nuxt_devserver(config: &Option<ConfigFile>) -> (r: Vec<Issue>)
    ensures
        issue_views(r@) == nuxt_issues(config_view(*config)),
{
    let mut out: Vec<Issue> = Vec::new();
    let cfg = match config {
        Some(cfg) => cfg,
        None => {
            assert(issue_views(out@) =~= Seq::<IssueView>::empty());
            return out;
        },
    };
    let flagged = !has_text(lower(cfg.body.as_str()).as_str(), "devserver");
    if flagged {
        out.push(
            issue(
                Severity::High,
                NUXT_BIND,
                NUXT_BIND_WHY,
                "edit ".to_owned().concat(cfg.path.as_str()),
                "devServer: { host: '0.0.0.0', port: 3000 }".to_owned(),
            ),
        );
    }
    assert(issue_views(out@) =~= only_if(flagged, nuxt_issue(cfg.path@)));
    out
}

/// The dev script in what the search of `package.json` found; nothing when it
/// found none.
pub open spec fn script_found(found: Option<Option<Option<Seq<char>>>>) -> Seq<char> {
    match found {
        Some(Some(Some(script))) => script,
        _ => seq![],
    }
}

/// The dev script of a `package.json`; nothing when it has none.
pub open spec fn dev_script_of(body: Seq<char>) -> Seq<char> {
    script_found(regex_group("\"dev\"\\s*:\\s*\"([^\"]+)\""@, body))
}

/// A script that does not bind the IPv4 wildcard.
pub open spec fn script_lacks_host(script: Seq<char>) -> bool {
    script.len() > 0 && !contains(script, "--host 0.0.0.0"@) && !contains(
        script,
        "--host=0.0.0.0"@,
    )
}

/// The dev-script issue.
pub open spec fn script_issue() -> IssueView {
    IssueView {
        severity: Severity::Medium,
        title: DEV_SCRIPT@,
        explain: DEV_SCRIPT_WHY@,
        fix_target: "package.json scripts.dev"@,
        snippet: "\"dev\": \"<existing-runner> --host 0.0.0.0 --port 3000\""@,
    }
}

/// Is the dev script to be flagged? A Nuxt config that sets up the dev server
/// supersedes the flag.
pub open spec fn script_flagged(
    package_json: Option<Seq<char>>,
    nuxt: Option<(Seq<char>, Seq<char>)>,
) -> bool {
    &&& !(nuxt matches Some((_, body)) && sets_devserver(body))
    &&& package_json matches Some(body) && script_lacks_host(dev_script_of(body))
}

/// Reads the dev script in what the search found.
pub fn script_from_match(found: Option<Option<Option<String>>>) -> (r: String)
    ensures
        r@ == script_found(one_group_text(found)),
{
    match found {
        Some(Some(Some(script))) => script,
        _ => {
            let none = String::new();
            assert(none@ =~= Seq::<char>::empty());
            none
        },
    }
}

/// Does a dev script fail to bind the IPv4 wildcard?
pub fn lacks_host_flag(script: &str) -> (r: bool)
    ensures
        r == script_lacks_host(script@),
{
    !script.is_empty() && !has_text(script, "--host 0.0.0.0") && !has_text(script, "--host=0.0.0.0")
}

/// Checks that `npm run dev` binds the IPv4 wildcard.
pub fn check_dev_script_bind_flag(
    package_json: &Option<String>,
    nuxt: &Option<ConfigFile>,
) -> (r: Vec<Issue>)
    ensures
        issue_views(r@) == only_if(
            script_flagged(opt_text(*package_json), config_view(*nuxt)),
            script_issue(),
        ),
{
    let mut out: Vec<Issue> = Vec::new();
    let superseded = match nuxt {
        Some(cfg) => has_text(lower(cfg.body.as_str()).as_str(), "devserver"),
        None => false,
    };
    let flagged = !superseded && match package_json {
        Some(body) => {
            let script = script_from_match(
                group("\"dev\"\\s*:\\s*\"([^\"]+)\"", body.as_str()),
            );
            lacks_host_flag(script.as_str())
        },
        None => false,
    };
    if flagged {
        out.push(
            issue(
                Severity::Medium,
                DEV_SCRIPT,
                DEV_SCRIPT_WHY,
                "package.json scripts.dev".to_owned(),
                "\"dev\": \"<existing-runner> --host 0.0.0.0 --port 3000\"".to_owned(),
            ),
        );
    }
    assert(issue_views(out@) =~= only_if(flagged, script_issue()));
    out
}

/// Every issue of a project.
pub open spec fn issues_of(
    files: PreflightFiles,
    detection: DetectionView,
    default_host: Seq<char>,
    vite_host_added: bool,
) -> Seq<IssueView> {
    let vite = if detection.vite_detected || vite_host_added {
        vite_issues(config_view(files.vite_config), default_host) + only_if(
            vite_host_added && files.sail && sail_publishes_5173(opt_text(files.env)),
            sail_issue(),
        )
    } else {
        seq![]
    };
    let host = if detection.mode == ProjectMode::Host {
        nuxt_issues(config_view(files.nuxt_config)) + only_if(
            script_flagged(opt_text(files.package_json), config_view(files.nuxt_config)),
            script_issue(),
        )
    } else {
        seq![]
    };
    vite + host
}

/// Runs every applicable check. The snippets are tailored to the host that was
/// just linked.
pub fn analyze(
    files: &PreflightFiles,
    detection: &ProjectDetection,
    default_host: &str,
    vite_host_added: bool,
) -> (r: Vec<Issue>)
    ensures
        issue_views(r@) == issues_of(*files, detection@, default_host@, vite_host_added),
{
    let mut out: Vec<Issue> = Vec::new();
    if detection.vite_detected || vite_host_added {
        let mut found = check_vite_config(&files.vite_config, default_host);
        let ghost first = issue_views(found@);
        out.append(&mut found);
        assert(issue_views(out@) =~= first);
        if vite_host_added && files.sail {
            let mut more = check_sail_vite_port_collision(&files.env);
            let ghost second = issue_views(more@);
            out.append(&mut more);
            assert(issue_views(out@) =~= first + second);
        }
        assert(issue_views(out@) =~= first + only_if(
            vite_host_added && files.sail && sail_publishes_5173(opt_text(files.env)),
            sail_issue(),
        ));
    } else {
        assert(issue_views(out@) =~= Seq::<IssueView>::empty());
    }
    let ghost vite = issue_views(out@);
    if detection.mode == ProjectMode::Host {
        let mut found = check_nuxt_devserver(&files.nuxt_config);
        let ghost first = issue_views(found@);
        out.append(&mut found);
        assert(issue_views(out@) =~= vite + first);
        let mut more = check_dev_script_bind_flag(&files.package_json, &files.nuxt_config);
        let ghost second = issue_views(more@);
        out.append(&mut more);
        assert(issue_views(out@) =~= vite + (first + second));
    } else {
        assert(vite + Seq::<IssueView>::empty() =~= vite);
    }
    out
}

// --------------------------------------------------------------------- report

/// The badge of a severity.
pub open spec fn badge_of(severity: Severity) -> Seq<char> {
    match severity {
        Severity::High => red_of("[high]"@),
        Severity::Medium => yellow_of("[med] "@),
    }
}

/// The lines of a snippet, indented.
pub open spec fn indented(list: Seq<Seq<char>>) -> Seq<char>
    decreases list.len(),
{
    if list.len() == 0 {
        seq![]
    } else {
        indented(list.drop_last()) + "            "@ + list.last() + "\n"@
    }
}

/// How one issue is shown.
pub open spec fn issue_text(i: IssueView) -> Seq<char> {
    "  "@ + badge_of(i.severity) + " "@ + bold_of(i.title) + "\n        "@ + i.explain
        + "\n        → "@ + i.fix_target + "\n"@ + indented(lines_of(i.snippet)) + "\n"@
}

/// How a list of issues is shown.
pub open spec fn issue_texts(list: Seq<IssueView>) -> Seq<char>
    decreases list.len(),
{
    if list.len() == 0 {
        seq![]
    } else {
        issue_texts(list.drop_last()) + issue_text(list.last())
    }
}

/// The preflight report; nothing when there is nothing to report.
pub open spec fn report_of(list: Seq<IssueView>) -> Seq<char> {
    if list.len() == 0 {
        seq![]
    } else {
        "\n"@ + bold_of("Preflight checks"@) + "\n\n"@ + issue_texts(list) + "  "@ + gray_of("i"@)
            + " fixes are non-destructive — paste, restart your dev server, you're done.\n\n"@
    }
}

/// Indents the lines of a snippet.
fn indent(snippet: &str) -> (r: String)
    ensures
        r@ == indented(lines_of(snippet@)),
{
    let list = lines(snippet);
    let ghost all = lines_of(snippet@);
    let mut out = String::new();
    let mut i: usize = 0;
    assert(out@ =~= indented(all.take(0)));
    while i < list.len()
        invariant
            i <= list@.len(),
            all == texts(list@),
            all == lines_of(snippet@),
            out@ == indented(all.take(i as int)),
        decreases list@.len() - i,
    {
        assert(all.take(i + 1).drop_last() =~= all.take(i as int));
        assert(all.take(i + 1).last() == list@[i as int]@);
        out = out.concat("            ").concat(list[i].as_str()).concat("\n");
        i += 1;
    }
    assert(all.take(i as int) =~= all);
    out
}

/// Shows one issue.
fn show_issue(i: &Issue) -> (r: String)
    ensures
        r@ == issue_text(i@),
{
    let badge = match i.severity {
        Severity::High => red("[high]"),
        Severity::Medium => yellow("[med] "),
    };
    "  ".to_owned().concat(badge.as_str()).concat(" ").concat(bold(i.title.as_str()).as_str()).concat(
        "\n        ",
    ).concat(i.explain.as_str()).concat("\n        → ").concat(i.fix_target.as_str()).concat(
        "\n",
    ).concat(indent(i.snippet.as_str()).as_str()).concat("\n")
}

/// The report that is printed.
pub fn print_report(issues: &Vec<Issue>) -> (r: String)
    ensures
        r@ == report_of(issue_views(issues@)),
{
    if issues.len() == 0 {
        let none = String::new();
        assert(none@ =~= Seq::<char>::empty());
        return none;
    }
    let ghost all = issue_views(issues@);
    let mut blocks = String::new();
    let mut i: usize = 0;
    assert(blocks@ =~= issue_texts(all.take(0)));
    while i < issues.len()
        invariant
            i <= issues@.len(),
            all == issue_views(issues@),
            blocks@ == issue_texts(all.take(i as int)),
        decreases issues@.len() - i,
    {
        assert(all.take(i + 1).drop_last() =~= all.take(i as int));
        assert(all.take(i + 1).last() == issues@[i as int]@);
        blocks = blocks.concat(show_issue(&issues[i]).as_str());
        i += 1;
    }
    assert(all.take(i as int) =~= all);
    "\n".to_owned().concat(bold("Preflight checks").as_str()).concat("\n\n").concat(
        blocks.as_str(),
    ).concat("  ").concat(gray("i").as_str()).concat(
        " fixes are non-destructive — paste, restart your dev server, you're done.\n\n",
    )
}

/// A Docker-mode project without Vite has nothing to check, whatever its files
/// hold.
pub proof fn law_docker_without_vite_is_quiet(
    files: PreflightFiles,
    detection: DetectionView,
    default_host: Seq<char>,
)
    requires
        detection.mode == ProjectMode::Docker,
        !detection.vite_detected,
    ensures
        issues_of(files, detection, default_host, false) == Seq::<IssueView>::empty(),
        report_of(issues_of(files, detection, default_host, false)) == Seq::<char>::empty(),
{
    assert(issues_of(files, detection, default_host, false) =~= Seq::<IssueView>::empty());
}

/// Pasting the snippet of a Vite bind issue settles both Vite issues.
pub proof fn law_vite_snippet_settles(path: Seq<char>, host: Seq<char>)
    ensures
        vite_issues(Some((path, vite_bind_snippet(host))), host) == Seq::<IssueView>::empty(),
{
    let a = "server: {\n  host: '0.0.0.0',\n  port: 5173,\n  strictPort: true,\n  hmr: { host: 'vite."@;
    let b = "', protocol: 'wss', clientPort: 443 },\n  origin: 'https://vite."@;
    let c = "',\n  cors: { origin: 'https://"@;
    let body = vite_bind_snippet(host);
    let low = lower_of(body);
    reveal_strlit(
        "server: {\n  host: '0.0.0.0',\n  port: 5173,\n  strictPort: true,\n  hmr: { host: 'vite.",
    );
    reveal_strlit("',\n  cors: { origin: 'https://");
    reveal_strlit("host:");
    reveal_strlit("0.0.0.0");
    reveal_strlit("cors:");
    assert forall|i: int| 0 <= i < a.len() implies body[i] == a[i] by {}
    assert(low.subrange(12, 17) =~= "host:"@);
    assert(occurs_at(low, "host:"@, 12));
    assert(low.subrange(19, 26) =~= "0.0.0.0"@);
    assert(occurs_at(low, "0.0.0.0"@, 19));
    let n: int = (a.len() + host.len() + b.len() + host.len()) as int;
    assert forall|i: int| 0 <= i < c.len() implies body[n + i] == c[i] by {}
    assert(low.subrange(n + 5, n + 10) =~= "cors:"@);
    assert(occurs_at(low, "cors:"@, n + 5));
    assert(vite_issues(Some((path, body)), host) =~= Seq::<IssueView>::empty());
}

// ------------------------------------------------------------ what is found

/// Is an issue of this title in the list?
pub open spec fn raises(list: Seq<IssueView>, title: Seq<char>) -> bool {
    exists|i: int| 0 <= i < list.len() && (#[trigger] list[i]).title == title
}

/// Two lists raise what either of them raises.
proof fn lemma_raises_add(a: Seq<IssueView>, b: Seq<IssueView>, title: Seq<char>)
    ensures
        raises(a + b, title) <==> raises(a, title) || raises(b, title),
{
    let all = a + b;
    if raises(a, title) {
        let i = choose|i: int| 0 <= i < a.len() && (#[trigger] a[i]).title == title;
        assert(all[i] == a[i]);
    }
    if raises(b, title) {
        let i = choose|i: int| 0 <= i < b.len() && (#[trigger] b[i]).title == title;
        assert(all[a.len() + i] == b[i]);
    }
    if raises(all, title) {
        let i = choose|i: int| 0 <= i < all.len() && (#[trigger] all[i]).title == title;
        if i < a.len() {
            assert(a[i] == all[i]);
        } else {
            assert(b[i - a.len()] == all[i]);
        }
    }
}

/// A list of at most one issue.
proof fn lemma_raises_one(flagged: bool, issue: IssueView, title: Seq<char>)
    ensures
        raises(only_if(flagged, issue), title) <==> flagged && issue.title == title,
{
    if flagged {
        assert(only_if(flagged, issue)[0] == issue);
    }
}

/// The five titles differ.
proof fn lemma_titles_differ()
    ensures
        VITE_BIND@ != VITE_CORS@,
        VITE_BIND@ != SAIL_PORT@,
        VITE_BIND@ != NUXT_BIND@,
        VITE_BIND@ != DEV_SCRIPT@,
        VITE_CORS@ != SAIL_PORT@,
        VITE_CORS@ != NUXT_BIND@,
        VITE_CORS@ != DEV_SCRIPT@,
        SAIL_PORT@ != NUXT_BIND@,
        SAIL_PORT@ != DEV_SCRIPT@,
        NUXT_BIND@ != DEV_SCRIPT@,
{
    reveal_strlit("Vite is likely binding 127.0.0.1 only");
    reveal_strlit("Vite v7 CORS will block cross-subdomain module loads");
    reveal_strlit("Sail's compose publishes :5173 — Vite on host can't bind it");
    reveal_strlit("Nuxt likely binds [::1] only — host mode will 502");
    reveal_strlit("`npm run dev` doesn't pass --host 0.0.0.0");
    assert(VITE_BIND@[5] == 'i' && VITE_CORS@[5] == 'v');
    assert(VITE_BIND@[0] == 'V' && VITE_CORS@[0] == 'V' && SAIL_PORT@[0] == 'S' && NUXT_BIND@[0]
        == 'N' && DEV_SCRIPT@[0] == '`');
}

/// A pattern without letters that is in the lower-case text is in the text.
proof fn lemma_lower_adds_no_digits(s: Seq<char>, pat: Seq<char>)
    requires
        contains(lower_of(s), pat),
        forall|i: int| 0 <= i < pat.len() ==> !('a' <= #[trigger] pat[i] <= 'z'),
    ensures
        contains(s, pat),
{
    let low = lower_of(s);
    let k = choose|k: int| occurs_at(low, pat, k);
    assert(s.subrange(k, k + pat.len()) =~= pat) by {
        assert forall|i: int| 0 <= i < pat.len() implies s[k + i] == pat[i] by {
            assert(low.subrange(k, k + pat.len())[i] == pat[i]);
            assert(low[k + i] == crate::text::lower_char(s[k + i]));
        }
    }
    assert(occurs_at(s, pat, k));
}

/// A pattern without upper-case letters that is in the text is in the lower-case
/// text.
proof fn lemma_lower_keeps(s: Seq<char>, pat: Seq<char>)
    requires
        contains(s, pat),
        forall|i: int| 0 <= i < pat.len() ==> !('A' <= #[trigger] pat[i] <= 'Z'),
    ensures
        contains(lower_of(s), pat),
{
    let low = lower_of(s);
    let k = choose|k: int| occurs_at(s, pat, k);
    assert(low.subrange(k, k + pat.len()) =~= pat) by {
        assert forall|i: int| 0 <= i < pat.len() implies low[k + i] == pat[i] by {
            assert(s.subrange(k, k + pat.len())[i] == pat[i]);
            assert(low[k + i] == crate::text::lower_char(s[k + i]));
        }
    }
    assert(occurs_at(low, pat, k));
}

/// Which issue is raised when.
proof fn lemma_raised(
    files: PreflightFiles,
    detection: DetectionView,
    default_host: Seq<char>,
    added: bool,
)
    ensures
        ({
            let list = issues_of(files, detection, default_host, added);
            let vite = detection.vite_detected || added;
            let config = config_view(files.vite_config);
            let nuxt = config_view(files.nuxt_config);
            &&& raises(list, VITE_BIND@) <==> vite && config is Some && !binds_wildcard(
                (config->0).1,
            )
            &&& raises(list, VITE_CORS@) <==> vite && config is Some && !sets_cors((config->0).1)
            &&& raises(list, SAIL_PORT@) <==> added && files.sail && sail_publishes_5173(
                opt_text(files.env),
            )
            &&& raises(list, NUXT_BIND@) <==> detection.mode == ProjectMode::Host && nuxt is Some
                && !sets_devserver((nuxt->0).1)
            &&& raises(list, DEV_SCRIPT@) <==> detection.mode == ProjectMode::Host
                && script_flagged(opt_text(files.package_json), nuxt)
        }),
{
    lemma_titles_differ();
    lemma_raised_title(files, detection, default_host, added, VITE_BIND@);
    lemma_raised_title(files, detection, default_host, added, VITE_CORS@);
    lemma_raised_title(files, detection, default_host, added, SAIL_PORT@);
    lemma_raised_title(files, detection, default_host, added, NUXT_BIND@);
    lemma_raised_title(files, detection, default_host, added, DEV_SCRIPT@);
}

/// A title is raised by the check that has it.
proof fn lemma_raised_title(
    files: PreflightFiles,
    detection: DetectionView,
    default_host: Seq<char>,
    added: bool,
    title: Seq<char>,
)
    ensures
        ({
            let list = issues_of(files, detection, default_host, added);
            let vite = detection.vite_detected || added;
            let config = config_view(files.vite_config);
            let nuxt = config_view(files.nuxt_config);
            raises(list, title) <==> {
                ||| title == VITE_BIND@ && vite && config is Some && !binds_wildcard((config->0).1)
                ||| title == VITE_CORS@ && vite && config is Some && !sets_cors((config->0).1)
                ||| title == SAIL_PORT@ && added && files.sail && sail_publishes_5173(
                    opt_text(files.env),
                )
                ||| title == NUXT_BIND@ && detection.mode == ProjectMode::Host && nuxt is Some
                    && !sets_devserver((nuxt->0).1)
                ||| title == DEV_SCRIPT@ && detection.mode == ProjectMode::Host && script_flagged(
                    opt_text(files.package_json),
                    nuxt,
                )
            }
        }),
{
    let config = config_view(files.vite_config);
    let nuxt = config_view(files.nuxt_config);
    let sail = added && files.sail && sail_publishes_5173(opt_text(files.env));
    let script = script_flagged(opt_text(files.package_json), nuxt);
    let none = Seq::<IssueView>::empty();
    let vite_list = if detection.vite_detected || added {
        vite_issues(config, default_host) + only_if(sail, sail_issue())
    } else {
        none
    };
    let host_list = if detection.mode == ProjectMode::Host {
        nuxt_issues(nuxt) + only_if(script, script_issue())
    } else {
        none
    };
    assert(issues_of(files, detection, default_host, added) == vite_list + host_list);
    lemma_raises_add(vite_list, host_list, title);
    lemma_raises_add(vite_issues(config, default_host), only_if(sail, sail_issue()), title);
    lemma_raises_add(nuxt_issues(nuxt), only_if(script, script_issue()), title);
    lemma_raises_one(sail, sail_issue(), title);
    lemma_raises_one(script, script_issue(), title);
    assert(!raises(none, title));
    if config is Some {
        let (path, body) = config->0;
        let bind = vite_bind_issue(path, default_host);
        let cors = vite_cors_issue(path, default_host);
        lemma_raises_add(
            only_if(!binds_wildcard(body), bind),
            only_if(!sets_cors(body), cors),
            title,
        );
        lemma_raises_one(!binds_wildcard(body), bind, title);
        lemma_raises_one(!sets_cors(body), cors, title);
    }
    if nuxt is Some {
        let (path, body) = nuxt->0;
        lemma_raises_one(!sets_devserver(body), nuxt_issue(path), title);
    }
}

/// A Vite config that nowhere says `0.0.0.0`, or nowhere says `host:`, gets the
/// bind issue, in Docker and in Host mode alike; one that says both does not.
pub proof fn law_unbound_vite_is_reported(
    files: PreflightFiles,
    detection: DetectionView,
    default_host: Seq<char>,
    added: bool,
)
    requires
        files.vite_config is Some,
        detection.vite_detected || added,
    ensures
        ({
            let body = files.vite_config->0.body@;
            let list = issues_of(files, detection, default_host, added);
            &&& !contains(body, "0.0.0.0"@) ==> raises(list, VITE_BIND@)
            &&& !contains(lower_of(body), "host:"@) ==> raises(list, VITE_BIND@)
            &&& contains(body, "0.0.0.0"@) && contains(body, "host:"@) ==> !raises(
                list,
                VITE_BIND@,
            )
        }),
{
    let body = files.vite_config->0.body@;
    reveal_strlit("0.0.0.0");
    reveal_strlit("host:");
    lemma_raised(files, detection, default_host, added);
    if contains(lower_of(body), "0.0.0.0"@) {
        lemma_lower_adds_no_digits(body, "0.0.0.0"@);
    }
    if contains(body, "0.0.0.0"@) {
        lemma_lower_keeps(body, "0.0.0.0"@);
    }
    if contains(body, "host:"@) {
        lemma_lower_keeps(body, "host:"@);
    }
}

/// A Vite config that says nothing of `cors:` gets the CORS issue, and only such
/// a one does.
pub proof fn law_missing_cors_is_reported(
    files: PreflightFiles,
    detection: DetectionView,
    default_host: Seq<char>,
    added: bool,
)
    requires
        files.vite_config is Some,
        detection.vite_detected || added,
    ensures
        ({
            let body = files.vite_config->0.body@;
            let list = issues_of(files, detection, default_host, added);
            &&& !contains(lower_of(body), "cors:"@) ==> raises(list, VITE_CORS@)
            &&& contains(body, "cors:"@) ==> !raises(list, VITE_CORS@)
        }),
{
    let body = files.vite_config->0.body@;
    reveal_strlit("cors:");
    lemma_raised(files, detection, default_host, added);
    if contains(body, "cors:"@) {
        lemma_lower_keeps(body, "cors:"@);
    }
}

/// The Vite issues are raised for Vite projects that have a config, and for no
/// others; they hurt much, and name the file to edit.
pub proof fn law_vite_issues_name_the_config(
    files: PreflightFiles,
    detection: DetectionView,
    default_host: Seq<char>,
    added: bool,
    i: int,
)
    requires
        0 <= i < issues_of(files, detection, default_host, added).len(),
        issues_of(files, detection, default_host, added)[i].title == VITE_BIND@ || issues_of(
            files,
            detection,
            default_host,
            added,
        )[i].title == VITE_CORS@,
    ensures
        ({
            let issue = issues_of(files, detection, default_host, added)[i];
            &&& detection.vite_detected || added
            &&& files.vite_config is Some
            &&& issue.severity == Severity::High
            &&& issue.fix_target == "edit "@ + files.vite_config->0.path@
            &&& contains(issue.snippet, "cors: { origin: 'https://"@ + default_host + "' }"@)
            &&& issue.title == VITE_BIND@ ==> contains(issue.snippet, "host: '0.0.0.0'"@)
                && contains(issue.snippet, "origin: 'https://vite."@ + default_host + "'"@)
        }),
{
    let list = issues_of(files, detection, default_host, added);
    let issue = list[i];
    lemma_titles_differ();
    lemma_raised(files, detection, default_host, added);
    assert(raises(list, issue.title));
    let path = files.vite_config->0.path@;
    let config = config_view(files.vite_config);
    let nuxt = config_view(files.nuxt_config);
    let sail = only_if(
        added && files.sail && sail_publishes_5173(opt_text(files.env)),
        sail_issue(),
    );
    let first = vite_issues(config, default_host);
    let host_list = if detection.mode == ProjectMode::Host {
        nuxt_issues(nuxt) + only_if(
            script_flagged(opt_text(files.package_json), nuxt),
            script_issue(),
        )
    } else {
        Seq::<IssueView>::empty()
    };
    assert(list == first + sail + host_list);
    if i >= first.len() + sail.len() {
        assert(list[i] == host_list[i - first.len() - sail.len()]);
        if nuxt is Some {
            let (p, _) = nuxt->0;
            assert(issue == nuxt_issue(p) || issue == script_issue());
        } else {
            assert(issue == script_issue());
        }
    } else if i >= first.len() {
        assert(list[i] == sail[i - first.len()]);
    } else {
        assert(list[i] == first[i]);
        assert(issue == vite_bind_issue(path, default_host) || issue == vite_cors_issue(
            path,
            default_host,
        ));
    }
    lemma_vite_snippets(default_host);
}

/// What the two Vite snippets hold.
proof fn lemma_vite_snippets(host: Seq<char>)
    ensures
        contains(vite_cors_snippet(host), "cors: { origin: 'https://"@ + host + "' }"@),
        contains(vite_bind_snippet(host), "cors: { origin: 'https://"@ + host + "' }"@),
        contains(vite_bind_snippet(host), "host: '0.0.0.0'"@),
        contains(vite_bind_snippet(host), "origin: 'https://vite."@ + host + "'"@),
{
    let a = "server: {\n  host: '0.0.0.0',\n  port: 5173,\n  strictPort: true,\n  hmr: { host: 'vite."@;
    let b = "', protocol: 'wss', clientPort: 443 },\n  origin: 'https://vite."@;
    let c = "',\n  cors: { origin: 'https://"@;
    let e = "' },\n}"@;
    let f = "// inside `server: { ... }`\ncors: { origin: 'https://"@;
    let g = "' },"@;
    reveal_strlit(
        "server: {\n  host: '0.0.0.0',\n  port: 5173,\n  strictPort: true,\n  hmr: { host: 'vite.",
    );
    reveal_strlit("', protocol: 'wss', clientPort: 443 },\n  origin: 'https://vite.");
    reveal_strlit("',\n  cors: { origin: 'https://");
    reveal_strlit("' },\n}");
    reveal_strlit("// inside `server: { ... }`\ncors: { origin: 'https://");
    reveal_strlit("' },");
    reveal_strlit("cors: { origin: 'https://");
    reveal_strlit("' }");
    reveal_strlit("host: '0.0.0.0'");
    reveal_strlit("origin: 'https://vite.");
    reveal_strlit("'");
    let bind = vite_bind_snippet(host);
    let cors = vite_cors_snippet(host);
    let want = "cors: { origin: 'https://"@ + host + "' }"@;
    let from = "origin: 'https://vite."@ + host + "'"@;
    let n: int = (a.len() + host.len() + b.len() + host.len()) as int;
    let k: int = f.len() - "cors: { origin: 'https://"@.len();
    assert(cors.subrange(k, k + want.len()) =~= want);
    assert(occurs_at(cors, want, k));
    let k: int = n + c.len() - "cors: { origin: 'https://"@.len();
    assert(bind.subrange(k, k + want.len()) =~= want);
    assert(occurs_at(bind, want, k));
    assert(bind.subrange(12, 27) =~= "host: '0.0.0.0'"@);
    assert(occurs_at(bind, "host: '0.0.0.0'"@, 12));
    let k: int = a.len() + host.len() + b.len() - "origin: 'https://vite."@.len();
    assert(bind.subrange(k, k + from.len()) =~= from);
    assert(occurs_at(bind, from, k));
}

/// In Host mode a Nuxt config that says nothing of `devServer` is reported, and
/// only such a one; in Docker mode none is.
pub proof fn law_unbound_nuxt_is_reported(
    files: PreflightFiles,
    detection: DetectionView,
    default_host: Seq<char>,
    added: bool,
)
    ensures
        raises(issues_of(files, detection, default_host, added), NUXT_BIND@) <==> detection.mode
            == ProjectMode::Host && files.nuxt_config is Some && !contains(
            lower_of(files.nuxt_config->0.body@),
            "devserver"@,
        ),
{
    lemma_raised(files, detection, default_host, added);
}

/// In Host mode a dev script that does not pass `--host 0.0.0.0` is reported,
/// unless the Nuxt config sets up the dev server; a script that passes it, or
/// none at all, is not.
pub proof fn law_unbound_dev_script_is_reported(
    files: PreflightFiles,
    detection: DetectionView,
    default_host: Seq<char>,
    added: bool,
    script: Seq<char>,
)
    requires
        files.package_json is Some,
        dev_script_of(files.package_json->0@) == script,
    ensures
        ({
            let list = issues_of(files, detection, default_host, added);
            &&& detection.mode == ProjectMode::Host && script.len() > 0 && !contains(
                script,
                "0.0.0.0"@,
            ) && files.nuxt_config is None ==> raises(list, DEV_SCRIPT@)
            &&& contains(script, "--host 0.0.0.0"@) ==> !raises(list, DEV_SCRIPT@)
            &&& contains(script, "--host=0.0.0.0"@) ==> !raises(list, DEV_SCRIPT@)
            &&& script.len() == 0 ==> !raises(list, DEV_SCRIPT@)
            &&& detection.mode == ProjectMode::Docker ==> !raises(list, DEV_SCRIPT@)
            &&& (files.nuxt_config matches Some(cfg) && contains(
                lower_of(cfg.body@),
                "devserver"@,
            )) ==> !raises(list, DEV_SCRIPT@)
        }),
{
    lemma_raised(files, detection, default_host, added);
    reveal_strlit("--host 0.0.0.0");
    reveal_strlit("--host=0.0.0.0");
    reveal_strlit("0.0.0.0");
    if contains(script, "--host 0.0.0.0"@) {
        let k = choose|k: int| occurs_at(script, "--host 0.0.0.0"@, k);
        assert(script.subrange(k + 7, k + 14) =~= script.subrange(k, k + 14).subrange(7, 14));
        assert("--host 0.0.0.0"@.subrange(7, 14) =~= "0.0.0.0"@);
        assert(occurs_at(script, "0.0.0.0"@, k + 7));
    }
    if contains(script, "--host=0.0.0.0"@) {
        let k = choose|k: int| occurs_at(script, "--host=0.0.0.0"@, k);
        assert(script.subrange(k + 7, k + 14) =~= script.subrange(k, k + 14).subrange(7, 14));
        assert("--host=0.0.0.0"@.subrange(7, 14) =~= "0.0.0.0"@);
        assert(occurs_at(script, "0.0.0.0"@, k + 7));
    }
}

/// Sail is reported only where a Vite sub-host was added to a Sail project, and
/// there whenever the project has no variables at all.
pub proof fn law_sail_is_reported(
    files: PreflightFiles,
    detection: DetectionView,
    default_host: Seq<char>,
    added: bool,
)
    ensures
        ({
            let list = issues_of(files, detection, default_host, added);
            &&& raises(list, SAIL_PORT@) ==> added && files.sail
            &&& added && files.sail && files.env is None ==> raises(list, SAIL_PORT@)
        }),
{
    lemma_raised(files, detection, default_host, added);
}

/// What trimming leaves is part of the text.
proof fn lemma_trim_within(s: Seq<char>)
    ensures
        contains(s, trim_of(s)),
{
    let u = trim_start_of(s);
    let t = trim_end_of(u);
    lemma_trim_start_suffix(s);
    lemma_trim_end(u);
    let k = s.len() - u.len();
    assert(s.subrange(k, k + t.len()) =~= u.take(t.len() as int));
    assert(occurs_at(s, t, k));
}

/// What part of a part holds, the whole holds.
proof fn lemma_contains_part(s: Seq<char>, part: Seq<char>, pat: Seq<char>)
    requires
        contains(s, part),
        contains(part, pat),
    ensures
        contains(s, pat),
{
    let i = choose|i: int| occurs_at(s, part, i);
    let n = i + part.len();
    assert(s =~= s.take(i) + part + s.skip(n)) by {
        assert(s.subrange(i, n) =~= part);
    }
    lemma_contains_inside(s.take(i), part, s.skip(n), pat);
}

/// A line that sets `VITE_PORT` holds that name.
proof fn lemma_setting_names(line: Seq<char>)
    requires
        sets_vite_port(line),
    ensures
        contains(line, "VITE_PORT"@),
{
    let t = trim_of(line);
    let k = (split_once_of(t, "="@)->0).0;
    lemma_trim_within(line);
    lemma_trim_within(k);
    lemma_find_of(t, "="@);
    let i = find_of(t, "="@)->0;
    assert(t.subrange(0, i) =~= k);
    assert(occurs_at(t, k, 0));
    lemma_contains_part(line, t, k);
    lemma_contains_part(line, k, "VITE_PORT"@);
}

/// The first line that sets `VITE_PORT`, where only the last one may.
proof fn lemma_vite_port_line(list: Seq<Seq<char>>, i: int, n: int)
    requires
        0 <= i <= n <= list.len(),
        forall|j: int| 0 <= j < n ==> !contains(#[trigger] list[j], "VITE_PORT"@),
    ensures
        n == list.len() ==> vite_port_line(list, i) is None,
        n < list.len() && sets_vite_port(list[n]) ==> vite_port_line(list, i) == Some(list[n]),
    decreases n - i,
{
    if i < n {
        assert(!contains(list[i], "VITE_PORT"@));
        if sets_vite_port(list[i]) {
            lemma_setting_names(list[i]);
        }
        lemma_vite_port_line(list, i + 1, n);
    }
}

/// A Sail project whose variables nowhere say `VITE_PORT` is reported.
pub proof fn law_sail_without_a_port_is_reported(
    files: PreflightFiles,
    detection: DetectionView,
    default_host: Seq<char>,
)
    requires
        files.sail,
        files.env is Some,
        forall|j: int|
            0 <= j < lines_of(files.env->0@).len() ==> !contains(
                #[trigger] lines_of(files.env->0@)[j],
                "VITE_PORT"@,
            ),
    ensures
        raises(issues_of(files, detection, default_host, true), SAIL_PORT@),
{
    let list = lines_of(files.env->0@);
    lemma_raised(files, detection, default_host, true);
    lemma_vite_port_line(list, 0, list.len() as int);
}

/// A number stands for itself as a value.
proof fn lemma_number_value(port: u16)
    ensures
        value_of(decimal(port as nat)) == decimal(port as nat),
        unquote_end(unquote_start(decimal(port as nat), '"'), '"') == decimal(port as nat),
{
    let p = decimal(port as nat);
    lemma_decimal(port as nat);
    lemma_decimal_plain(port as nat);
    assert forall|j: int| 0 <= j < p.len() implies is_digit(#[trigger] p[j]) by {
        assert(p.contains(p[j]));
    }
    lemma_trim_same(p);
    lemma_no_comment(p, 1);
    assert(p.take(p.len() as int) =~= p);
}

/// A text of digits holds no comment.
proof fn lemma_no_comment(p: Seq<char>, i: int)
    requires
        1 <= i,
        p.len() > 0,
        forall|j: int| 0 <= j < p.len() ==> is_digit(#[trigger] p[j]),
    ensures
        comment_from(p, i) == p.len(),
    decreases p.len() - i,
{
    if i < p.len() {
        assert(is_digit(p[i]));
        lemma_no_comment(p, i + 1);
    }
}

/// A line `VITE_PORT=<port>` settles what Sail publishes: it is reported exactly
/// when the port is 5173, whatever stands above.
#[verifier::spinoff_prover]
#[verifier::rlimit(40)]
pub proof fn law_sail_port_is_read(
    files: PreflightFiles,
    detection: DetectionView,
    default_host: Seq<char>,
    above: Seq<char>,
    port: u16,
)
    requires
        files.sail,
        files.env is Some,
        files.env->0@ == above + ("VITE_PORT="@ + decimal(port as nat) + "\n"@),
        above.len() == 0 || above.last() == '\n',
        forall|j: int|
            0 <= j < lines_of(above).len() ==> !contains(
                #[trigger] lines_of(above)[j],
                "VITE_PORT"@,
            ),
    ensures
        raises(issues_of(files, detection, default_host, true), SAIL_PORT@) <==> port == 5173,
{
    let p = decimal(port as nat);
    let line = "VITE_PORT="@ + p;
    let tail = "VITE_PORT="@ + p + "\n"@;
    let key = "VITE_PORT"@;
    reveal_strlit("VITE_PORT=");
    reveal_strlit("VITE_PORT");
    reveal_strlit("\n");
    reveal_strlit("=");
    reveal_strlit("5173");
    lemma_raised(files, detection, default_host, true);
    lemma_decimal(port as nat);
    lemma_decimal_plain(port as nat);
    assert forall|j: int| 0 <= j < p.len() implies is_digit(#[trigger] p[j]) by {
        assert(p.contains(p[j]));
    }
    assert(tail =~= line.push('\n'));
    assert forall|j: int| 0 <= j < line.len() implies line[j] != '\n' by {
        if j >= 10 {
            assert(line[j] == p[j - 10]);
        }
    }
    lemma_first_of_is(tail, '\n', line.len() as int);
    assert(tail.take(line.len() as int) =~= line);
    assert(tail.skip(line.len() as int + 1) =~= Seq::<char>::empty());
    assert(line.last() == p.last());
    assert(is_digit(p[p.len() - 1]));
    assert(strip_cr(line) == line);
    assert(lines_of(Seq::<char>::empty()) =~= Seq::<Seq<char>>::empty());
    assert(lines_of(tail) =~= seq![line]);
    lemma_lines_append(above, tail);
    let all = lines_of(above + tail);
    let n = lines_of(above).len() as int;
    assert(all =~= lines_of(above).push(line));
    assert forall|j: int| 0 <= j < n implies !contains(#[trigger] all[j], "VITE_PORT"@) by {
        assert(all[j] == lines_of(above)[j]);
    }
    lemma_trim_same(line);
    lemma_trim_same(key);
    assert(line.subrange(9, 10) =~= "="@);
    assert forall|j: int| 0 <= j < 9 implies !occurs_at(line, "="@, j) by {
        assert(line.subrange(j, j + 1)[0] == key[j]);
    }
    lemma_find_of_is(line, "="@, 9);
    assert(line.take(9) =~= key);
    assert(sets_vite_port(line));
    lemma_vite_port_line(all, 0, n);
    assert(!key.contains('='));
    assert(!p.contains('='));
    lemma_split_cons(key, '=', p);
    lemma_split_whole(p, '=');
    assert(line =~= key + seq!['='] + p);
    assert(split_of(line, '=') =~= seq![key, p]);
    lemma_number_value(port);
    assert(vite_port_value(line) == p);
    law_port_round_trip(port);
    law_port_round_trip(5173);
    assert(decimal(5173) =~= "5173"@) by {
        reveal_with_fuel(decimal, 5);
    }
}

/// The report shows the title, the reason and the fix of every issue.
pub proof fn law_report_shows_every_issue(list: Seq<IssueView>, i: int)
    requires
        0 <= i < list.len(),
    ensures
        contains(report_of(list), list[i].title),
        contains(report_of(list), list[i].explain),
        contains(report_of(list), list[i].fix_target),
{
    let head = "\n"@ + bold_of("Preflight checks"@) + "\n\n"@;
    let tail = "  "@ + gray_of("i"@)
        + " fixes are non-destructive — paste, restart your dev server, you're done.\n\n"@;
    assert(report_of(list) =~= head + issue_texts(list) + tail);
    lemma_issue_shown(list, i);
    lemma_contains_inside(head, issue_texts(list), tail, list[i].title);
    lemma_contains_inside(head, issue_texts(list), tail, list[i].explain);
    lemma_contains_inside(head, issue_texts(list), tail, list[i].fix_target);
}

/// Every issue is among the texts.
#[verifier::spinoff_prover]
#[verifier::rlimit(40)]
proof fn lemma_issue_shown(list: Seq<IssueView>, i: int)
    requires
        0 <= i < list.len(),
    ensures
        contains(issue_texts(list), list[i].title),
        contains(issue_texts(list), list[i].explain),
        contains(issue_texts(list), list[i].fix_target),
    decreases list.len(),
{
    let empty = Seq::<char>::empty();
    let before = issue_texts(list.drop_last());
    let last = issue_text(list.last());
    assert(issue_texts(list) =~= before + last + empty);
    assert(issue_texts(list) =~= empty + before + last);
    if i < list.len() - 1 {
        assert(list.drop_last()[i] == list[i]);
        lemma_issue_shown(list.drop_last(), i);
        lemma_contains_inside(empty, before, last, list[i].title);
        lemma_contains_inside(empty, before, last, list[i].explain);
        lemma_contains_inside(empty, before, last, list[i].fix_target);
    } else {
        let it = list.last();
        let a = "  "@ + badge_of(it.severity) + " "@;
        let b = "\n        "@;
        let c = "\n        → "@;
        let e = "\n"@ + indented(lines_of(it.snippet)) + "\n"@;
        lemma_contains_itself(it.title);
        lemma_contains_itself(it.explain);
        lemma_contains_itself(it.fix_target);
        lemma_bold_holds(it.title);
        lemma_contains_inside(a, bold_of(it.title), b + it.explain + c + it.fix_target + e, it.title);
        assert(last =~= a + bold_of(it.title) + (b + it.explain + c + it.fix_target + e));
        lemma_contains_inside(
            a + bold_of(it.title) + b,
            it.explain,
            c + it.fix_target + e,
            it.explain,
        );
        assert(last =~= a + bold_of(it.title) + b + it.explain + (c + it.fix_target + e));
        lemma_contains_inside(
            a + bold_of(it.title) + b + it.explain + c,
            it.fix_target,
            e,
            it.fix_target,
        );
        assert(last =~= a + bold_of(it.title) + b + it.explain + c + it.fix_target + e);
        lemma_contains_inside(before, last, empty, it.title);
        lemma_contains_inside(before, last, empty, it.explain);
        lemma_contains_inside(before, last, empty, it.fix_target);
    }
}

/// Bold print holds the text.
proof fn lemma_bold_holds(s: Seq<char>)
    ensures
        contains(bold_of(s), s),
{
    lemma_contains_itself(s);
    lemma_contains_inside("\u{1b}[1m"@, s, "\u{1b}[0m"@, s);
}

/// Of several variables files or configs, the first that could be read counts.
pub proof fn law_first_readable_counts(bodies: Seq<Option<String>>, k: int)
    requires
        0 <= k <= bodies.len(),
        forall|j: int| 0 <= j < k ==> #[trigger] bodies[j] is None,
    ensures
        k < bodies.len() && bodies[k] is Some ==> first_body(bodies) == opt_text(bodies[k]),
        k == bodies.len() ==> first_body(bodies) is None,
{
    lemma_first_read(bodies, 0, k);
}

/// The first body that could be read.
proof fn lemma_first_read(bodies: Seq<Option<String>>, i: int, k: int)
    requires
        0 <= i <= k <= bodies.len(),
        forall|j: int| i <= j < k ==> #[trigger] bodies[j] is None,
    ensures
        k < bodies.len() && bodies[k] is Some ==> first_read(bodies, i) == k,
        k == bodies.len() ==> first_read(bodies, i) == k,
    decreases k - i,
{
    if i < k {
        assert(bodies[i] is None);
        lemma_first_read(bodies, i + 1, k);
    }
}

/// What keeps a page from loading is a serious issue, a port that may collide or
/// a flag that may be missing a lesser one, and each fix for Vite is written for
/// the project's host.
pub proof fn law_severities(
    config: Option<(Seq<char>, Seq<char>)>,
    host: Seq<char>,
    k: int,
)
    ensures
        0 <= k < vite_issues(config, host).len() ==> vite_issues(config, host)[k].severity
            == Severity::High && contains(
            vite_issues(config, host)[k].snippet,
            "cors: { origin: 'https://"@ + host,
        ),
        0 <= k < nuxt_issues(config).len() ==> nuxt_issues(config)[k].severity == Severity::High,
        sail_issue().severity == Severity::Medium,
        script_issue().severity == Severity::Medium,
{
    lemma_snippets_name_the_host(host);
}

/// Both snippets for Vite allow the project's page.
proof fn lemma_snippets_name_the_host(host: Seq<char>)
    ensures
        contains(vite_bind_snippet(host), "cors: { origin: 'https://"@ + host),
        contains(vite_cors_snippet(host), "cors: { origin: 'https://"@ + host),
{
    let want = "cors: { origin: 'https://"@;
    reveal_strlit("cors: { origin: 'https://");
    reveal_strlit("// inside `server: { ... }`\ncors: { origin: 'https://");
    reveal_strlit("// inside `server: { ... }`\n");
    assert("// inside `server: { ... }`\ncors: { origin: 'https://"@
        =~= "// inside `server: { ... }`\n"@ + want);
    lemma_contains_pair("// inside `server: { ... }`\n"@, want, host);
    lemma_contains_either("// inside `server: { ... }`\n"@ + want + host, "' },"@, want + host);
    reveal_strlit("',\n  cors: { origin: 'https://");
    reveal_strlit("',\n  ");
    assert("',\n  cors: { origin: 'https://"@ =~= "',\n  "@ + want);
    let head = "server: {\n  host: '0.0.0.0',\n  port: 5173,\n  strictPort: true,\n  hmr: { host: 'vite."@
        + host + "', protocol: 'wss', clientPort: 443 },\n  origin: 'https://vite."@ + host;
    assert(head + "',\n  cors: { origin: 'https://"@ =~= (head + "',\n  "@) + want);
    lemma_contains_pair(head + "',\n  "@, want, host);
    lemma_contains_either(
        head + "',\n  cors: { origin: 'https://"@ + host,
        "' },\n}"@,
        want + host,
    );
}

/// Each issue is marked by how serious it is.
pub proof fn law_badges(i: IssueView)
    ensures
        i.severity == Severity::High ==> begins(issue_text(i), "  "@ + red_of("[high]"@)),
        i.severity == Severity::Medium ==> begins(issue_text(i), "  "@ + yellow_of("[med] "@)),
{
    let t = issue_text(i);
    let head = "  "@ + badge_of(i.severity);
    let rest = "\n        → "@ + i.fix_target + "\n"@ + indented(lines_of(i.snippet)) + "\n"@;
    assert(t =~= head + (" "@ + bold_of(i.title) + "\n        "@ + i.explain + rest));
    assert(t.subrange(0, head.len() as int) =~= head);
}

} // verus!
