//! Bringing the global stack up and down with `docker compose`, and the full
//! first-run setup.
//!
//! Each flow is a chain of steps. A step that fails ends its flow; which step
//! follows a successful one is decided here.

use vstd::prelude::*;
use vstd::string::*;

use crate::config::{Config, ConfigView};
use crate::consts::{NETWORK_LABEL, PROXY_NETWORK};
use crate::detect::ports::{port_of, probe_port};
use crate::detect::report::{in_use, DetectionItem, ItemView, Status};
use crate::runner::{command, has_line, lists_line, Invocation, InvocationView, Reply};
use crate::manifest::state::{stack_recorded, StateManifest};
use crate::project::env_file::FileState;
use crate::project::file_provider::lemma_contains_inside;
use crate::stack::certs::{judge_step, must_issue, step_outcome, step_view};
use crate::stack::dnsmasq::drop_in_text;
use crate::stack::resolver::{law_written_resolver_is_ours, resolver_text, to_install};
use crate::stack::templates::differs;
use crate::text::{
    contains, decimal, decimal_u16, lemma_contains_either, lemma_contains_itself,
    lemma_contains_pair, lines_of, opt_text, trim_of,
};

verus! {

/// A step of `henk up`.
#[derive(Debug, Clone, Copy, PartialEq, Eq, Structural)]
pub enum UpStep {
    /// Docker has to run.
    RequireDocker,
    /// The ports have to be free, or henk's own.
    RequirePorts,
    /// Write the stack's files.
    Render,
    /// Upgrade routing files of an older shape.
    Migrate,
    /// Make sure the proxy network exists.
    Network,
    /// `docker compose up -d`.
    ComposeUp,
    /// `docker compose restart`.
    Restart,
    /// Note the stack version in the state manifest.
    RecordVersion,
    /// Print the summary.
    Summary,
    /// The stack is up.
    Done,
}

/// The step after a successful one. The containers are restarted exactly when a
/// file they read only at boot has changed: `docker compose up` does not notice
/// the contents of a mounted file.
pub open spec fn up_after(step: UpStep, boot_config_changed: bool) -> UpStep {
    match step {
        UpStep::RequireDocker => UpStep::RequirePorts,
        UpStep::RequirePorts => UpStep::Render,
        UpStep::Render => UpStep::Migrate,
        UpStep::Migrate => UpStep::Network,
        UpStep::Network => UpStep::ComposeUp,
        UpStep::ComposeUp => if boot_config_changed {
            UpStep::Restart
        } else {
            UpStep::RecordVersion
        },
        UpStep::Restart => UpStep::RecordVersion,
        UpStep::RecordVersion => UpStep::Summary,
        UpStep::Summary => UpStep::Done,
        UpStep::Done => UpStep::Done,
    }
}

/// The step after a successful one.
pub fn up(step: UpStep, boot_config_changed: bool) -> (r: UpStep)
    ensures
        r == up_after(step, boot_config_changed),
{
    match step {
        UpStep::RequireDocker => UpStep::RequirePorts,
        UpStep::RequirePorts => UpStep::Render,
        UpStep::Render => UpStep::Migrate,
        UpStep::Migrate => UpStep::Network,
        UpStep::Network => UpStep::ComposeUp,
        UpStep::ComposeUp => if boot_config_changed {
            UpStep::Restart
        } else {
            UpStep::RecordVersion
        },
        UpStep::Restart => UpStep::RecordVersion,
        UpStep::RecordVersion => UpStep::Summary,
        UpStep::Summary => UpStep::Done,
        UpStep::Done => UpStep::Done,
    }
}

/// The steps of a flow from `step` on.
pub open spec fn up_trace(step: UpStep, boot_config_changed: bool, fuel: nat) -> Seq<UpStep>
    decreases fuel,
{
    if fuel == 0 || step == UpStep::Done {
        seq![]
    } else {
        seq![step] + up_trace(up_after(step, boot_config_changed), boot_config_changed, (fuel
            - 1) as nat)
    }
}

/// `henk up` checks before it writes, starts before it restarts, restarts
/// exactly when boot config changed, and records the version last.
pub proof fn law_up_runs_in_order(boot_config_changed: bool)
    ensures
        up_trace(UpStep::RequireDocker, boot_config_changed, 9) == seq![
            UpStep::RequireDocker,
            UpStep::RequirePorts,
            UpStep::Render,
            UpStep::Migrate,
            UpStep::Network,
            UpStep::ComposeUp,
        ] + (if boot_config_changed {
            seq![UpStep::Restart]
        } else {
            seq![]
        }) + seq![UpStep::RecordVersion, UpStep::Summary],
{
    reveal_with_fuel(up_trace, 10);
    let last = seq![UpStep::RecordVersion, UpStep::Summary];
    let first = seq![
        UpStep::RequireDocker,
        UpStep::RequirePorts,
        UpStep::Render,
        UpStep::Migrate,
        UpStep::Network,
        UpStep::ComposeUp,
    ];
    if boot_config_changed {
        assert(up_trace(UpStep::RequireDocker, true, 9) =~= first + seq![UpStep::Restart] + last);
    } else {
        assert(up_trace(UpStep::RequireDocker, false, 9) =~= first + seq![] + last);
    }
}

/// Re-running the setup repeats none of its work: a certificate that is there is
/// not issued again, and a drop-in and a resolver file that henk wrote are not
/// written again.
pub proof fn law_setup_is_idempotent(tld: Seq<char>, drop_in: String, resolver: String)
    requires
        drop_in@ == drop_in_text(tld),
        resolver@ == resolver_text(),
    ensures
        !must_issue(false, true, true),
        !differs(opt_text(Some(drop_in)), drop_in_text(tld)),
        to_install(FileState::Text(resolver)) == Some(None::<Seq<char>>),
{
    law_written_resolver_is_ours(resolver);
}

/// A step of the first-run setup.
#[derive(Debug, Clone, Copy, PartialEq, Eq, Structural)]
pub enum InitStep {
    RequireDocker,
    RequirePorts,
    /// Install mkcert's local CA.
    Authority,
    /// Issue the wildcard certificate.
    Certificate,
    /// Get dnsmasq going.
    Dnsmasq,
    /// Write the resolver file.
    Resolver,
    /// Bring the stack up.
    Up,
    /// The setup is complete.
    Done,
}

/// The setup step after a successful one.
pub open spec fn init_after(step: InitStep) -> InitStep {
    match step {
        InitStep::RequireDocker => InitStep::RequirePorts,
        InitStep::RequirePorts => InitStep::Authority,
        InitStep::Authority => InitStep::Certificate,
        InitStep::Certificate => InitStep::Dnsmasq,
        InitStep::Dnsmasq => InitStep::Resolver,
        InitStep::Resolver => InitStep::Up,
        InitStep::Up => InitStep::Done,
        InitStep::Done => InitStep::Done,
    }
}

/// The setup step after a successful one. Each step is idempotent, so running
/// the setup again is safe.
pub fn init_full(step: InitStep) -> (r: InitStep)
    ensures
        r == init_after(step),
{
    match step {
        InitStep::RequireDocker => InitStep::RequirePorts,
        InitStep::RequirePorts => InitStep::Authority,
        InitStep::Authority => InitStep::Certificate,
        InitStep::Certificate => InitStep::Dnsmasq,
        InitStep::Dnsmasq => InitStep::Resolver,
        InitStep::Resolver => InitStep::Up,
        InitStep::Up => InitStep::Done,
        InitStep::Done => InitStep::Done,
    }
}

/// What is printed before a setup step.
pub open spec fn init_announcement(step: InitStep, tld: Seq<char>) -> Seq<char> {
    match step {
        InitStep::RequireDocker => seq![],
        InitStep::RequirePorts => seq![],
        InitStep::Authority => "⤷ ensuring mkcert's local CA is installed (may prompt) ...\n"@,
        InitStep::Certificate => "⤷ issuing wildcard cert for *."@ + tld + " (with traefik."@ + tld
            + " as explicit SAN) ...\n"@,
        InitStep::Dnsmasq => "⤷ ensuring Homebrew dnsmasq is installed and running ...\n"@,
        InitStep::Resolver => "⤷ writing /etc/resolver/"@ + tld
            + " (sudo prompt incoming if not cached) ...\n"@,
        InitStep::Up => "⤷ rendering stack templates and starting the global stack ...\n"@,
        InitStep::Done => seq![],
    }
}

/// Nothing to print.
fn nothing() -> (r: String)
    ensures
        r@ == Seq::<char>::empty(),
{
    let none = String::new();
    assert(none@ =~= Seq::<char>::empty());
    none
}

/// What is printed before a setup step.
pub fn announce_init(step: InitStep, tld: &str) -> (r: String)
    ensures
        r@ == init_announcement(step, tld@),
{
    match step {
        InitStep::RequireDocker => nothing(),
        InitStep::RequirePorts => nothing(),
        InitStep::Authority =>
            "⤷ ensuring mkcert's local CA is installed (may prompt) ...\n".to_owned(),
        InitStep::Certificate => "⤷ issuing wildcard cert for *.".to_owned().concat(tld).concat(
            " (with traefik.",
        ).concat(tld).concat(" as explicit SAN) ...\n"),
        InitStep::Dnsmasq =>
            "⤷ ensuring Homebrew dnsmasq is installed and running ...\n".to_owned(),
        InitStep::Resolver => "⤷ writing /etc/resolver/".to_owned().concat(tld).concat(
            " (sudo prompt incoming if not cached) ...\n",
        ),
        InitStep::Up =>
            "⤷ rendering stack templates and starting the global stack ...\n".to_owned(),
        InitStep::Done => nothing(),
    }
}

// ------------------------------------------------------------------------ steps

/// Judges `docker info`: Docker has to run.
pub fn require_docker(reply: &Reply) -> (r: Result<(), String>)
    ensures
        r is Ok <==> reply.succeeded(),
        r matches Err(e) ==> e@
            == "Docker is not running. Start Docker Desktop and try again."@,
{
    if reply.ok() {
        Ok(())
    } else {
        Err("Docker is not running. Start Docker Desktop and try again.".to_owned())
    }
}

/// What `lsof` says about the ports that the stack publishes.
#[derive(Debug)]
pub struct PortReplies {
    pub http: Reply,
    pub https: Reply,
    pub dashboard: Reply,
}

/// A line for a port that something else holds.
pub open spec fn blocker_line(item: ItemView) -> Seq<char> {
    if item.status == Status::Block {
        "  · "@ + item.detail + "\n"@
    } else {
        seq![]
    }
}

/// Does any of the ports block?
pub open spec fn ports_blocked(replies: PortReplies) -> bool {
    ||| port_of("host TCP :80"@, "http"@, replies.http).status == Status::Block
    ||| port_of("host TCP :443"@, "https"@, replies.https).status == Status::Block
    ||| port_of("loopback :dashboard"@, "Traefik dashboard"@, replies.dashboard).status
        == Status::Block
}

/// Why the stack cannot be started on these ports.
pub open spec fn ports_text(replies: PortReplies) -> Seq<char> {
    "cannot bind required ports — Traefik would silently lose these bindings under Docker Desktop:\n"@
        + blocker_line(port_of("host TCP :80"@, "http"@, replies.http)) + blocker_line(
        port_of("host TCP :443"@, "https"@, replies.https),
    ) + blocker_line(
        port_of("loopback :dashboard"@, "Traefik dashboard"@, replies.dashboard),
    ) + "Stop the offending process(es) and re-run."@
}

/// Writes the line for a port that something else holds.
fn blocker(item: &DetectionItem) -> (r: String)
    ensures
        r@ == blocker_line(item@),
{
    if item.status == Status::Block {
        "  · ".to_owned().concat(item.detail.as_str()).concat("\n")
    } else {
        nothing()
    }
}

/// The ports have to be free, unless henk's own proxy is running. Docker Desktop
/// silently drops conflicting bindings, so this is checked before the start.
pub fn require_ports_free(proxy_running: bool, replies: &PortReplies) -> (r: Result<(), String>)
    ensures
        r is Ok <==> proxy_running || !ports_blocked(*replies),
        r matches Err(e) ==> e@ == ports_text(*replies),
{
    if proxy_running {
        return Ok(());
    }
    let http = probe_port("host TCP :80", "http", &replies.http);
    let https = probe_port("host TCP :443", "https", &replies.https);
    let dashboard = probe_port(
        "loopback :dashboard",
        "Traefik dashboard",
        &replies.dashboard,
    );
    if http.status != Status::Block && https.status != Status::Block && dashboard.status
        != Status::Block {
        return Ok(());
    }
    Err(
        "cannot bind required ports — Traefik would silently lose these bindings under Docker Desktop:\n".to_owned().concat(
        blocker(&http).as_str()).concat(blocker(&https).as_str()).concat(
            blocker(&dashboard).as_str(),
        ).concat("Stop the offending process(es) and re-run."),
    )
}

/// Does `docker network ls` list the proxy network?
pub open spec fn network_listed(reply: Reply) -> bool {
    lists_line(reply.out(), PROXY_NETWORK@)
}

/// Decides [`network_listed`].
pub fn lists_network(reply: &Reply) -> (r: bool)
    ensures
        r == network_listed(*reply),
{
    proof {
        reveal_strlit("");
        assert(""@ =~= Seq::<char>::empty());
    }
    match reply {
        Reply::Output(out) => has_line(out.stdout.as_str(), PROXY_NETWORK),
        Reply::Unavailable => has_line("", PROXY_NETWORK),
    }
}

/// `docker network create` for the proxy network, with henk's label.
pub open spec fn network_query() -> InvocationView {
    command("docker"@, seq!["network"@, "create"@, "--label"@, NETWORK_LABEL@, PROXY_NETWORK@])
}

/// `docker network ls`, filtered to a proxy network with henk's label.
pub open spec fn owned_network_query() -> InvocationView {
    command(
        "docker"@,
        seq![
            "network"@,
            "ls"@,
            "--filter"@,
            "name="@ + PROXY_NETWORK@,
            "--filter"@,
            "label="@ + NETWORK_LABEL@,
            "--format"@,
            "{{.Name}}"@,
        ],
    )
}

/// The command that asks whether the proxy network is henk's own.
pub fn owned_network_command() -> (r: Invocation)
    ensures
        r@ == owned_network_query(),
{
    Invocation::new("docker").arg("network").arg("ls").arg("--filter").arg(
        "name=".to_owned().concat(PROXY_NETWORK).as_str(),
    ).arg("--filter").arg("label=".to_owned().concat(NETWORK_LABEL).as_str()).arg("--format").arg(
        "{{.Name}}",
    )
}

/// What is said of a proxy network that somebody else made.
pub const FOREIGN_NETWORK: &'static str =
    "a Docker network named `henk-proxy` exists, but henk did not create it.\nRefusing to use it. Remove it with `docker network rm henk-proxy` and re-run.";

/// Has henk set the stack up on this machine? The record says so, or its proxy is
/// running.
pub open spec fn set_up(state: Option<StateManifest>, proxy_running: bool) -> bool {
    proxy_running || (state matches Some(s) && stack_recorded(s@))
}

/// Has henk set the stack up on this machine?
pub fn stack_set_up(state: &Option<StateManifest>, proxy_running: bool) -> (r: bool)
    requires
        state matches Some(s) ==> s.wf(),
    ensures
        r == set_up(*state, proxy_running),
{
    match state {
        Some(s) => proxy_running || s.records_stack(),
        None => proxy_running,
    }
}

/// Is a proxy network henk's own? It carries henk's label, or henk has set the
/// stack up here: a network made before there was a label has none. `owned`
/// answers the query for the label.
pub open spec fn network_ours(owned: Reply, set_up: bool) -> bool {
    network_listed(owned) || set_up
}

/// The command that creates the proxy network; none when henk's own is there. A
/// network of that name that is not henk's is refused. `listed` answers the
/// query for the name, `owned` the one for the name with henk's label; `set_up`
/// is what [`stack_set_up`] says.
pub fn ensure_network(listed: &Reply, owned: &Reply, set_up: bool) -> (r: Result<
    Option<Invocation>,
    String,
>)
    ensures
        match r {
            Ok(Some(cmd)) => !network_listed(*listed) && cmd@ == network_query(),
            Ok(None) => network_listed(*listed) && network_ours(*owned, set_up),
            Err(e) => network_listed(*listed) && !network_ours(*owned, set_up) && e@
                == FOREIGN_NETWORK@,
        },
{
    if !lists_network(listed) {
        return Ok(
            Some(
                Invocation::new("docker").arg("network").arg("create").arg("--label").arg(
                    NETWORK_LABEL,
                ).arg(PROXY_NETWORK),
            ),
        );
    }
    if set_up || lists_network(owned) {
        Ok(None)
    } else {
        Err(FOREIGN_NETWORK.to_owned())
    }
}

/// henk recognises the network it creates: the label it sets is the one it asks
/// for.
pub proof fn law_created_network_carries_the_label()
    ensures
        network_query().args.contains(NETWORK_LABEL@),
        owned_network_query().args.contains("label="@ + NETWORK_LABEL@),
{
    assert(network_query().args[3] == NETWORK_LABEL@);
    assert(owned_network_query().args[5] == "label="@ + NETWORK_LABEL@);
}

/// Judges the creation of the proxy network.
pub fn network_created(reply: &Reply) -> (r: Result<(), String>)
    ensures
        step_view(r) == step_outcome(
            *reply,
            "creating docker network `henk-proxy`"@,
            "could not create network `henk-proxy`"@,
        ),
{
    judge_step(
        reply,
        "creating docker network `henk-proxy`",
        "could not create network `henk-proxy`",
    )
}

/// `docker compose -f <path> up -d --remove-orphans`.
pub open spec fn compose_up_query(path: Seq<char>) -> InvocationView {
    command("docker"@, seq!["compose"@, "-f"@, path, "up"@, "-d"@, "--remove-orphans"@])
}

/// The command that starts the stack.
pub fn compose_up_command(path: &str) -> (r: Invocation)
    ensures
        r@ == compose_up_query(path@),
{
    Invocation::new("docker").arg("compose").arg("-f").arg(path).arg("up").arg("-d").arg(
        "--remove-orphans",
    )
}

/// Judges the start of the stack.
pub fn compose_up(reply: &Reply) -> (r: Result<(), String>)
    ensures
        step_view(r) == step_outcome(
            *reply,
            "running `docker compose up -d`"@,
            "docker compose up failed"@,
        ),
{
    judge_step(reply, "running `docker compose up -d`", "docker compose up failed")
}

/// `docker compose -f <path> restart`.
pub open spec fn compose_restart_query(path: Seq<char>) -> InvocationView {
    command("docker"@, seq!["compose"@, "-f"@, path, "restart"@])
}

/// The command that restarts the containers, so that they read their boot config
/// again.
pub fn compose_restart_command(path: &str) -> (r: Invocation)
    ensures
        r@ == compose_restart_query(path@),
{
    Invocation::new("docker").arg("compose").arg("-f").arg(path).arg("restart")
}

/// Judges the restart of the containers.
pub fn compose_restart(reply: &Reply) -> (r: Result<(), String>)
    ensures
        step_view(r) == step_outcome(
            *reply,
            "running `docker compose restart`"@,
            "docker compose restart failed"@,
        ),
{
    judge_step(reply, "running `docker compose restart`", "docker compose restart failed")
}

/// `docker compose -f <path> down`.
pub open spec fn compose_down_query(path: Seq<char>) -> InvocationView {
    command("docker"@, seq!["compose"@, "-f"@, path, "down"@])
}

/// The command that stops the stack and keeps it stopped. Without a compose file
/// there is nothing to stop.
pub fn down(compose_path: &str, compose_exists: bool) -> (r: Result<Invocation, String>)
    ensures
        match r {
            Ok(cmd) => compose_exists && cmd@ == compose_down_query(compose_path@),
            Err(e) => !compose_exists && e@ == "henk stack is not configured at "@ + compose_path@
                + ". Run `henk init` first."@,
        },
{
    if !compose_exists {
        return Err(
            "henk stack is not configured at ".to_owned().concat(compose_path).concat(
                ". Run `henk init` first.",
            ),
        );
    }
    Ok(Invocation::new("docker").arg("compose").arg("-f").arg(compose_path).arg("down"))
}

/// Judges the stop of the stack.
pub fn stopped(reply: &Reply) -> (r: Result<(), String>)
    ensures
        step_view(r) == step_outcome(
            *reply,
            "running `docker compose down`"@,
            "docker compose down failed"@,
        ),
{
    judge_step(reply, "running `docker compose down`", "docker compose down failed")
}

/// What is printed when the stack is up.
pub open spec fn up_summary(cfg: ConfigView) -> Seq<char> {
    "\n✓ henk stack is up.\n  Traefik dashboard: https://traefik."@ + cfg.tld
        + " (or http://localhost:"@ + decimal(cfg.ports.dashboard as nat) + ")\n"@
}

/// What is printed when the stack is up.
pub fn print_up_summary(cfg: &Config) -> (r: String)
    ensures
        r@ == up_summary(cfg@),
{
    "\n✓ henk stack is up.\n  Traefik dashboard: https://traefik.".to_owned().concat(
        cfg.tld.as_str(),
    ).concat(" (or http://localhost:").concat(decimal_u16(cfg.ports.dashboard).as_str()).concat(
        ")\n",
    )
}

/// The first-run setup checks before it changes anything, has the certificate
/// before the proxy that serves it, and the resolver after the dnsmasq that it
/// points at; it ends with the stack up.
pub proof fn law_setup_runs_in_order()
    ensures
        ({
            let s0 = InitStep::RequireDocker;
            let s1 = init_after(s0);
            let s2 = init_after(s1);
            let s3 = init_after(s2);
            let s4 = init_after(s3);
            let s5 = init_after(s4);
            let s6 = init_after(s5);
            &&& s1 == InitStep::RequirePorts
            &&& s2 == InitStep::Authority
            &&& s3 == InitStep::Certificate
            &&& s4 == InitStep::Dnsmasq
            &&& s5 == InitStep::Resolver
            &&& s6 == InitStep::Up
            &&& init_after(s6) == InitStep::Done
            &&& init_after(InitStep::Done) == InitStep::Done
        }),
{
}

/// The stack cannot be started exactly when `lsof` lists something on one of its
/// three ports, and the refusal names what holds them.
pub proof fn law_held_ports_stop_the_stack(replies: PortReplies)
    ensures
        ports_blocked(replies) <==> in_use(replies.http) || in_use(replies.https) || in_use(
            replies.dashboard,
        ),
        in_use(replies.http) ==> contains(
            ports_text(replies),
            port_of("host TCP :80"@, "http"@, replies.http).detail,
        ),
        in_use(replies.https) ==> contains(
            ports_text(replies),
            port_of("host TCP :443"@, "https"@, replies.https).detail,
        ),
        in_use(replies.dashboard) ==> contains(
            ports_text(replies),
            port_of("loopback :dashboard"@, "Traefik dashboard"@, replies.dashboard).detail,
        ),
{
    let head =
        "cannot bind required ports — Traefik would silently lose these bindings under Docker Desktop:\n"@;
    let tail = "Stop the offending process(es) and re-run."@;
    let a = port_of("host TCP :80"@, "http"@, replies.http);
    let b = port_of("host TCP :443"@, "https"@, replies.https);
    let c = port_of("loopback :dashboard"@, "Traefik dashboard"@, replies.dashboard);
    let all = ports_text(replies);
    let x = blocker_line(a);
    let y = blocker_line(b);
    let z = blocker_line(c);
    if in_use(replies.http) {
        lemma_blocker_named(a);
        assert(all =~= head + x + (y + z + tail));
        lemma_contains_inside(head, x, y + z + tail, a.detail);
    }
    if in_use(replies.https) {
        lemma_blocker_named(b);
        assert(all =~= head + x + y + (z + tail));
        lemma_contains_inside(head + x, y, z + tail, b.detail);
    }
    if in_use(replies.dashboard) {
        lemma_blocker_named(c);
        lemma_contains_inside(head + x + y, z, tail, c.detail);
    }
}

/// The line of a port that blocks says what holds it.
proof fn lemma_blocker_named(item: ItemView)
    requires
        item.status == Status::Block,
    ensures
        contains(blocker_line(item), item.detail),
{
    lemma_contains_itself(item.detail);
    lemma_contains_inside("  · "@, item.detail, "\n"@, item.detail);
}

/// A proxy network counts as henk's own when it carries henk's label, or when
/// henk has set its stack up here; otherwise it is somebody else's.
pub proof fn law_network_owner(owned: Reply, state: Option<StateManifest>, running: bool)
    ensures
        network_ours(owned, set_up(state, running)) <==> {
            ||| running
            ||| state matches Some(s) && stack_recorded(s@)
            ||| exists|i: int|
                0 <= i < lines_of(owned.out()).len() && trim_of(
                    #[trigger] lines_of(owned.out())[i],
                ) == "henk-proxy"@
        },
{
}

/// The commands that start, restart and stop the stack all run on the compose
/// file they are given; starting detaches and drops containers that are no
/// longer in the file.
pub proof fn law_stack_commands(path: Seq<char>)
    ensures
        compose_up_query(path).args.subrange(0, 3) == seq!["compose"@, "-f"@, path],
        compose_up_query(path).args.skip(3) == seq!["up"@, "-d"@, "--remove-orphans"@],
        compose_restart_query(path).args == seq!["compose"@, "-f"@, path, "restart"@],
        compose_down_query(path).args == seq!["compose"@, "-f"@, path, "down"@],
        compose_up_query(path).program == "docker"@,
        compose_restart_query(path).program == "docker"@,
        compose_down_query(path).program == "docker"@,
{
    assert(compose_up_query(path).args.subrange(0, 3) =~= seq!["compose"@, "-f"@, path]);
    assert(compose_up_query(path).args.skip(3) =~= seq!["up"@, "-d"@, "--remove-orphans"@]);
}

/// The closing words give both addresses of the dashboard.
pub proof fn law_up_summary_shows_the_dashboard(cfg: ConfigView)
    ensures
        contains(
            up_summary(cfg),
            "\n✓ henk stack is up.\n  Traefik dashboard: https://traefik."@ + cfg.tld,
        ),
        contains(
            up_summary(cfg),
            " (or http://localhost:"@ + decimal(cfg.ports.dashboard as nat),
        ),
{
    let p = decimal(cfg.ports.dashboard as nat);
    let a = "\n✓ henk stack is up.\n  Traefik dashboard: https://traefik."@ + cfg.tld;
    let t1 = a + " (or http://localhost:"@;
    let t2 = t1 + p;
    lemma_contains_itself(a);
    lemma_contains_either(a, " (or http://localhost:"@, a);
    lemma_contains_either(t1, p, a);
    lemma_contains_either(t2, ")\n"@, a);
    lemma_contains_pair(a, " (or http://localhost:"@, p);
    lemma_contains_either(t2, ")\n"@, " (or http://localhost:"@ + p);
}

/// The network counts as there when Docker lists it by its whole name.
pub proof fn law_network_is_found_by_name(reply: Reply, i: int)
    ensures
        0 <= i < lines_of(reply.out()).len() && trim_of(lines_of(reply.out())[i]) == "henk-proxy"@
            ==> network_listed(reply),
        (forall|j: int|
            0 <= j < lines_of(reply.out()).len() ==> trim_of(#[trigger] lines_of(reply.out())[j])
                != "henk-proxy"@) ==> !network_listed(reply),
{
}

/// The refusal names every port that is held, by what holds it.
pub proof fn law_refusal_names_the_holders(replies: PortReplies)
    ensures
        ({
            let http = port_of("host TCP :80"@, "http"@, replies.http);
            let https = port_of("host TCP :443"@, "https"@, replies.https);
            let board = port_of("loopback :dashboard"@, "Traefik dashboard"@, replies.dashboard);
            &&& http.status == Status::Block ==> contains(ports_text(replies), http.detail)
            &&& https.status == Status::Block ==> contains(ports_text(replies), https.detail)
            &&& board.status == Status::Block ==> contains(ports_text(replies), board.detail)
        }),
{
    let http = port_of("host TCP :80"@, "http"@, replies.http);
    let https = port_of("host TCP :443"@, "https"@, replies.https);
    let board = port_of("loopback :dashboard"@, "Traefik dashboard"@, replies.dashboard);
    let t0 = "cannot bind required ports — Traefik would silently lose these bindings under Docker Desktop:\n"@;
    let a = blocker_line(http);
    let b = blocker_line(https);
    let c = blocker_line(board);
    let close = "Stop the offending process(es) and re-run."@;
    if http.status == Status::Block {
        lemma_blocker_line(http);
        lemma_contains_either(t0, a, http.detail);
        lemma_contains_either(t0 + a, b, http.detail);
        lemma_contains_either(t0 + a + b, c, http.detail);
        lemma_contains_either(t0 + a + b + c, close, http.detail);
    }
    if https.status == Status::Block {
        lemma_blocker_line(https);
        lemma_contains_either(t0 + a, b, https.detail);
        lemma_contains_either(t0 + a + b, c, https.detail);
        lemma_contains_either(t0 + a + b + c, close, https.detail);
    }
    if board.status == Status::Block {
        lemma_blocker_line(board);
        lemma_contains_either(t0 + a + b, c, board.detail);
        lemma_contains_either(t0 + a + b + c, close, board.detail);
    }
}

/// The line of a port that is held shows what holds it.
proof fn lemma_blocker_line(item: ItemView)
    requires
        item.status == Status::Block,
    ensures
        contains(blocker_line(item), item.detail),
{
    lemma_contains_itself(item.detail);
    lemma_contains_either("  · "@, item.detail, item.detail);
    lemma_contains_either("  · "@ + item.detail, "\n"@, item.detail);
}

} // verus!
