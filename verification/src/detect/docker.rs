//! Docker-related probes.

use vstd::prelude::*;
use vstd::string::*;

use crate::consts::PROXY_NETWORK;
use crate::detect::report::{item, row, DetectionItem, ItemView, Status};
use crate::runner::{
    command, first_line_of, has_line, lists_line, Invocation, InvocationView, Reply,
};
use crate::text::{eq, join, join_of, lines, lines_of, texts, trim, trim_of};

verus! {

/// `docker info`, for the server version.
pub open spec fn docker_info_query() -> InvocationView {
    command("docker"@, seq!["info"@, "--format"@, "{{.ServerVersion}}"@])
}

/// The command that [`probe`] reads.
pub fn docker_info_command() -> (r: Invocation)
    ensures
        r@ == docker_info_query(),
{
    Invocation::new("docker").arg("info").arg("--format").arg("{{.ServerVersion}}")
}

/// The Docker row: Docker has to be installed and its daemon reachable.
pub open spec fn docker_of(in_path: bool, info: Reply) -> ItemView {
    if !in_path {
        row("Docker"@, Status::Block, "not found in $PATH (install Docker Desktop)"@)
    } else {
        match info {
            Reply::Unavailable => row("Docker"@, Status::Block, "could not invoke `docker info`"@),
            Reply::Output(out) => if out.status != 0 {
                row(
                    "Docker"@,
                    Status::Block,
                    "installed but daemon not reachable (start Docker Desktop)"@,
                )
            } else {
                row(
                    "Docker"@,
                    Status::Okay,
                    "running ("@ + (match first_line_of(out.stdout@) {
                        Some(version) => version,
                        None => "unknown"@,
                    }) + ")"@,
                )
            },
        }
    }
}

/// Is Docker installed and the daemon reachable?
pub fn probe(in_path: bool, info: &Reply) -> (r: DetectionItem)
    ensures
        r@ == docker_of(in_path, *info),
{
    if !in_path {
        return item(
            "Docker",
            Status::Block,
            "not found in $PATH (install Docker Desktop)".to_owned(),
        );
    }
    match info {
        Reply::Unavailable => item(
            "Docker",
            Status::Block,
            "could not invoke `docker info`".to_owned(),
        ),
        Reply::Output(out) => {
            if !out.ok() {
                return item(
                    "Docker",
                    Status::Block,
                    "installed but daemon not reachable (start Docker Desktop)".to_owned(),
                );
            }
            let version = match out.first_line() {
                Some(v) => v,
                None => "unknown".to_owned(),
            };
            item(
                "Docker",
                Status::Okay,
                "running (".to_owned().concat(version.as_str()).concat(")"),
            )
        },
    }
}

/// `docker network ls`, filtered to the proxy network.
pub open spec fn proxy_network_query() -> InvocationView {
    command(
        "docker"@,
        seq![
            "network"@,
            "ls"@,
            "--filter"@,
            "name="@ + PROXY_NETWORK@,
            "--format"@,
            "{{.Name}}"@,
        ],
    )
}

/// The command that [`probe_proxy_network`] reads.
pub fn proxy_network_command() -> (r: Invocation)
    ensures
        r@ == proxy_network_query(),
{
    Invocation::new("docker").arg("network").arg("ls").arg("--filter").arg(
        "name=".to_owned().concat(PROXY_NETWORK).as_str(),
    ).arg("--format").arg("{{.Name}}")
}

/// The row of the proxy network.
pub open spec fn proxy_network_of(reply: Reply) -> ItemView {
    if !reply.succeeded() {
        row("henk-proxy network"@, Status::Warn, "could not query Docker networks"@)
    } else if lists_line(reply.out(), PROXY_NETWORK@) {
        row(
            "henk-proxy network"@,
            Status::Info,
            "exists (will be reused if it's ours, else aborts)"@,
        )
    } else {
        row("henk-proxy network"@, Status::Okay, "absent (will be created)"@)
    }
}

/// Does the proxy network already exist?
pub fn probe_proxy_network(reply: &Reply) -> (r: DetectionItem)
    ensures
        r@ == proxy_network_of(*reply),
{
    if let Reply::Output(out) = reply {
        if out.ok() {
            return if has_line(out.stdout.as_str(), PROXY_NETWORK) {
                item(
                    "henk-proxy network",
                    Status::Info,
                    "exists (will be reused if it's ours, else aborts)".to_owned(),
                )
            } else {
                item("henk-proxy network", Status::Okay, "absent (will be created)".to_owned())
            };
        }
    }
    item("henk-proxy network", Status::Warn, "could not query Docker networks".to_owned())
}

/// `docker ps`, filtered to Traefik containers.
pub open spec fn traefik_query() -> InvocationView {
    command(
        "docker"@,
        seq!["ps"@, "--filter"@, "ancestor=traefik"@, "--format"@, "{{.Names}}"@],
    )
}

/// The command that [`probe_foreign_traefik`] reads.
pub fn traefik_command() -> (r: Invocation)
    ensures
        r@ == traefik_query(),
{
    Invocation::new("docker").arg("ps").arg("--filter").arg("ancestor=traefik").arg(
        "--format",
    ).arg("{{.Names}}")
}

/// The name of henk's own proxy container.
pub const PROXY_CONTAINER: &'static str = "henk-traefik";

/// The containers in a list of lines that are not henk's own proxy.
pub open spec fn foreign_names(list: Seq<Seq<char>>) -> Seq<Seq<char>>
    decreases list.len(),
{
    if list.len() == 0 {
        seq![]
    } else {
        let before = foreign_names(list.drop_last());
        let name = trim_of(list.last());
        if name.len() > 0 && name != PROXY_CONTAINER@ {
            before.push(name)
        } else {
            before
        }
    }
}

/// The row of other Traefik containers.
pub open spec fn foreign_traefik_of(reply: Reply) -> ItemView {
    if !reply.succeeded() {
        row("foreign Traefik"@, Status::Info, "could not enumerate (Docker probe failed)"@)
    } else {
        let names = foreign_names(lines_of(reply.out()));
        if names.len() == 0 {
            row("foreign Traefik"@, Status::Okay, "none running"@)
        } else {
            row(
                "foreign Traefik"@,
                Status::Warn,
                "found: "@ + join_of(names, ", "@) + " (may compete for ports)"@,
            )
        }
    }
}

/// Names of the containers that are not henk's own proxy.
fn foreign(stdout: &str) -> (r: Vec<String>)
    ensures
        texts(r@) == foreign_names(lines_of(stdout@)),
{
    let list = lines(stdout);
    let ghost all = lines_of(stdout@);
    let mut out: Vec<String> = Vec::new();
    let mut i: usize = 0;
    assert(texts(out@) =~= foreign_names(all.take(0)));
    while i < list.len()
        invariant
            i <= list@.len(),
            all == texts(list@),
            all == lines_of(stdout@),
            texts(out@) == foreign_names(all.take(i as int)),
        decreases list@.len() - i,
    {
        assert(all.take(i + 1).drop_last() =~= all.take(i as int));
        assert(all.take(i + 1).last() == list@[i as int]@);
        let ghost before = texts(out@);
        let name = trim(list[i].as_str());
        if !name.as_str().is_empty() && !eq(name.as_str(), PROXY_CONTAINER) {
            let ghost word = name@;
            out.push(name);
            assert(texts(out@) =~= before.push(word));
        }
        i += 1;
    }
    assert(all.take(i as int) =~= all);
    out
}

/// Are there any other Traefik containers running on the host?
pub fn probe_foreign_traefik(reply: &Reply) -> (r: DetectionItem)
    ensures
        r@ == foreign_traefik_of(*reply),
{
    if let Reply::Output(out) = reply {
        if out.ok() {
            let names = foreign(out.stdout.as_str());
            return if names.len() == 0 {
                item("foreign Traefik", Status::Okay, "none running".to_owned())
            } else {
                item(
                    "foreign Traefik",
                    Status::Warn,
                    "found: ".to_owned().concat(join(&names, ", ").as_str()).concat(
                        " (may compete for ports)",
                    ),
                )
            };
        }
    }
    item(
        "foreign Traefik",
        Status::Info,
        "could not enumerate (Docker probe failed)".to_owned(),
    )
}

/// Another Traefik is one that runs under any other name than henk's own proxy:
/// exactly those are listed.
pub proof fn law_other_proxies_are_listed(list: Seq<Seq<char>>, name: Seq<char>)
    ensures
        foreign_names(list).contains(name) <==> name.len() > 0 && name != "henk-traefik"@ && exists|
            i: int,
        |
            0 <= i < list.len() && trim_of(#[trigger] list[i]) == name,
    decreases list.len(),
{
    if list.len() > 0 {
        let rest = list.drop_last();
        let was = foreign_names(rest);
        let now = foreign_names(list);
        let n = list.len() - 1;
        law_other_proxies_are_listed(rest, name);
        if was.contains(name) {
            let k = choose|k: int| 0 <= k < was.len() && was[k] == name;
            assert(now[k] == name);
            let i = choose|i: int| 0 <= i < rest.len() && trim_of(#[trigger] rest[i]) == name;
            assert(list[i] == rest[i]);
        }
        if now.contains(name) && !was.contains(name) {
            let k = choose|k: int| 0 <= k < now.len() && now[k] == name;
            if k < was.len() {
                assert(was[k] == name);
            }
            assert(trim_of(list[n]) == name);
        }
        if name.len() > 0 && name != PROXY_CONTAINER@ && (exists|i: int|
            0 <= i < list.len() && trim_of(#[trigger] list[i]) == name) {
            let i = choose|i: int| 0 <= i < list.len() && trim_of(#[trigger] list[i]) == name;
            if i < n {
                assert(rest[i] == list[i]);
            } else {
                assert(now.last() == name);
                assert(now[was.len() as int] == name);
            }
        }
    }
}

/// Other proxies are worth a warning exactly when Docker lists one.
pub proof fn law_other_proxies_warn(reply: Reply)
    ensures
        foreign_traefik_of(reply).status == Status::Warn <==> reply.succeeded() && exists|i: int|
            0 <= i < lines_of(reply.out()).len() && trim_of(
                #[trigger] lines_of(reply.out())[i],
            ).len() > 0 && trim_of(lines_of(reply.out())[i]) != "henk-traefik"@,
{
    let list = lines_of(reply.out());
    let names = foreign_names(list);
    if names.len() > 0 {
        law_other_proxies_are_listed(list, names[0]);
        assert(names.contains(names[0]));
        let i = choose|i: int| 0 <= i < list.len() && trim_of(#[trigger] list[i]) == names[0];
        assert(trim_of(list[i]).len() > 0);
    }
    if exists|i: int|
        0 <= i < list.len() && trim_of(#[trigger] list[i]).len() > 0 && trim_of(list[i])
            != "henk-traefik"@ {
        let i = choose|i: int|
            0 <= i < list.len() && trim_of(#[trigger] list[i]).len() > 0 && trim_of(list[i])
                != "henk-traefik"@;
        law_other_proxies_are_listed(list, trim_of(list[i]));
    }
}

/// The proxy network is reported as there exactly when Docker lists that very
/// name.
pub proof fn law_proxy_network_row(reply: Reply)
    ensures
        proxy_network_of(reply).status == Status::Warn <==> !reply.succeeded(),
        proxy_network_of(reply).status == Status::Info <==> reply.succeeded() && exists|i: int|
            0 <= i < lines_of(reply.out()).len() && trim_of(#[trigger] lines_of(reply.out())[i])
                == "henk-proxy"@,
{
}

/// Docker is fine exactly when it is installed and its daemon answered; anything
/// else blocks.
pub proof fn law_docker_row(in_path: bool, info: Reply)
    ensures
        docker_of(in_path, info).status == Status::Okay <==> in_path && info.succeeded(),
        docker_of(in_path, info).status == Status::Block <==> !in_path || !info.succeeded(),
{
}

/// Docker is asked for the proxies by their image, for the network by henk's
/// name, and only asked.
pub proof fn law_docker_is_only_asked()
    ensures
        docker_info_query().args[0] == "info"@,
        traefik_query().args == seq![
            "ps"@,
            "--filter"@,
            "ancestor=traefik"@,
            "--format"@,
            "{{.Names}}"@,
        ],
        proxy_network_query().args[0] == "network"@,
        proxy_network_query().args[1] == "ls"@,
        proxy_network_query().args.contains("name="@ + "henk-proxy"@),
{
    assert(proxy_network_query().args[3] == "name="@ + "henk-proxy"@);
}

} // verus!
