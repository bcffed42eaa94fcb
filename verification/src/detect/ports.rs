//! Port-binding probes via `lsof`: what, if anything, listens on the host ports
//! henk wants to bind.

use vstd::prelude::*;
use vstd::string::*;

use crate::detect::report::{item, row, DetectionItem, ItemView, Status};
use crate::runner::{command, Invocation, InvocationView, Reply};
use crate::text::{
    begins, decimal, decimal_u16, lines, lines_of, opt_text, strip_prefix, strip_prefix_of, texts, trim,
    trim_of,
};

verus! {

/// `lsof` for the listeners on a TCP port, in its field format.
pub open spec fn port_query(port: u16) -> InvocationView {
    command(
        "lsof"@,
        seq!["-nP"@, "-sTCP:LISTEN"@, "-F"@, "pcn"@, "-iTCP:"@ + decimal(port as nat)],
    )
}

/// The command that [`probe_port`] reads.
pub fn port_command(port: u16) -> (r: Invocation)
    ensures
        r@ == port_query(port),
{
    Invocation::new("lsof").arg("-nP").arg("-sTCP:LISTEN").arg("-F").arg("pcn").arg(
        "-iTCP:".to_owned().concat(decimal_u16(port).as_str()).as_str(),
    )
}

/// Process and command of a listener, as far as `lsof` told.
pub struct Listener {
    pub pid: Option<Seq<char>>,
    pub cmd: Option<Seq<char>>,
}

/// Reads `lsof -F` fields from line `i` on: `p` lines carry a process id, and
/// the first `c` line ends the search with its command.
pub open spec fn listener_from(list: Seq<Seq<char>>, i: int, pid: Option<Seq<char>>) -> Listener
    decreases list.len() - i,
{
    if i < 0 || i >= list.len() {
        Listener { pid, cmd: None }
    } else if strip_prefix_of(list[i], "p"@) is Some {
        listener_from(list, i + 1, strip_prefix_of(list[i], "p"@))
    } else if strip_prefix_of(list[i], "c"@) is Some {
        Listener { pid, cmd: strip_prefix_of(list[i], "c"@) }
    } else {
        listener_from(list, i + 1, pid)
    }
}

/// A text, or a stand-in for it.
pub open spec fn or_else(t: Option<Seq<char>>, other: Seq<char>) -> Seq<char> {
    match t {
        Some(s) => s,
        None => other,
    }
}

/// The row of a port. It blocks exactly when `lsof` lists a listener.
pub open spec fn port_of(name: Seq<char>, purpose: Seq<char>, reply: Reply) -> ItemView {
    match reply {
        Reply::Unavailable => row(
            name,
            Status::Warn,
            "could not invoke `lsof` — is it installed?"@,
        ),
        Reply::Output(out) => if out.status == 0 && trim_of(out.stdout@).len() > 0 {
            let l = listener_from(lines_of(out.stdout@), 0, None);
            row(
                name,
                Status::Block,
                "in use by `"@ + or_else(l.cmd, "unknown"@) + "` (pid "@ + or_else(l.pid, "?"@)
                    + ") — needed for "@ + purpose + "; stop it or pick another port"@,
            )
        } else {
            row(name, Status::Okay, "free (will be used for "@ + purpose + ")"@)
        },
    }
}

/// Reads the first listener that `lsof -F` lists.
fn first_listener(stdout: &str) -> (r: (Option<String>, Option<String>))
    ensures
        opt_text(r.0) == listener_from(lines_of(stdout@), 0, None).pid,
        opt_text(r.1) == listener_from(lines_of(stdout@), 0, None).cmd,
{
    let list = lines(stdout);
    let ghost all = lines_of(stdout@);
    let mut pid: Option<String> = None;
    let mut i: usize = 0;
    while i < list.len()
        invariant
            i <= list@.len(),
            all == texts(list@),
            all == lines_of(stdout@),
            listener_from(all, i as int, opt_text(pid)) == listener_from(all, 0, None),
        decreases list@.len() - i,
    {
        assert(all[i as int] == list@[i as int]@);
        if let Some(rest) = strip_prefix(list[i].as_str(), "p") {
            pid = Some(rest);
        } else if let Some(rest) = strip_prefix(list[i].as_str(), "c") {
            return (pid, Some(rest));
        }
        i += 1;
    }
    (pid, None)
}

/// Probes a TCP port. `name` is the label of the row, `purpose` what henk wants
/// to use the port for.
pub fn probe_port(name: &'static str, purpose: &str, reply: &Reply) -> (r: DetectionItem)
    ensures
        r@ == port_of(name@, purpose@, *reply),
{
    match reply {
        Reply::Unavailable => item(
            name,
            Status::Warn,
            "could not invoke `lsof` — is it installed?".to_owned(),
        ),
        Reply::Output(out) => {
            if out.ok() && !trim(out.stdout.as_str()).as_str().is_empty() {
                let (pid, cmd) = first_listener(out.stdout.as_str());
                let cmd = match cmd {
                    Some(c) => c,
                    None => "unknown".to_owned(),
                };
                let pid = match pid {
                    Some(p) => p,
                    None => "?".to_owned(),
                };
                return item(
                    name,
                    Status::Block,
                    "in use by `".to_owned().concat(cmd.as_str()).concat("` (pid ").concat(
                        pid.as_str(),
                    ).concat(") — needed for ").concat(purpose).concat(
                        "; stop it or pick another port",
                    ),
                );
            }
            item(
                name,
                Status::Okay,
                "free (will be used for ".to_owned().concat(purpose).concat(")"),
            )
        },
    }
}

/// A port blocks exactly when `lsof` ran and lists something; when `lsof` cannot
/// be run that is worth a warning, and otherwise the port is free.
pub proof fn law_listeners_block(name: Seq<char>, purpose: Seq<char>, reply: Reply)
    ensures
        ({
            let r = port_of(name, purpose, reply);
            &&& r.name == name
            &&& r.status == Status::Block <==> reply.succeeded() && trim_of(reply.out()).len() > 0
            &&& r.status == Status::Warn <==> reply is Unavailable
            &&& r.status != Status::Info
        }),
{
}

/// The listener that is named is the first one with a command, with the process
/// id that was listed last before it.
pub proof fn law_first_listener_is_named(
    list: Seq<Seq<char>>,
    i: int,
    pid: Option<Seq<char>>,
    k: int,
    j: int,
    id: Seq<char>,
    cmd: Seq<char>,
)
    requires
        0 <= i <= j < k < list.len(),
        list[j] == "p"@ + id,
        list[k] == "c"@ + cmd,
        forall|x: int| i <= x < k ==> !begins(#[trigger] list[x], "c"@),
        forall|x: int| j < x < k ==> !begins(#[trigger] list[x], "p"@),
    ensures
        listener_from(list, i, pid).pid == Some(id),
        listener_from(list, i, pid).cmd == Some(cmd),
    decreases k - i,
{
    reveal_strlit("p");
    reveal_strlit("c");
    lemma_field("p"@, id);
    if i < j {
        assert(!begins(list[i], "c"@));
        law_first_listener_is_named(
            list,
            i + 1,
            if strip_prefix_of(list[i], "p"@) is Some {
                strip_prefix_of(list[i], "p"@)
            } else {
                pid
            },
            k,
            j,
            id,
            cmd,
        );
    } else {
        lemma_command_found(list, i + 1, Some(id), k, cmd);
    }
}

/// A field with its mark.
proof fn lemma_field(mark: Seq<char>, rest: Seq<char>)
    ensures
        begins(mark + rest, mark),
        strip_prefix_of(mark + rest, mark) == Some(rest),
{
    assert((mark + rest).subrange(0, mark.len() as int) =~= mark);
    assert((mark + rest).skip(mark.len() as int) =~= rest);
}

/// Once no further process is listed, the next command ends the search.
proof fn lemma_command_found(
    list: Seq<Seq<char>>,
    i: int,
    pid: Option<Seq<char>>,
    k: int,
    cmd: Seq<char>,
)
    requires
        0 <= i <= k < list.len(),
        list[k] == "c"@ + cmd,
        forall|x: int| i <= x < k ==> !begins(#[trigger] list[x], "c"@),
        forall|x: int| i <= x < k ==> !begins(#[trigger] list[x], "p"@),
    ensures
        listener_from(list, i, pid).pid == pid,
        listener_from(list, i, pid).cmd == Some(cmd),
    decreases k - i,
{
    reveal_strlit("p");
    reveal_strlit("c");
    lemma_field("c"@, cmd);
    if i < k {
        assert(!begins(list[i], "c"@));
        assert(!begins(list[i], "p"@));
        lemma_command_found(list, i + 1, pid, k, cmd);
    } else {
        assert(list[k][0] == 'c');
        if begins(list[k], "p"@) {
            assert(list[k].subrange(0, 1)[0] == 'p');
        }
    }
}

/// The probe asks for the listeners on the very port it is about.
pub proof fn law_probe_asks_for_its_port(port: u16)
    ensures
        port_query(port).program == "lsof"@,
        port_query(port).args.contains("-iTCP:"@ + decimal(port as nat)),
        port_query(port).args.contains("-sTCP:LISTEN"@),
{
    assert(port_query(port).args[4] == "-iTCP:"@ + decimal(port as nat));
    assert(port_query(port).args[1] == "-sTCP:LISTEN"@);
}

} // verus!
