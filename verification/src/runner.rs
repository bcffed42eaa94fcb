//! Commands henk runs, and what it reads from their output.
//!
//! The library decides which command to run and what its output means; running
//! it is left to the caller, who hands the outcome back as a [`Reply`].

use vstd::prelude::*;
use vstd::string::*;

use crate::text::{
    begins, ends, eq, lines, lines_of, texts, trim, trim_end, trim_end_of, trim_of,
};

verus! {

/// Handle for command execution. It carries no state.
#[derive(Debug, Clone, Copy, PartialEq, Eq, Structural)]
pub struct SystemRunner;

impl SystemRunner {
    /// A runner.
    pub fn new() -> (r: SystemRunner)
        ensures
            r == SystemRunner,
    {
        SystemRunner
    }
}

/// A command line: program and arguments.
#[derive(Debug, PartialEq, Eq)]
pub struct Invocation {
    pub program: String,
    pub args: Vec<String>,
}

/// The view of an [`Invocation`].
#[verifier::ext_equal]
pub struct InvocationView {
    pub program: Seq<char>,
    pub args: Seq<Seq<char>>,
}

impl View for Invocation {
    type V = InvocationView;

    open spec fn view(&self) -> InvocationView {
        InvocationView { program: self.program@, args: texts(self.args@) }
    }
}

/// The command line of `program` with `args`.
pub open spec fn command(program: Seq<char>, args: Seq<Seq<char>>) -> InvocationView {
    InvocationView { program, args }
}

impl Invocation {
    /// `program` without arguments.
    pub fn new(program: &str) -> (r: Invocation)
        ensures
            r@ == command(program@, seq![]),
    {
        let r = Invocation { program: program.to_owned(), args: Vec::new() };
        assert(r@.args =~= seq![]);
        r
    }

    /// The same command with one more argument.
    pub fn arg(self, a: &str) -> (r: Invocation)
        ensures
            r@ == command(self@.program, self@.args.push(a@)),
    {
        let mut args = self.args;
        let ghost before = texts(args@);
        args.push(a.to_owned());
        assert(texts(args@) =~= before.push(a@));
        Invocation { program: self.program, args }
    }
}

/// What a command that ran left behind.
#[derive(Debug)]
pub struct CommandOutput {
    /// Exit code, -1 when the process was killed by a signal.
    pub status: i32,
    pub stdout: String,
    pub stderr: String,
}

/// The outcome of trying to run a command.
#[derive(Debug)]
pub enum Reply {
    /// The command ran.
    Output(CommandOutput),
    /// The command could not be executed at all.
    Unavailable,
}

/// The first text that is not empty after trimming, trimmed.
pub open spec fn first_full(list: Seq<Seq<char>>) -> Option<Seq<char>>
    decreases list.len(),
{
    if list.len() == 0 {
        None
    } else if trim_of(list[0]).len() > 0 {
        Some(trim_of(list[0]))
    } else {
        first_full(list.drop_first())
    }
}

/// The first non-empty line of an output, trimmed.
pub open spec fn first_line_of(stdout: Seq<char>) -> Option<Seq<char>> {
    first_full(lines_of(stdout))
}

impl CommandOutput {
    /// Did the command exit with code 0?
    pub fn ok(&self) -> (r: bool)
        ensures
            r == (self.status == 0),
    {
        self.status == 0
    }

    /// The first non-empty line of stdout, trimmed.
    pub fn first_line(&self) -> (r: Option<String>)
        ensures
            crate::text::opt_text(r) == first_line_of(self.stdout@),
    {
        first_line_in(self.stdout.as_str())
    }
}

/// The first non-empty line of `stdout`, trimmed.
pub fn first_line_in(stdout: &str) -> (r: Option<String>)
    ensures
        crate::text::opt_text(r) == first_line_of(stdout@),
{
    let list = lines(stdout);
    let ghost all = texts(list@);
    let mut i: usize = 0;
    assert(all.skip(0) =~= all);
    while i < list.len()
        invariant
            i <= list@.len(),
            all == texts(list@),
            all == lines_of(stdout@),
            first_full(all.skip(i as int)) == first_full(all),
        decreases list@.len() - i,
    {
        let t = trim(list[i].as_str());
        assert(all.skip(i as int)[0] == list@[i as int]@);
        if !t.as_str().is_empty() {
            return Some(t);
        }
        assert(all.skip(i as int).drop_first() =~= all.skip(i + 1));
        i += 1;
    }
    None
}

impl Reply {
    /// The command ran and exited with code 0.
    pub open spec fn succeeded(self) -> bool {
        match self {
            Reply::Output(o) => o.status == 0,
            Reply::Unavailable => false,
        }
    }

    /// The standard output of a command that ran.
    pub open spec fn out(self) -> Seq<char> {
        match self {
            Reply::Output(o) => o.stdout@,
            Reply::Unavailable => seq![],
        }
    }

    /// Did the command run and exit with code 0?
    pub fn ok(&self) -> (r: bool)
        ensures
            r == self.succeeded(),
    {
        match self {
            Reply::Output(o) => o.ok(),
            Reply::Unavailable => false,
        }
    }
}

/// Is `name` one of the lines of `stdout`, up to surrounding whitespace?
pub open spec fn lists_line(stdout: Seq<char>, name: Seq<char>) -> bool {
    exists|i: int| 0 <= i < lines_of(stdout).len() && trim_of(#[trigger] lines_of(stdout)[i]) == name
}

/// Decides [`lists_line`].
pub fn has_line(stdout: &str, name: &str) -> (r: bool)
    ensures
        r == lists_line(stdout@, name@),
{
    let list = lines(stdout);
    let ghost all = lines_of(stdout@);
    let mut i: usize = 0;
    while i < list.len()
        invariant
            i <= list@.len(),
            all == texts(list@),
            all == lines_of(stdout@),
            forall|j: int| 0 <= j < i ==> trim_of(#[trigger] all[j]) != name@,
        decreases list@.len() - i,
    {
        assert(all[i as int] == list@[i as int]@);
        if eq(trim(list[i].as_str()).as_str(), name) {
            return true;
        }
        i += 1;
    }
    false
}

/// A failure report: what failed, then both output streams without trailing
/// whitespace.
pub open spec fn failure_of(what: Seq<char>, stdout: Seq<char>, stderr: Seq<char>) -> Seq<char> {
    what + ":\n"@ + trim_end_of(stdout) + "\n"@ + trim_end_of(stderr)
}

/// Reports a command that ran and failed.
pub fn failure(what: &str, out: &CommandOutput) -> (r: String)
    ensures
        r@ == failure_of(what@, out.stdout@, out.stderr@),
{
    what.to_owned().concat(":\n").concat(trim_end(out.stdout.as_str()).as_str()).concat(
        "\n",
    ).concat(trim_end(out.stderr.as_str()).as_str())
}

/// Did `docker ps` list a running container of this name?
pub fn container_running(reply: &Reply, name: &str) -> (r: bool)
    ensures
        r == (reply.succeeded() && lists_line(reply.out(), name@)),
{
    match reply {
        Reply::Output(o) => o.ok() && has_line(o.stdout.as_str(), name),
        Reply::Unavailable => false,
    }
}

/// `docker ps` filtered to one container name.
pub open spec fn container_query(name: Seq<char>) -> InvocationView {
    command("docker"@, seq!["ps"@, "--filter"@, "name="@ + name, "--format"@, "{{.Names}}"@])
}

/// The command that [`container_running`] reads.
pub fn container_command(name: &str) -> (r: Invocation)
    ensures
        r@ == container_query(name@),
{
    Invocation::new("docker").arg("ps").arg("--filter").arg(
        "name=".to_owned().concat(name).as_str(),
    ).arg("--format").arg("{{.Names}}")
}

/// The first line that is not blank is read, without the whitespace around it;
/// an output of blank lines has none.
pub proof fn law_first_line_is_read(list: Seq<Seq<char>>, k: int)
    requires
        0 <= k <= list.len(),
        forall|j: int| 0 <= j < k ==> trim_of(#[trigger] list[j]).len() == 0,
    ensures
        k < list.len() && trim_of(list[k]).len() > 0 ==> first_full(list) == Some(
            trim_of(list[k]),
        ),
        k == list.len() ==> first_full(list) is None,
    decreases k,
{
    if k > 0 {
        assert(trim_of(list[0]).len() == 0);
        let rest = list.drop_first();
        assert forall|j: int| 0 <= j < k - 1 implies trim_of(#[trigger] rest[j]).len() == 0 by {
            assert(rest[j] == list[j + 1]);
        }
        law_first_line_is_read(rest, k - 1);
        if k < list.len() {
            assert(rest[k - 1] == list[k]);
        }
    }
}

/// A command counts as succeeded exactly when it ran and exited with code 0.
pub proof fn law_success_is_exit_code_zero(reply: Reply)
    ensures
        reply.succeeded() <==> (reply matches Reply::Output(out) && out.status == 0),
{
}

/// A failure report begins with what failed and holds both outputs, without
/// trailing whitespace.
pub proof fn law_failures_show_both_outputs(what: Seq<char>, out: Seq<char>, err: Seq<char>)
    ensures
        begins(failure_of(what, out, err), what + ":\n"@ + trim_end_of(out) + "\n"@),
        ends(failure_of(what, out, err), trim_end_of(err)),
{
    let f = failure_of(what, out, err);
    let head = what + ":\n"@ + trim_end_of(out) + "\n"@;
    assert(f.subrange(0, head.len() as int) =~= head);
    let t = trim_end_of(err);
    assert(f.subrange(f.len() - t.len(), f.len() as int) =~= t);
}

/// A container counts as listed when a line of the output is its name, up to
/// whitespace; a name that only occurs in a longer one does not count.
pub proof fn law_whole_lines_count(stdout: Seq<char>, name: Seq<char>, i: int)
    ensures
        0 <= i < lines_of(stdout).len() && trim_of(lines_of(stdout)[i]) == name ==> lists_line(
            stdout,
            name,
        ),
        (forall|j: int|
            0 <= j < lines_of(stdout).len() ==> trim_of(#[trigger] lines_of(stdout)[j]) != name)
            ==> !lists_line(stdout, name),
        container_query(name).program == "docker"@,
        container_query(name).args[0] == "ps"@,
        container_query(name).args.contains("name="@ + name),
{
    assert(container_query(name).args[2] == "name="@ + name);
}

} // verus!
