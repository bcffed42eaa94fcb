//! mkcert: the local CA and the wildcard certificate that Traefik serves.

use vstd::prelude::*;
use vstd::string::*;

use crate::runner::{command, failure, failure_of, Invocation, InvocationView, Reply};
use crate::stack::paths::{
    home, join, joined, place, placed, traefik_dir_in, traefik_dir_of, under_home, Home, HomePath,
    PathError,
};
use crate::text::{contains, occurs_at, texts, trim_end_of};

verus! {

/// `~/.config/henk/traefik/certs`.
pub open spec fn certs_dir_of(home: Seq<char>) -> Seq<char> {
    joined(traefik_dir_of(home), "certs"@)
}

/// The file name of the wildcard certificate.
pub open spec fn cert_name(tld: Seq<char>) -> Seq<char> {
    "_wildcard."@ + tld + ".pem"@
}

/// The file name of the wildcard key.
pub open spec fn key_name(tld: Seq<char>) -> Seq<char> {
    "_wildcard."@ + tld + "-key.pem"@
}

/// Where the wildcard certificate lives.
pub open spec fn cert_path_of(home: Seq<char>, tld: Seq<char>) -> Seq<char> {
    joined(certs_dir_of(home), cert_name(tld))
}

/// Where the wildcard key lives.
pub open spec fn key_path_of(home: Seq<char>, tld: Seq<char>) -> Seq<char> {
    joined(certs_dir_of(home), key_name(tld))
}

/// The certificate and its key lie side by side in the directory of the
/// certificates, under different names.
pub proof fn law_cert_and_key_lie_side_by_side(home: Seq<char>, tld: Seq<char>)
    ensures
        cert_path_of(home, tld) == certs_dir_of(home) + "/"@ + cert_name(tld),
        key_path_of(home, tld) == certs_dir_of(home) + "/"@ + key_name(tld),
        cert_path_of(home, tld) != key_path_of(home, tld),
{
    reveal_strlit("certs");
    reveal_strlit("_wildcard.");
    reveal_strlit("/");
    reveal_strlit(".pem");
    reveal_strlit("-key.pem");
    assert(cert_name(tld)[0] == '_');
    assert(key_name(tld)[0] == '_');
    let dir = certs_dir_of(home);
    assert(dir.last() == "certs"@.last());
    assert(cert_path_of(home, tld).len() != key_path_of(home, tld).len());
}

/// The directory of the certificates, for a given home directory.
pub fn certs_dir_in(home: &str) -> (r: String)
    ensures
        r@ == certs_dir_of(home@),
{
    join(traefik_dir_in(home).as_str(), "certs")
}

/// Path of the wildcard cert file, e.g. `_wildcard.test.pem`, for a given home
/// directory.
pub fn cert_path_in(home: &str, tld: &str) -> (r: String)
    ensures
        r@ == cert_path_of(home@, tld@),
{
    join(
        certs_dir_in(home).as_str(),
        "_wildcard.".to_owned().concat(tld).concat(".pem").as_str(),
    )
}

/// Path of the wildcard key file, e.g. `_wildcard.test-key.pem`, for a given
/// home directory.
pub fn key_path_in(home: &str, tld: &str) -> (r: String)
    ensures
        r@ == key_path_of(home@, tld@),
{
    join(
        certs_dir_in(home).as_str(),
        "_wildcard.".to_owned().concat(tld).concat("-key.pem").as_str(),
    )
}

/// Path of the wildcard cert file.
///
/// `found` is what `home` gave; an error in it is passed on.
pub fn cert_path_from(found: Result<Home, PathError>, tld: &str) -> (r: Result<HomePath, PathError>)
    ensures
        placed(found, cert_path_of(""@, tld@), r),
{
    place(found, cert_path_in("", tld))
}

/// Path of the wildcard cert file.
pub fn cert_path(tld: &str) -> (r: Result<HomePath, PathError>)
    ensures
        under_home(r, cert_path_of(""@, tld@)),
{
    cert_path_from(home(), tld)
}

/// Path of the wildcard key file.
///
/// `found` is what `home` gave; an error in it is passed on.
pub fn key_path_from(found: Result<Home, PathError>, tld: &str) -> (r: Result<HomePath, PathError>)
    ensures
        placed(found, key_path_of(""@, tld@), r),
{
    place(found, key_path_in("", tld))
}

/// Path of the wildcard key file.
pub fn key_path(tld: &str) -> (r: Result<HomePath, PathError>)
    ensures
        under_home(r, key_path_of(""@, tld@)),
{
    key_path_from(home(), tld)
}

/// `mkcert -install`.
pub open spec fn ca_query() -> InvocationView {
    command("mkcert"@, seq!["-install"@])
}

/// The command that puts the local CA into the system keychain. mkcert itself
/// does nothing when it is already there.
pub fn ca_command() -> (r: Invocation)
    ensures
        r@ == ca_query(),
{
    Invocation::new("mkcert").arg("-install")
}

/// A step that runs one command succeeds exactly when the command ran and
/// exited with code 0; otherwise the error is `context` when it could not be
/// run, or a report of what it printed.
pub open spec fn step_outcome(
    reply: Reply,
    context: Seq<char>,
    what: Seq<char>,
) -> Result<(), Seq<char>> {
    match reply {
        Reply::Unavailable => Err(context),
        Reply::Output(out) => if out.status == 0 {
            Ok(())
        } else {
            Err(failure_of(what, out.stdout@, out.stderr@))
        },
    }
}

/// The view of a step's result.
pub open spec fn step_view(r: Result<(), String>) -> Result<(), Seq<char>> {
    match r {
        Ok(()) => Ok(()),
        Err(e) => Err(e@),
    }
}

/// Judges the reply of a command that must succeed.
pub fn judge_step(reply: &Reply, context: &str, what: &str) -> (r: Result<(), String>)
    ensures
        step_view(r) == step_outcome(*reply, context@, what@),
{
    match reply {
        Reply::Unavailable => Err(context.to_owned()),
        Reply::Output(out) => if out.ok() {
            Ok(())
        } else {
            Err(failure(what, out))
        },
    }
}

/// Judges the reply of [`ca_command`].
pub fn ensure_ca_installed(reply: &Reply) -> (r: Result<(), String>)
    ensures
        step_view(r) == step_outcome(
            *reply,
            "running `mkcert -install`"@,
            "mkcert -install failed"@,
        ),
{
    judge_step(reply, "running `mkcert -install`", "mkcert -install failed")
}

/// The names a certificate is issued for: `*.<tld>`, `<tld>`, then the hosts
/// that the wildcard does not cover.
pub open spec fn wildcard_query(
    home: Seq<char>,
    tld: Seq<char>,
    extra: Seq<Seq<char>>,
) -> InvocationView {
    command(
        "mkcert"@,
        seq![
            "-cert-file"@,
            cert_path_of(home, tld),
            "-key-file"@,
            key_path_of(home, tld),
            "*."@ + tld,
            tld,
        ] + extra,
    )
}

/// The mkcert call that issues the wildcard certificate. The output files are
/// pinned because mkcert numbers them awkwardly for several names.
pub fn wildcard_command(home: &str, tld: &str, extra: &Vec<String>) -> (r: Invocation)
    ensures
        r@ == wildcard_query(home@, tld@, texts(extra@)),
{
    let mut cmd = Invocation::new("mkcert").arg("-cert-file").arg(
        cert_path_in(home, tld).as_str(),
    ).arg("-key-file").arg(key_path_in(home, tld).as_str()).arg(
        "*.".to_owned().concat(tld).as_str(),
    ).arg(tld);
    let ghost base = cmd@.args;
    assert(cmd@ == wildcard_query(home@, tld@, seq![]));
    let mut i: usize = 0;
    while i < extra.len()
        invariant
            i <= extra@.len(),
            cmd@ == wildcard_query(home@, tld@, texts(extra@).take(i as int)),
        decreases extra@.len() - i,
    {
        cmd = cmd.arg(extra[i].as_str());
        assert(texts(extra@).take(i + 1) =~= texts(extra@).take(i as int).push(extra@[i as int]@));
        i += 1;
    }
    assert(texts(extra@).take(i as int) =~= texts(extra@));
    cmd
}

/// The certificate has to be issued unless both files are there and nothing
/// forces a new one.
pub open spec fn must_issue(force: bool, cert_exists: bool, key_exists: bool) -> bool {
    force || !cert_exists || !key_exists
}

/// Decides whether the wildcard certificate has to be issued, and by which
/// command.
pub fn ensure_wildcard(
    home: &str,
    tld: &str,
    force: bool,
    extra: &Vec<String>,
    cert_exists: bool,
    key_exists: bool,
) -> (r: Option<Invocation>)
    ensures
        match r {
            Some(cmd) => must_issue(force, cert_exists, key_exists) && cmd@ == wildcard_query(
                home@,
                tld@,
                texts(extra@),
            ),
            None => !must_issue(force, cert_exists, key_exists),
        },
{
    if !force && cert_exists && key_exists {
        return None;
    }
    Some(wildcard_command(home, tld, extra))
}

/// Judges the reply of [`wildcard_command`].
pub fn wildcard_issued(reply: &Reply) -> (r: Result<(), String>)
    ensures
        step_view(r) == step_outcome(
            *reply,
            "running `mkcert -cert-file ... -key-file ... *.<tld> <tld>`"@,
            "mkcert wildcard generation failed"@,
        ),
{
    judge_step(
        reply,
        "running `mkcert -cert-file ... -key-file ... *.<tld> <tld>`",
        "mkcert wildcard generation failed",
    )
}

/// A certificate is issued whenever one of its files is missing, and otherwise
/// only when a new one is forced.
pub proof fn law_missing_certificates_are_issued(force: bool, cert: bool, key: bool)
    ensures
        !cert || !key ==> must_issue(force, cert, key),
        cert && key ==> (must_issue(force, cert, key) <==> force),
{
}

/// The certificate is issued for the TLD, for everything directly below it, and
/// for every further host that is given, and it goes to the two files that the
/// proxy reads.
pub proof fn law_certificate_names(home: Seq<char>, tld: Seq<char>, extra: Seq<Seq<char>>, i: int)
    ensures
        ({
            let q = wildcard_query(home, tld, extra);
            &&& q.program == "mkcert"@
            &&& q.args.contains("*."@ + tld)
            &&& q.args.contains(tld)
            &&& 0 <= i < extra.len() ==> q.args.contains(extra[i])
            &&& q.args.len() == 6 + extra.len()
            &&& exists|k: int|
                0 <= k && k + 1 < q.args.len() && #[trigger] q.args[k] == "-cert-file"@
                    && q.args[k + 1] == cert_path_of(home, tld)
            &&& exists|k: int|
                0 <= k && k + 1 < q.args.len() && #[trigger] q.args[k] == "-key-file"@
                    && q.args[k + 1] == key_path_of(home, tld)
        }),
{
    let q = wildcard_query(home, tld, extra);
    assert(q.args[0] == "-cert-file"@);
    assert(q.args[2] == "-key-file"@);
    assert(q.args[4] == "*."@ + tld);
    assert(q.args[5] == tld);
    if 0 <= i < extra.len() {
        assert(q.args[6 + i] == extra[i]);
    }
}

/// A step that runs one command succeeds exactly when the command ran and exited
/// with code 0, and a failure report shows what the command printed.
pub proof fn law_steps_succeed_with_their_command(
    reply: Reply,
    context: Seq<char>,
    what: Seq<char>,
)
    ensures
        step_outcome(reply, context, what) is Ok <==> reply.succeeded(),
        reply is Unavailable ==> step_outcome(reply, context, what) == Err::<(), Seq<char>>(
            context,
        ),
        reply matches Reply::Output(out) ==> (out.status != 0 ==> (step_outcome(
            reply,
            context,
            what,
        ) matches Err(e) && contains(e, what) && contains(e, trim_end_of(out.stderr@)))),
{
    if let Reply::Output(out) = reply {
        let b = trim_end_of(out.stderr@);
        let e = failure_of(what, out.stdout@, out.stderr@);
        assert(e.subrange(0, what.len() as int) =~= what);
        assert(occurs_at(e, what, 0));
        let k = e.len() - b.len();
        assert(e.subrange(k, k + b.len()) =~= b);
        assert(occurs_at(e, b, k));
    }
}

} // verus!
