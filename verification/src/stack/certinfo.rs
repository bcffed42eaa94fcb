//! What the issued certificate says, read through `openssl`, and whether dnsmasq
//! answers, asked through `dig`.

use vstd::prelude::*;
use vstd::string::*;

use crate::runner::{command, Invocation, InvocationView, Reply};
use crate::text::{
    begins, lines, lines_of, opt_text, split, split_of, starts_with, strip_prefix,
    strip_prefix_of, texts, trim, trim_of, trim_start, trim_start_of,
};

verus! {

/// `openssl x509` for one aspect of a certificate.
pub open spec fn x509_query(path: Seq<char>, what: Seq<char>) -> InvocationView {
    command("openssl"@, seq!["x509"@, "-in"@, path, "-noout"@, what])
}

/// The command that [`read_cert_sans`] reads.
pub fn cert_text_command(path: &str) -> (r: Invocation)
    ensures
        r@ == x509_query(path@, "-text"@),
{
    Invocation::new("openssl").arg("x509").arg("-in").arg(path).arg("-noout").arg("-text")
}

/// The command that [`read_cert_expiry`] reads.
pub fn cert_enddate_command(path: &str) -> (r: Invocation)
    ensures
        r@ == x509_query(path@, "-enddate"@),
{
    Invocation::new("openssl").arg("x509").arg("-in").arg(path).arg("-noout").arg("-enddate")
}

/// The DNS names in a list of entries such as `DNS:app.test`.
pub open spec fn dns_names(entries: Seq<Seq<char>>) -> Seq<Seq<char>>
    decreases entries.len(),
{
    if entries.len() == 0 {
        seq![]
    } else {
        let before = dns_names(entries.drop_last());
        match strip_prefix_of(trim_of(entries.last()), "DNS:"@) {
            Some(name) => before.push(name),
            None => before,
        }
    }
}

/// The alternative names in the text form of a certificate, from line `i` on:
/// they are on the line after their heading.
pub open spec fn sans_from(list: Seq<Seq<char>>, i: int) -> Option<Seq<Seq<char>>>
    decreases list.len() - i,
{
    if i < 0 || i >= list.len() {
        None
    } else if begins(trim_start_of(list[i]), "X509v3 Subject Alternative Name"@) {
        if i + 1 < list.len() {
            Some(dns_names(split_of(trim_of(list[i + 1]), ',')))
        } else {
            None
        }
    } else {
        sans_from(list, i + 1)
    }
}

/// The alternative names that `openssl` printed.
pub open spec fn cert_sans_of(reply: Reply) -> Option<Seq<Seq<char>>> {
    if reply.succeeded() {
        sans_from(lines_of(reply.out()), 0)
    } else {
        None
    }
}

/// The view of an optional list of names.
pub open spec fn names_view(r: Option<Vec<String>>) -> Option<Seq<Seq<char>>> {
    match r {
        Some(v) => Some(texts(v@)),
        None => None,
    }
}

/// Reads the DNS names in a line.
fn read_names(line: &str) -> (r: Vec<String>)
    ensures
        texts(r@) == dns_names(split_of(line@, ',')),
{
    let entries = split(line, ',');
    let ghost all = split_of(line@, ',');
    let mut out: Vec<String> = Vec::new();
    let mut i: usize = 0;
    assert(texts(out@) =~= dns_names(all.take(0)));
    while i < entries.len()
        invariant
            i <= entries@.len(),
            all == texts(entries@),
            all == split_of(line@, ','),
            texts(out@) == dns_names(all.take(i as int)),
        decreases entries@.len() - i,
    {
        assert(all.take(i + 1).drop_last() =~= all.take(i as int));
        assert(all.take(i + 1).last() == entries@[i as int]@);
        let ghost before = texts(out@);
        if let Some(name) = strip_prefix(trim(entries[i].as_str()).as_str(), "DNS:") {
            let ghost word = name@;
            out.push(name);
            assert(texts(out@) =~= before.push(word));
        }
        i += 1;
    }
    assert(all.take(i as int) =~= all);
    out
}

/// Subject Alternative Names of a certificate; `None` when they cannot be read.
pub fn read_cert_sans(reply: &Reply) -> (r: Option<Vec<String>>)
    ensures
        names_view(r) == cert_sans_of(*reply),
{
    let out = match reply {
        Reply::Output(out) => out,
        Reply::Unavailable => return None,
    };
    if !out.ok() {
        return None;
    }
    let list = lines(out.stdout.as_str());
    let n: usize = list.len();
    let ghost all = lines_of(out.stdout@);
    let mut i: usize = 0;
    while i < n
        invariant
            i <= n,
            n == list@.len(),
            all == texts(list@),
            sans_from(all, i as int) == sans_from(all, 0),
            reply.succeeded(),
            all == lines_of(reply.out()),
        decreases n - i,
    {
        assert(all[i as int] == list@[i as int]@);
        if starts_with(
            trim_start(list[i].as_str()).as_str(),
            "X509v3 Subject Alternative Name",
        ) {
            if i + 1 < n {
                assert(all[i + 1] == list@[i + 1]@);
                return Some(read_names(trim(list[i + 1].as_str()).as_str()));
            }
            return None;
        }
        i += 1;
    }
    None
}

/// The expiry date that `openssl` printed.
pub open spec fn cert_expiry_of(reply: Reply) -> Option<Seq<char>> {
    if reply.succeeded() {
        strip_prefix_of(trim_of(reply.out()), "notAfter="@)
    } else {
        None
    }
}

/// Expiry date of a certificate; `None` when it cannot be read.
pub fn read_cert_expiry(reply: &Reply) -> (r: Option<String>)
    ensures
        opt_text(r) == cert_expiry_of(*reply),
{
    match reply {
        Reply::Output(out) => if out.ok() {
            strip_prefix(trim(out.stdout.as_str()).as_str(), "notAfter=")
        } else {
            None
        },
        Reply::Unavailable => None,
    }
}

/// `dig` against the local dnsmasq for a bogus name under the TLD.
pub open spec fn dig_query(probe: Seq<char>, tld: Seq<char>) -> InvocationView {
    command(
        "dig"@,
        seq!["+short"@, "+time=1"@, "+tries=1"@, "@127.0.0.1"@, probe + "."@ + tld],
    )
}

/// The command that [`dnsmasq_answering`] reads. Only that something answers
/// counts, not the answer.
pub fn dig_command(probe: &str, tld: &str) -> (r: Invocation)
    ensures
        r@ == dig_query(probe@, tld@),
{
    Invocation::new("dig").arg("+short").arg("+time=1").arg("+tries=1").arg("@127.0.0.1").arg(
        probe.to_owned().concat(".").concat(tld).as_str(),
    )
}

/// Does dnsmasq answer?
pub fn dnsmasq_answering(reply: &Reply) -> (r: bool)
    ensures
        r == reply.succeeded(),
{
    reply.ok()
}

/// The list of names holds every name that an entry gives after `DNS:`, and no
/// other.
proof fn lemma_dns_names(entries: Seq<Seq<char>>, name: Seq<char>)
    ensures
        dns_names(entries).contains(name) <==> exists|i: int|
            0 <= i < entries.len() && trim_of(#[trigger] entries[i]) == "DNS:"@ + name,
    decreases entries.len(),
{
    if entries.len() > 0 {
        let rest = entries.drop_last();
        let last = trim_of(entries.last());
        let all = dns_names(entries);
        let before = dns_names(rest);
        lemma_dns_names(rest, name);
        if begins(last, "DNS:"@) {
            let own = last.skip("DNS:"@.len() as int);
            assert(last =~= last.subrange(0, "DNS:"@.len() as int) + own);
            assert(("DNS:"@ + name).skip("DNS:"@.len() as int) =~= name);
            assert(all == before.push(own));
            if all.contains(name) {
                let k = choose|k: int| 0 <= k < all.len() && all[k] == name;
                if k < before.len() {
                    assert(before[k] == name);
                } else {
                    assert(trim_of(entries[entries.len() - 1]) == "DNS:"@ + name);
                }
            }
            if before.contains(name) {
                let k = choose|k: int| 0 <= k < before.len() && before[k] == name;
                assert(all[k] == name);
            }
            if last == "DNS:"@ + name {
                assert(all[before.len() as int] == name);
            }
        } else {
            if last == "DNS:"@ + name {
                assert(last.subrange(0, "DNS:"@.len() as int) =~= "DNS:"@);
            }
        }
        if before.contains(name) {
            let i = choose|i: int|
                0 <= i < rest.len() && trim_of(#[trigger] rest[i]) == "DNS:"@ + name;
            assert(trim_of(entries[i]) == "DNS:"@ + name);
        }
        if exists|i: int|
            0 <= i < entries.len() && trim_of(#[trigger] entries[i]) == "DNS:"@ + name {
            let i = choose|i: int|
                0 <= i < entries.len() && trim_of(#[trigger] entries[i]) == "DNS:"@ + name;
            if i < rest.len() {
                assert(trim_of(rest[i]) == "DNS:"@ + name);
            }
        }
    }
}

/// Lines before the heading do not count.
proof fn lemma_sans_from(list: Seq<Seq<char>>, i: int, k: int)
    requires
        0 <= i <= k < list.len(),
        forall|j: int|
            i <= j < k ==> !begins(
                trim_start_of(#[trigger] list[j]),
                "X509v3 Subject Alternative Name"@,
            ),
    ensures
        sans_from(list, i) == sans_from(list, k),
    decreases k - i,
{
    if i < k {
        lemma_sans_from(list, i + 1, k);
    }
}

/// The names of a certificate are those that stand behind `DNS:` on the line
/// below the heading of the alternative names, between commas. Nothing is read
/// when the command failed or printed no such heading.
pub proof fn law_alternative_names_are_read(reply: Reply, k: int, name: Seq<char>)
    requires
        reply.succeeded(),
        0 <= k,
        k + 1 < lines_of(reply.out()).len(),
        begins(trim_start_of(lines_of(reply.out())[k]), "X509v3 Subject Alternative Name"@),
        forall|j: int|
            0 <= j < k ==> !begins(
                trim_start_of(#[trigger] lines_of(reply.out())[j]),
                "X509v3 Subject Alternative Name"@,
            ),
    ensures
        cert_sans_of(reply) is Some,
        ({
            let entries = split_of(trim_of(lines_of(reply.out())[k + 1]), ',');
            cert_sans_of(reply)->0.contains(name) <==> exists|i: int|
                0 <= i < entries.len() && trim_of(#[trigger] entries[i]) == "DNS:"@ + name
        }),
{
    let list = lines_of(reply.out());
    lemma_sans_from(list, 0, k);
    lemma_dns_names(split_of(trim_of(list[k + 1]), ','), name);
}

/// Without the heading there are no names.
proof fn lemma_no_heading(list: Seq<Seq<char>>, i: int)
    requires
        0 <= i <= list.len(),
        forall|j: int|
            i <= j < list.len() ==> !begins(
                trim_start_of(#[trigger] list[j]),
                "X509v3 Subject Alternative Name"@,
            ),
    ensures
        sans_from(list, i) is None,
    decreases list.len() - i,
{
    if i < list.len() {
        lemma_no_heading(list, i + 1);
    }
}

/// Nothing is read of a certificate when `openssl` failed, nor when what it
/// printed has no heading of alternative names.
pub proof fn law_unreadable_certificates_have_no_names(reply: Reply)
    ensures
        !reply.succeeded() ==> cert_sans_of(reply) is None && cert_expiry_of(reply) is None,
        (forall|j: int|
            0 <= j < lines_of(reply.out()).len() ==> !begins(
                trim_start_of(#[trigger] lines_of(reply.out())[j]),
                "X509v3 Subject Alternative Name"@,
            )) ==> cert_sans_of(reply) is None,
{
    if forall|j: int|
        0 <= j < lines_of(reply.out()).len() ==> !begins(
            trim_start_of(#[trigger] lines_of(reply.out())[j]),
            "X509v3 Subject Alternative Name"@,
        ) {
        lemma_no_heading(lines_of(reply.out()), 0);
    }
}

/// The end date is what follows `notAfter=`, and only that is taken for one.
pub proof fn law_end_date_is_read(reply: Reply, date: Seq<char>)
    requires
        reply.succeeded(),
    ensures
        cert_expiry_of(reply) == Some(date) <==> trim_of(reply.out()) == "notAfter="@ + date,
{
    let t = trim_of(reply.out());
    let n = "notAfter="@.len() as int;
    assert(("notAfter="@ + date).subrange(0, n) =~= "notAfter="@);
    assert(("notAfter="@ + date).skip(n) =~= date);
    if begins(t, "notAfter="@) {
        assert(t =~= t.subrange(0, n) + t.skip(n));
    }
}

/// dnsmasq is asked on this machine, for a name under the TLD.
pub proof fn law_dnsmasq_is_asked_here(probe: Seq<char>, tld: Seq<char>)
    ensures
        dig_query(probe, tld).program == "dig"@,
        dig_query(probe, tld).args.contains("@127.0.0.1"@),
        dig_query(probe, tld).args.last() == probe + "."@ + tld,
{
    assert(dig_query(probe, tld).args[3] == "@127.0.0.1"@);
}

/// `openssl` is asked about the certificate that is named, and prints no copy
/// of it.
pub proof fn law_the_named_certificate_is_read(path: Seq<char>, what: Seq<char>)
    ensures
        x509_query(path, what).program == "openssl"@,
        x509_query(path, what).args[0] == "x509"@,
        x509_query(path, what).args[1] == "-in"@,
        x509_query(path, what).args[2] == path,
        x509_query(path, what).args.contains("-noout"@),
        x509_query(path, what).args.contains(what),
{
    assert(x509_query(path, what).args[3] == "-noout"@);
    assert(x509_query(path, what).args[4] == what);
}

/// Names are read in the order in which they are printed.
pub proof fn law_names_keep_the_order(a: Seq<Seq<char>>, b: Seq<Seq<char>>)
    ensures
        dns_names(a + b) == dns_names(a) + dns_names(b),
    decreases b.len(),
{
    if b.len() == 0 {
        assert(a + b =~= a);
        assert(dns_names(a) + dns_names(b) =~= dns_names(a));
    } else {
        assert((a + b).drop_last() =~= a + b.drop_last());
        assert((a + b).last() == b.last());
        law_names_keep_the_order(a, b.drop_last());
        assert(dns_names(a + b) =~= dns_names(a) + dns_names(b));
    }
}

} // verus!
