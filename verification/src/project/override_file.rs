//! The compose override that puts a project's services on the proxy network.
//!
//! Routing lives in the file provider, so the override stays small. It goes to
//! `compose.override.yml`, or to `henk.override.yml` when that name is taken by
//! someone else.

use vstd::prelude::*;
use vstd::string::*;

use crate::consts::{HENK_FILE_HEADER, PROXY_NETWORK};
use crate::outline::{
    block_holds, in_block, indent_of, lemma_indent, lemma_split_unlines, lemma_unlines_add,
    lemma_unlines_take, nested, opens_entry, unlines,
};
use crate::project::env_file::FileState;
use crate::stack::paths::{join, joined};
use crate::text::{contains, eq, has_text, occurs_at, split_of, texts};

verus! {

/// A service that joins the proxy network, with the networks it already has.
#[derive(Debug, PartialEq, Eq)]
pub struct ServiceMembership {
    pub service: String,
    pub existing_networks: Vec<String>,
}

/// The view of a [`ServiceMembership`].
#[verifier::ext_equal]
pub struct MembershipView {
    pub service: Seq<char>,
    pub existing_networks: Seq<Seq<char>>,
}

impl View for ServiceMembership {
    type V = MembershipView;

    open spec fn view(&self) -> MembershipView {
        MembershipView {
            service: self.service@,
            existing_networks: texts(self.existing_networks@),
        }
    }
}

/// The views of a list of memberships.
pub open spec fn membership_views(list: Seq<ServiceMembership>) -> Seq<MembershipView> {
    list.map_values(|m: ServiceMembership| m@)
}

/// Where an override goes.
#[derive(Debug, PartialEq, Eq)]
pub enum OverrideTarget {
    /// `compose.override.yml`, which Compose merges by itself.
    Canonical(String),
    /// `henk.override.yml`, because the canonical file is someone else's.
    Fallback { path: String, existing_canonical: String },
}

/// The view of an [`OverrideTarget`].
#[verifier::ext_equal]
pub enum TargetView {
    Canonical(Seq<char>),
    Fallback { path: Seq<char>, existing_canonical: Seq<char> },
}

impl View for OverrideTarget {
    type V = TargetView;

    open spec fn view(&self) -> TargetView {
        match self {
            OverrideTarget::Canonical(p) => TargetView::Canonical(p@),
            OverrideTarget::Fallback { path, existing_canonical } => TargetView::Fallback {
                path: path@,
                existing_canonical: existing_canonical@,
            },
        }
    }
}

/// The name Compose merges by itself.
pub const CANONICAL_NAME: &'static str = "compose.override.yml";

/// The name used when that one is taken.
pub const FALLBACK_NAME: &'static str = "henk.override.yml";

/// Does a file carry henk's header?
pub open spec fn is_ours(file: FileState) -> bool {
    file matches FileState::Text(body) && contains(body@, HENK_FILE_HEADER@)
}

/// Decides [`is_ours`].
pub fn ours(file: &FileState) -> (r: bool)
    ensures
        r == is_ours(*file),
{
    match file {
        FileState::Text(body) => has_text(body.as_str(), HENK_FILE_HEADER),
        _ => false,
    }
}

/// Where the override goes: to the canonical file unless that one exists and is
/// not henk's.
pub open spec fn target_of(dir: Seq<char>, canonical: FileState) -> TargetView {
    let path = joined(dir, CANONICAL_NAME@);
    if canonical is Missing || is_ours(canonical) {
        TargetView::Canonical(path)
    } else {
        TargetView::Fallback { path: joined(dir, FALLBACK_NAME@), existing_canonical: path }
    }
}

/// Decides where the override goes. A file that is not henk's is never
/// overwritten.
pub fn target(dir: &str, canonical: &FileState) -> (r: OverrideTarget)
    ensures
        r@ == target_of(dir@, *canonical),
{
    let path = join(dir, CANONICAL_NAME);
    match canonical {
        FileState::Missing => OverrideTarget::Canonical(path),
        _ => if ours(canonical) {
            OverrideTarget::Canonical(path)
        } else {
            OverrideTarget::Fallback { path: join(dir, FALLBACK_NAME), existing_canonical: path }
        },
    }
}

/// A list of networks, one per line.
pub open spec fn network_lines(names: Seq<Seq<char>>) -> Seq<char>
    decreases names.len(),
{
    if names.len() == 0 {
        seq![]
    } else {
        network_lines(names.drop_last()) + "      - "@ + names.last() + "\n"@
    }
}

/// The networks a service is on: those it has (`default` when it names none),
/// then the proxy network.
pub open spec fn joined_networks(existing: Seq<Seq<char>>) -> Seq<Seq<char>> {
    let kept = if existing.len() == 0 {
        seq!["default"@]
    } else {
        existing
    };
    if kept.contains(PROXY_NETWORK@) {
        kept
    } else {
        kept.push(PROXY_NETWORK@)
    }
}

/// One block per service.
pub open spec fn service_blocks(members: Seq<MembershipView>) -> Seq<char>
    decreases members.len(),
{
    if members.len() == 0 {
        seq![]
    } else {
        service_blocks(members.drop_last()) + "  "@ + members.last().service + ":\n    networks:\n"@
            + network_lines(joined_networks(members.last().existing_networks))
    }
}

/// The text of the override.
pub open spec fn override_text(members: Seq<MembershipView>) -> Seq<char> {
    HENK_FILE_HEADER@ + "\nservices:\n"@ + service_blocks(members) + "networks:\n  "@
        + PROXY_NETWORK@ + ":\n    external: true\n"@
}

/// Is the name in the list?
fn lists(names: &Vec<String>, name: &str) -> (r: bool)
    ensures
        r == texts(names@).contains(name@),
{
    let ghost all = texts(names@);
    let mut i: usize = 0;
    while i < names.len()
        invariant
            i <= names@.len(),
            all == texts(names@),
            forall|j: int| 0 <= j < i ==> all[j] != name@,
        decreases names@.len() - i,
    {
        assert(all[i as int] == names@[i as int]@);
        if eq(names[i].as_str(), name) {
            assert(all.contains(name@));
            return true;
        }
        i += 1;
    }
    false
}

/// Writes the networks a service is on.
fn networks(existing: &Vec<String>) -> (r: String)
    ensures
        r@ == network_lines(joined_networks(texts(existing@))),
{
    let ghost all = texts(existing@);
    if existing.len() == 0 {
        let ghost names = seq!["default"@, PROXY_NETWORK@];
        let out = "      - ".to_owned().concat("default").concat("\n").concat("      - ").concat(
            PROXY_NETWORK,
        ).concat("\n");
        proof {
            let base = seq!["default"@];
            lemma_default_network();
            assert(all =~= Seq::<Seq<char>>::empty());
            assert(names.drop_last() =~= base);
            assert(base.drop_last() =~= Seq::<Seq<char>>::empty());
            assert(network_lines(base.drop_last()) =~= Seq::<char>::empty());
            assert(network_lines(base) =~= "      - "@ + "default"@ + "\n"@);
            assert(network_lines(names) == network_lines(base) + "      - "@ + PROXY_NETWORK@
                + "\n"@);
            assert(out@ =~= network_lines(names));
        }
        return out;
    }
    let mut out = String::new();
    let mut i: usize = 0;
    assert(out@ =~= network_lines(all.take(0)));
    while i < existing.len()
        invariant
            i <= existing@.len(),
            all == texts(existing@),
            out@ == network_lines(all.take(i as int)),
        decreases existing@.len() - i,
    {
        assert(all.take(i + 1).drop_last() =~= all.take(i as int));
        assert(all.take(i + 1).last() == existing@[i as int]@);
        out = out.concat("      - ").concat(existing[i].as_str()).concat("\n");
        i += 1;
    }
    assert(all.take(i as int) =~= all);
    if !lists(existing, PROXY_NETWORK) {
        assert(all.push(PROXY_NETWORK@).drop_last() =~= all);
        out = out.concat("      - ").concat(PROXY_NETWORK).concat("\n");
    }
    out
}

/// Renders the override.
pub fn render(members: &Vec<ServiceMembership>) -> (r: String)
    ensures
        r@ == override_text(membership_views(members@)),
{
    let ghost all = membership_views(members@);
    let mut blocks = String::new();
    let mut i: usize = 0;
    assert(blocks@ =~= service_blocks(all.take(0)));
    while i < members.len()
        invariant
            i <= members@.len(),
            all == membership_views(members@),
            blocks@ == service_blocks(all.take(i as int)),
        decreases members@.len() - i,
    {
        assert(all.take(i + 1).drop_last() =~= all.take(i as int));
        assert(all.take(i + 1).last() == members@[i as int]@);
        blocks = blocks.concat("  ").concat(members[i].service.as_str()).concat(
            ":\n    networks:\n",
        ).concat(networks(&members[i].existing_networks).as_str());
        i += 1;
    }
    assert(all.take(i as int) =~= all);
    HENK_FILE_HEADER.to_owned().concat("\nservices:\n").concat(blocks.as_str()).concat(
        "networks:\n  ",
    ).concat(PROXY_NETWORK).concat(":\n    external: true\n")
}

/// In the override a service joins the proxy network and keeps every network it
/// was on.
pub proof fn law_networks_are_kept(existing: Seq<Seq<char>>, i: int)
    requires
        0 <= i < existing.len(),
    ensures
        joined_networks(existing).contains(PROXY_NETWORK@),
        joined_networks(existing)[i] == existing[i],
{
    if !existing.contains(PROXY_NETWORK@) {
        assert(existing.push(PROXY_NETWORK@)[existing.len() as int] == PROXY_NETWORK@);
    }
}

/// A service that names no network stays on the default one and joins the proxy
/// network.
proof fn lemma_default_network()
    ensures
        joined_networks(seq![]) == seq!["default"@, PROXY_NETWORK@],
{
    let base = seq!["default"@];
    reveal_strlit("default");
    reveal_strlit("henk-proxy");
    assert("default"@.len() != PROXY_NETWORK@.len());
    assert forall|i: int| 0 <= i < base.len() implies base[i] != PROXY_NETWORK@ by {}
    assert(joined_networks(seq![]) =~= seq!["default"@, PROXY_NETWORK@]);
}

/// An override that henk wrote is one that henk may replace or remove.
pub proof fn law_overrides_are_recognised(members: Seq<MembershipView>)
    ensures
        contains(override_text(members), HENK_FILE_HEADER@),
{
    let t = override_text(members);
    assert(t.subrange(0, HENK_FILE_HEADER@.len() as int) =~= HENK_FILE_HEADER@);
    assert(occurs_at(t, HENK_FILE_HEADER@, 0));
}

// ------------------------------------------------------------- line by line

/// The lines of a list of networks.
spec fn network_list(names: Seq<Seq<char>>) -> Seq<Seq<char>> {
    names.map_values(|n: Seq<char>| "      - "@ + n)
}

/// The lines of one service.
spec fn member_list(m: MembershipView) -> Seq<Seq<char>> {
    seq!["  "@ + m.service + ":"@, "    networks:"@] + network_list(
        joined_networks(m.existing_networks),
    )
}

/// The lines of the services.
spec fn members_list(members: Seq<MembershipView>) -> Seq<Seq<char>>
    decreases members.len(),
{
    if members.len() == 0 {
        seq![]
    } else {
        members_list(members.drop_last()) + member_list(members.last())
    }
}

/// The lines of an override.
spec fn override_list(members: Seq<MembershipView>) -> Seq<Seq<char>> {
    seq![HENK_FILE_HEADER@, "services:"@] + members_list(members) + seq![
        "networks:"@,
        "  "@ + PROXY_NETWORK@ + ":"@,
        "    external: true"@,
    ]
}

/// The text of a list of networks is that of its lines.
proof fn lemma_networks_are_lines(names: Seq<Seq<char>>)
    ensures
        network_lines(names) == unlines(network_list(names)),
    decreases names.len(),
{
    if names.len() > 0 {
        let list = network_list(names);
        lemma_networks_are_lines(names.drop_last());
        assert(list.drop_last() =~= network_list(names.drop_last()));
        assert(list.last() == "      - "@ + names.last());
        assert("\n"@ =~= seq!['\n']) by {
            reveal_strlit("\n");
        }
        assert(network_lines(names) =~= unlines(list));
    } else {
        assert(network_list(names) =~= Seq::<Seq<char>>::empty());
    }
}

/// The text of the services is that of their lines.
proof fn lemma_members_are_lines(members: Seq<MembershipView>)
    ensures
        service_blocks(members) == unlines(members_list(members)),
    decreases members.len(),
{
    if members.len() > 0 {
        let m = members.last();
        let nl = seq!['\n'];
        let head = seq!["  "@ + m.service + ":"@, "    networks:"@];
        let rest = network_list(joined_networks(m.existing_networks));
        let before = members_list(members.drop_last());
        lemma_members_are_lines(members.drop_last());
        lemma_networks_are_lines(joined_networks(m.existing_networks));
        lemma_unlines_add(head, rest);
        lemma_unlines_add(before, head + rest);
        assert(head.take(0) =~= Seq::<Seq<char>>::empty());
        assert(unlines(head.take(0)) =~= Seq::<char>::empty());
        lemma_unlines_take(head, 0);
        lemma_unlines_take(head, 1);
        assert(head.take(2) =~= head);
        assert(":\n    networks:\n"@ =~= ":"@ + nl + "    networks:"@ + nl) by {
            reveal_strlit(":\n    networks:\n");
            reveal_strlit(":");
            reveal_strlit("    networks:");
        }
        assert(unlines(head) =~= "  "@ + m.service + ":\n    networks:\n"@);
        assert(service_blocks(members) =~= unlines(before) + (unlines(head) + unlines(rest)));
    }
}

/// The text of an override is that of its lines.
proof fn lemma_override_is_lines(members: Seq<MembershipView>)
    ensures
        override_text(members) == unlines(override_list(members)),
{
    let nl = seq!['\n'];
    let head = seq![HENK_FILE_HEADER@, "services:"@];
    let tail = seq!["networks:"@, "  "@ + PROXY_NETWORK@ + ":"@, "    external: true"@];
    let mid = members_list(members);
    lemma_members_are_lines(members);
    lemma_unlines_add(head, mid);
    lemma_unlines_add(head + mid, tail);
    assert(head.take(0) =~= Seq::<Seq<char>>::empty());
    assert(unlines(head.take(0)) =~= Seq::<char>::empty());
    lemma_unlines_take(head, 0);
    lemma_unlines_take(head, 1);
    assert(head.take(2) =~= head);
    assert(tail.take(0) =~= Seq::<Seq<char>>::empty());
    assert(unlines(tail.take(0)) =~= Seq::<char>::empty());
    lemma_unlines_take(tail, 0);
    lemma_unlines_take(tail, 1);
    lemma_unlines_take(tail, 2);
    assert(tail.take(3) =~= tail);
    assert("\nservices:\n"@ =~= nl + "services:"@ + nl) by {
        reveal_strlit("\nservices:\n");
        reveal_strlit("services:");
    }
    assert("networks:\n  "@ =~= "networks:"@ + nl + "  "@) by {
        reveal_strlit("networks:\n  ");
        reveal_strlit("networks:");
        reveal_strlit("  ");
    }
    assert(":\n    external: true\n"@ =~= ":"@ + nl + "    external: true"@ + nl) by {
        reveal_strlit(":\n    external: true\n");
        reveal_strlit(":");
        reveal_strlit("    external: true");
    }
    assert(unlines(head) =~= HENK_FILE_HEADER@ + "\nservices:\n"@);
    assert(unlines(tail) =~= "networks:\n  "@ + PROXY_NETWORK@ + ":\n    external: true\n"@);
    assert(override_text(members) =~= unlines(head) + unlines(mid) + unlines(tail));
}

/// No service name begins with a blank, and neither a service nor a network name
/// holds a line break.
pub open spec fn members_writable(members: Seq<MembershipView>) -> bool {
    forall|i: int|
        0 <= i < members.len() ==> {
            let m = #[trigger] members[i];
            &&& !m.service.contains('\n')
            &&& m.service.len() > 0 ==> m.service[0] != ' '
            &&& forall|j: int|
                0 <= j < m.existing_networks.len() ==> !(
                #[trigger] m.existing_networks[j]).contains('\n')
        }
}

/// A line made of two parts without a line break holds none.
proof fn lemma_joined_line(a: Seq<char>, b: Seq<char>)
    requires
        !a.contains('\n'),
        !b.contains('\n'),
    ensures
        !(a + b).contains('\n'),
{
    assert forall|j: int| 0 <= j < (a + b).len() implies (a + b)[j] != '\n' by {
        if j < a.len() {
            assert(a.contains(a[j]));
        } else {
            assert(b.contains(b[j - a.len()]));
        }
    }
}

/// The networks of a service hold no line break either.
proof fn lemma_joined_plain(existing: Seq<Seq<char>>, k: int)
    requires
        0 <= k < joined_networks(existing).len(),
        forall|j: int| 0 <= j < existing.len() ==> !(#[trigger] existing[j]).contains('\n'),
    ensures
        !joined_networks(existing)[k].contains('\n'),
{
    reveal_strlit("default");
    reveal_strlit("henk-proxy");
    if existing.len() > 0 && k < existing.len() {
        assert(joined_networks(existing)[k] == existing[k]);
    }
}

/// The lines of one service: how deep they are.
proof fn lemma_member_lines(m: MembershipView, k: int)
    requires
        0 <= k < member_list(m).len(),
        !m.service.contains('\n'),
        m.service.len() > 0 ==> m.service[0] != ' ',
        forall|j: int|
            0 <= j < m.existing_networks.len() ==> !(#[trigger] m.existing_networks[j]).contains(
                '\n',
            ),
    ensures
        !member_list(m)[k].contains('\n'),
        k == 0 ==> indent_of(member_list(m)[k]) == 2,
        k == 1 ==> indent_of(member_list(m)[k]) == 4,
        k > 1 ==> indent_of(member_list(m)[k]) >= 6,
{
    let l = member_list(m);
    reveal_strlit("  ");
    reveal_strlit(":");
    reveal_strlit("    networks:");
    reveal_strlit("      - ");
    if k == 0 {
        lemma_joined_line("  "@, m.service);
        lemma_joined_line("  "@ + m.service, ":"@);
        lemma_indent(l[0], 2);
    } else if k == 1 {
        lemma_indent(l[1], 4);
    } else {
        let n = joined_networks(m.existing_networks)[k - 2];
        lemma_joined_plain(m.existing_networks, k - 2);
        lemma_joined_line("      - "@, n);
        assert(l[k] == "      - "@ + n);
        lemma_indent(l[k], 6);
    }
}

/// Where the lines of a service stand among those of all, and how deep those
/// are.
proof fn lemma_member_at(members: Seq<MembershipView>, i: int) -> (at: int)
    requires
        0 <= i < members.len(),
    ensures
        0 <= at,
        at + member_list(members[i]).len() <= members_list(members).len(),
        forall|k: int|
            0 <= k < member_list(members[i]).len() ==> members_list(members)[at + k]
                == #[trigger] member_list(members[i])[k],
    decreases members.len(),
{
    let before = members.drop_last();
    if i == members.len() - 1 {
        members_list(before).len() as int
    } else {
        assert(before[i] == members[i]);
        let at = lemma_member_at(before, i);
        assert forall|k: int| 0 <= k < member_list(members[i]).len() implies members_list(
            members,
        )[at + k] == #[trigger] member_list(members[i])[k] by {}
        at
    }
}

/// No line among those of the services holds a line break, and all are indented.
proof fn lemma_members_lines(members: Seq<MembershipView>, j: int)
    requires
        members_writable(members),
        0 <= j < members_list(members).len(),
    ensures
        !members_list(members)[j].contains('\n'),
        indent_of(members_list(members)[j]) >= 2,
    decreases members.len(),
{
    let before = members.drop_last();
    let n = members_list(before).len() as int;
    if j < n {
        assert forall|i: int| 0 <= i < before.len() implies #[trigger] before[i]
            == members[i] by {}
        assert(members_writable(before));
        lemma_members_lines(before, j);
    } else {
        assert(members[members.len() - 1] == members.last());
        lemma_member_lines(members.last(), j - n);
    }
}

/// Splitting an override gives its lines.
proof fn lemma_override_splits(members: Seq<MembershipView>)
    requires
        members_writable(members),
    ensures
        split_of(override_text(members), '\n') == override_list(members).push(
            Seq::<char>::empty(),
        ),
{
    let l = override_list(members);
    let n = members_list(members).len() as int;
    lemma_override_is_lines(members);
    assert forall|j: int| 0 <= j < l.len() implies !(#[trigger] l[j]).contains('\n') by {
        if 2 <= j < 2 + n {
            lemma_members_lines(members, j - 2);
            assert(l[j] == members_list(members)[j - 2]);
        } else {
            reveal_strlit("# managed by henk — see https://github.com/fivespark/henk");
            reveal_strlit("services:");
            reveal_strlit("networks:");
            reveal_strlit("    external: true");
            reveal_strlit("  ");
            reveal_strlit(":");
            reveal_strlit("henk-proxy");
            lemma_joined_line("  "@, PROXY_NETWORK@);
            lemma_joined_line("  "@ + PROXY_NETWORK@, ":"@);
        }
    }
    lemma_split_unlines(l);
}

/// In the override every member has a block under `services:` that lists the
/// proxy network and every network the member was on; a member that named none
/// stays on the default one.
pub proof fn law_members_join_the_proxy_network(members: Seq<MembershipView>, i: int) -> (at: int)
    requires
        members_writable(members),
        0 <= i < members.len(),
    ensures
        ({
            let lines = split_of(override_text(members), '\n');
            &&& opens_entry(lines, "services:"@, at)
            &&& lines[at] == "  "@ + members[i].service + ":"@
            &&& nested(lines, at, "    networks:"@, "      - henk-proxy"@)
            &&& members[i].existing_networks.len() == 0 ==> nested(
                lines,
                at,
                "    networks:"@,
                "      - default"@,
            )
            &&& forall|j: int|
                0 <= j < members[i].existing_networks.len() ==> nested(
                    lines,
                    at,
                    "    networks:"@,
                    "      - "@ + #[trigger] members[i].existing_networks[j],
                )
        }),
{
    let m = members[i];
    let lines = split_of(override_text(members), '\n');
    let own = member_list(m);
    let names = joined_networks(m.existing_networks);
    let k = lemma_member_at(members, i);
    let at = 2 + k;
    lemma_override_splits(members);
    assert(lines[1] == "services:"@);
    reveal_strlit("services:");
    lemma_indent(lines[1], 0);
    assert forall|x: int| 0 <= x < own.len() implies #[trigger] lines[at + x] == own[x] by {
        assert(override_list(members)[at + x] == members_list(members)[k + x]);
        assert(members_list(members)[k + x] == own[x]);
    }
    assert(lines[at + 0] == own[0]);
    assert(lines[at + 1] == own[1]);
    lemma_member_lines(m, 0);
    lemma_member_lines(m, 1);
    assert forall|x: int| 1 < x <= at implies indent_of(#[trigger] lines[x]) > indent_of(
        lines[1],
    ) by {
        lemma_members_lines(members, x - 2);
        assert(lines[x] == members_list(members)[x - 2]);
    }
    assert(in_block(lines, 1, at));
    assert(in_block(lines, at, at + 1));
    assert forall|j: int| 0 <= j < names.len() implies nested(
        lines,
        at,
        "    networks:"@,
        "      - "@ + #[trigger] names[j],
    ) by {
        assert forall|x: int| at + 1 < x <= at + 2 + j implies indent_of(#[trigger] lines[x])
            > indent_of(lines[at + 1]) by {
            let d = x - at;
            assert(lines[at + d] == own[d]);
            lemma_member_lines(m, d);
        }
        assert(lines[at + (2 + j)] == own[2 + j]);
        assert(own[2 + j] == "      - "@ + names[j]);
        assert(in_block(lines, at + 1, at + 2 + j));
        assert(block_holds(lines, at + 1, "      - "@ + names[j]));
    }
    lemma_joined_has(m.existing_networks);
    let p = choose|p: int| 0 <= p < names.len() && names[p] == PROXY_NETWORK@;
    assert(nested(lines, at, "    networks:"@, "      - "@ + names[p]));
    assert("      - henk-proxy"@ =~= "      - "@ + PROXY_NETWORK@) by {
        reveal_strlit("      - henk-proxy");
        reveal_strlit("      - ");
        reveal_strlit("henk-proxy");
    }
    if m.existing_networks.len() == 0 {
        assert(names[0] == "default"@);
        assert("      - default"@ =~= "      - "@ + "default"@) by {
            reveal_strlit("      - default");
            reveal_strlit("      - ");
            reveal_strlit("default");
        }
    } else {
        assert forall|j: int| 0 <= j < m.existing_networks.len() implies nested(
            lines,
            at,
            "    networks:"@,
            "      - "@ + #[trigger] m.existing_networks[j],
        ) by {
            assert(names[j] == m.existing_networks[j]);
        }
    }
    at
}

/// The proxy network is always among those a service is on.
proof fn lemma_joined_has(existing: Seq<Seq<char>>)
    ensures
        joined_networks(existing).contains(PROXY_NETWORK@),
{
    let kept = if existing.len() == 0 {
        seq!["default"@]
    } else {
        existing
    };
    if !kept.contains(PROXY_NETWORK@) {
        assert(kept.push(PROXY_NETWORK@)[kept.len() as int] == PROXY_NETWORK@);
    }
}

/// The override declares the proxy network as one that exists already.
pub proof fn law_proxy_network_is_external(members: Seq<MembershipView>) -> (at: int)
    requires
        members_writable(members),
    ensures
        ({
            let lines = split_of(override_text(members), '\n');
            &&& opens_entry(lines, "networks:"@, at)
            &&& lines[at] == "  henk-proxy:"@
            &&& block_holds(lines, at, "    external: true"@)
        }),
{
    let lines = split_of(override_text(members), '\n');
    let n = members_list(members).len() as int;
    let at = n + 3;
    lemma_override_splits(members);
    reveal_strlit("networks:");
    reveal_strlit("    external: true");
    reveal_strlit("  ");
    reveal_strlit(":");
    reveal_strlit("henk-proxy");
    reveal_strlit("  henk-proxy:");
    assert(lines[n + 2] == "networks:"@);
    assert(lines[at] == "  "@ + PROXY_NETWORK@ + ":"@);
    assert("  henk-proxy:"@ =~= "  "@ + PROXY_NETWORK@ + ":"@);
    assert(lines[n + 4] == "    external: true"@);
    lemma_indent(lines[n + 2], 0);
    lemma_indent(lines[at], 2);
    lemma_indent(lines[n + 4], 4);
    assert(in_block(lines, n + 2, at));
    assert(in_block(lines, at, n + 4));
    at
}

/// The override goes to `compose.override.yml`, which Compose reads by itself,
/// whenever that file is free or henk's own; a file of someone else's is left
/// alone, and `henk.override.yml` is written beside it.
pub proof fn law_override_avoids_foreign_files(dir: Seq<char>, canonical: FileState)
    ensures
        ({
            let own = canonical matches FileState::Text(body) && contains(
                body@,
                HENK_FILE_HEADER@,
            );
            let path = joined(dir, "compose.override.yml"@);
            &&& canonical is Missing || own ==> target_of(dir, canonical) == TargetView::Canonical(
                path,
            )
            &&& !(canonical is Missing) && !own ==> target_of(dir, canonical)
                == TargetView::Fallback {
                path: joined(dir, "henk.override.yml"@),
                existing_canonical: path,
            }
        }),
{
}

} // verus!
