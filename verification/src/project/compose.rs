//! The parts of a Compose file that linking needs: service names, their image
//! (for datastore filtering), networks, and published port mappings.

use vstd::prelude::*;
use vstd::string::*;

use crate::consts::DATASTORE_PATTERNS;
use crate::search::{regex_replaced, replaced};
use crate::stack::paths::{join, joined};
use crate::table::Table;
use crate::text::{
    contains, decimal, has_text, lemma_decimal_plain, lemma_split_cons, lemma_split_whole, lower,
    lower_of, parse_u16, parse_u16_of, split, split_of, texts, trim, trim_of,
};
use crate::yaml::{entry, entry_of, number_of, text_of, untag_of, Yaml};

verus! {

/// A project's compose file.
#[derive(Debug)]
pub struct ComposeFile {
    pub services: Table<ComposeService>,
}

/// One service of a compose file.
#[derive(Debug)]
pub struct ComposeService {
    /// Set when the service uses a prebuilt image (e.g. `image: postgres:17`).
    pub image: Option<String>,
    /// Set when the service builds locally; only its presence matters.
    pub build: Option<Yaml>,
    /// Raw port specs, short form (`"80:80"`, `5173`) and long form
    /// (`{ target: 80, published: 80 }`).
    pub ports: Vec<Yaml>,
    /// The networks the service joins: a list of names, or a mapping by name.
    pub networks: Option<Yaml>,
}

/// A port mapping of a service.
#[derive(Debug, Clone, Copy, PartialEq, Eq, Structural)]
pub struct PublishedPort {
    /// Host-side port (the one a browser hits).
    pub host: u16,
    /// Container-side port (the one Traefik talks to).
    pub container: u16,
}

/// The image name, or nothing.
pub open spec fn image_of(image: Option<String>) -> Seq<char> {
    match image {
        Some(s) => s@,
        None => seq![],
    }
}

/// Does a datastore pattern occur in the service name or its image, whatever
/// their case?
pub open spec fn is_datastore(name: Seq<char>, image: Seq<char>) -> bool {
    exists|i: int|
        0 <= i < DATASTORE_PATTERNS@.len() && (contains(
            lower_of(name),
            (#[trigger] DATASTORE_PATTERNS@[i])@,
        ) || contains(lower_of(image), DATASTORE_PATTERNS@[i]@))
}

/// `t` with every `${VAR:-N}` replaced by `N`, as the regex engine does it.
pub open spec fn expanded_of(t: Seq<char>) -> Seq<char> {
    match regex_replaced(r"\$\{[^}]*:-([^}]+)\}"@, t, "$1"@) {
        Some(e) => e,
        None => t,
    }
}

/// Two port numbers.
pub open spec fn port_pair(host: Seq<char>, container: Seq<char>) -> Option<PublishedPort> {
    match (parse_u16_of(trim_of(host)), parse_u16_of(trim_of(container))) {
        (Some(h), Some(c)) => Some(PublishedPort { host: h, container: c }),
        _ => None,
    }
}

/// A port string without variables: `"80"`, `"80:80"` or `"127.0.0.1:80:80"`.
pub open spec fn expanded_port_of(t: Seq<char>) -> Option<PublishedPort> {
    let parts = split_of(t, ':');
    if parts.len() == 1 {
        port_pair(parts[0], parts[0])
    } else if parts.len() == 2 {
        port_pair(parts[0], parts[1])
    } else if parts.len() == 3 {
        port_pair(parts[1], parts[2])
    } else {
        None
    }
}

/// A long-form mapping: `target`, and `published` where it differs.
pub open spec fn long_port_of(entries: Seq<(Yaml, Yaml)>) -> Option<PublishedPort> {
    match named_number(entries, "target"@) {
        None => None,
        Some(target) => {
            let published = match named_number(entries, "published"@) {
                Some(p) => p,
                None => target,
            };
            if target <= 65535 && published <= 65535 {
                Some(PublishedPort { host: published as u16, container: target as u16 })
            } else {
                None
            }
        },
    }
}

/// The number under a text key.
pub open spec fn named_number(entries: Seq<(Yaml, Yaml)>, key: Seq<char>) -> Option<u64> {
    match entry_of(entries, key) {
        Some(v) => number_of(v),
        None => None,
    }
}

/// What one raw port entry publishes, if it can be made sense of.
pub open spec fn port_of(raw: Yaml) -> Option<PublishedPort> {
    match raw {
        Yaml::Text(s) => expanded_port_of(expanded_of(s@)),
        Yaml::Number(Some(n)) => if n <= 65535 {
            Some(PublishedPort { host: n as u16, container: n as u16 })
        } else {
            None
        },
        Yaml::Mapping(entries) => long_port_of(entries@),
        _ => None,
    }
}

/// What a list of raw port entries publishes, in order.
pub open spec fn ports_of(raw: Seq<Yaml>) -> Seq<PublishedPort>
    decreases raw.len(),
{
    if raw.len() == 0 {
        seq![]
    } else {
        match port_of(raw.last()) {
            Some(p) => ports_of(raw.drop_last()).push(p),
            None => ports_of(raw.drop_last()),
        }
    }
}

impl ComposeService {
    /// Heuristic: does this service look like a datastore (postgres, redis, …),
    /// not to be offered as the web service?
    pub fn looks_like_datastore(&self, name: &str) -> (r: bool)
        ensures
            r == is_datastore(name@, image_of(self.image)),
    {
        let lower_name = lower(name);
        let lower_image = match &self.image {
            Some(image) => lower(image.as_str()),
            None => lower(""),
        };
        assert(""@ =~= Seq::<char>::empty()) by {
            reveal_strlit("");
        }
        let mut i: usize = 0;
        while i < 14
            invariant
                i <= 14,
                DATASTORE_PATTERNS@.len() == 14,
                lower_name@ == lower_of(name@),
                lower_image@ == lower_of(image_of(self.image)),
                forall|j: int|
                    0 <= j < i ==> !contains(lower_name@, (#[trigger] DATASTORE_PATTERNS@[j])@)
                        && !contains(lower_image@, DATASTORE_PATTERNS@[j]@),
            decreases 14 - i,
        {
            let pat = DATASTORE_PATTERNS[i];
            if has_text(lower_name.as_str(), pat) || has_text(lower_image.as_str(), pat) {
                assert(DATASTORE_PATTERNS@[i as int]@ == pat@);
                return true;
            }
            i += 1;
        }
        false
    }

    /// The port mappings of this service, in order. Entries that make no sense
    /// are skipped.
    pub fn published_ports(&self) -> (r: Vec<PublishedPort>)
        ensures
            r@ == ports_of(self.ports@),
    {
        let mut out: Vec<PublishedPort> = Vec::new();
        let mut i: usize = 0;
        assert(out@ =~= ports_of(self.ports@.take(0)));
        while i < self.ports.len()
            invariant
                i <= self.ports@.len(),
                out@ == ports_of(self.ports@.take(i as int)),
            decreases self.ports@.len() - i,
        {
            assert(self.ports@.take(i + 1).drop_last() =~= self.ports@.take(i as int));
            if let Some(p) = parse_port_value(&self.ports[i]) {
                out.push(p);
            }
            i += 1;
        }
        assert(self.ports@.take(i as int) =~= self.ports@);
        out
    }

    /// The names of the networks this service joins.
    pub fn network_names(&self) -> (r: Vec<String>)
        ensures
            texts(r@) == names_of(self.networks),
    {
        let mut out: Vec<String> = Vec::new();
        assert(texts(out@) =~= Seq::<Seq<char>>::empty());
        let networks = match &self.networks {
            Some(v) => v.untag(),
            None => return out,
        };
        let mut i: usize = 0;
        match networks {
            Yaml::Sequence(items) => {
                assert(texts(out@) =~= texts_among(items@.take(0)));
                while i < items.len()
                    invariant
                        i <= items@.len(),
                        texts(out@) == texts_among(items@.take(i as int)),
                    decreases items@.len() - i,
                {
                    assert(items@.take(i + 1).drop_last() =~= items@.take(i as int));
                    push_text(&mut out, &items[i]);
                    i += 1;
                }
                assert(items@.take(i as int) =~= items@);
            },
            Yaml::Mapping(entries) => {
                let ghost keys = keys_of(entries@);
                assert(texts(out@) =~= texts_among(keys.take(0)));
                while i < entries.len()
                    invariant
                        i <= entries@.len(),
                        keys == keys_of(entries@),
                        texts(out@) == texts_among(keys.take(i as int)),
                    decreases entries@.len() - i,
                {
                    assert(keys.take(i + 1).drop_last() =~= keys.take(i as int));
                    push_text(&mut out, &entries[i].0);
                    i += 1;
                }
                assert(keys.take(i as int) =~= keys);
            },
            _ => {},
        }
        out
    }
}

/// The texts among some values, in order.
pub open spec fn texts_among(items: Seq<Yaml>) -> Seq<Seq<char>>
    decreases items.len(),
{
    if items.len() == 0 {
        seq![]
    } else {
        let before = texts_among(items.drop_last());
        match text_of(items.last()) {
            Some(t) => before.push(t),
            None => before,
        }
    }
}

/// The keys of a mapping, in order.
pub open spec fn keys_of(entries: Seq<(Yaml, Yaml)>) -> Seq<Yaml> {
    entries.map_values(|e: (Yaml, Yaml)| e.0)
}

/// The names under `networks:`, which is a list or a mapping.
pub open spec fn names_of(networks: Option<Yaml>) -> Seq<Seq<char>> {
    match networks {
        Some(v) => match untag_of(v) {
            Yaml::Sequence(items) => texts_among(items@),
            Yaml::Mapping(entries) => texts_among(keys_of(entries@)),
            _ => seq![],
        },
        None => seq![],
    }
}

/// Adds a value to a list of texts, if it is a text.
fn push_text(out: &mut Vec<String>, v: &Yaml)
    ensures
        texts(final(out)@) == (match text_of(*v) {
            Some(t) => texts(old(out)@).push(t),
            None => texts(old(out)@),
        }),
{
    let ghost before = texts(out@);
    if let Some(t) = v.as_str() {
        out.push(t.clone());
        assert(texts(out@) =~= before.push(t@));
    }
}

/// Reads one raw port entry.
pub fn parse_port_value(value: &Yaml) -> (r: Option<PublishedPort>)
    ensures
        r == port_of(*value),
{
    match value {
        Yaml::Text(s) => parse_port_string(s.as_str()),
        Yaml::Number(Some(n)) => {
            if *n > 65535 {
                return None;
            }
            Some(PublishedPort { host: *n as u16, container: *n as u16 })
        },
        Yaml::Mapping(entries) => {
            let target: u64 = match number_under(entries, "target") {
                Some(t) => t,
                None => return None,
            };
            let published: u64 = match number_under(entries, "published") {
                Some(p) => p,
                None => target,
            };
            if target > 65535 || published > 65535 {
                return None;
            }
            Some(PublishedPort { host: published as u16, container: target as u16 })
        },
        _ => None,
    }
}

/// The number under a text key.
fn number_under(entries: &Vec<(Yaml, Yaml)>, key: &str) -> (r: Option<u64>)
    ensures
        r == named_number(entries@, key@),
{
    match entry(entries, key) {
        Some(v) => v.as_u64(),
        None => None,
    }
}

/// Reads `"80:80"`, `"127.0.0.1:80:80"`, `"5173"`, `"${APP_PORT:-80}:80"`.
/// Defaults hold a `:` of their own, so they are expanded before splitting.
pub fn parse_port_string(s: &str) -> (r: Option<PublishedPort>)
    ensures
        r == expanded_port_of(expanded_of(s@)),
{
    let expanded = expand_shell_defaults(s);
    parse_expanded_port(expanded.as_str())
}

/// Reads a port string whose defaults have been expanded.
pub fn parse_expanded_port(expanded: &str) -> (r: Option<PublishedPort>)
    ensures
        r == expanded_port_of(expanded@),
{
    let parts = split(expanded, ':');
    let ghost all = split_of(expanded@, ':');
    assert(all.len() == parts@.len());
    assert(forall|j: int| 0 <= j < all.len() ==> (#[trigger] parts@[j])@ == all[j]);
    if parts.len() == 1 {
        pair(parts[0].as_str(), parts[0].as_str())
    } else if parts.len() == 2 {
        pair(parts[0].as_str(), parts[1].as_str())
    } else if parts.len() == 3 {
        pair(parts[1].as_str(), parts[2].as_str())
    } else {
        None
    }
}

/// Reads two port numbers.
fn pair(host: &str, container: &str) -> (r: Option<PublishedPort>)
    ensures
        r == port_pair(host@, container@),
{
    match (parse_u16(trim(host).as_str()), parse_u16(trim(container).as_str())) {
        (Some(h), Some(c)) => Some(PublishedPort { host: h, container: c }),
        _ => None,
    }
}

/// Replaces `${VAR:-N}` by `N`; other `${...}` forms stay. The environment is
/// not looked at.
pub fn expand_shell_defaults(s: &str) -> (r: String)
    ensures
        r@ == expanded_of(s@),
{
    match replaced(r"\$\{[^}]*:-([^}]+)\}", s, "$1") {
        Some(e) => e,
        None => s.to_owned(),
    }
}

/// The names Compose looks for, in its order.
pub const COMPOSE_NAMES: [&'static str; 4] = [
    "compose.yaml",
    "compose.yml",
    "docker-compose.yaml",
    "docker-compose.yml",
];

/// The first of the names from `i` on that is present, joined to the directory.
pub open spec fn compose_path_of(dir: Seq<char>, present: Seq<bool>, i: int) -> Option<Seq<char>>
    decreases present.len() - i,
{
    if i < 0 || i >= present.len() || i >= COMPOSE_NAMES@.len() {
        None
    } else if present[i] {
        Some(joined(dir, COMPOSE_NAMES@[i]@))
    } else {
        compose_path_of(dir, present, i + 1)
    }
}

/// The project's compose file, given which of [`COMPOSE_NAMES`] exist in its
/// directory.
pub fn find_compose_path(dir: &str, present: &Vec<bool>) -> (r: Option<String>)
    ensures
        crate::text::opt_text(r) == compose_path_of(dir@, present@, 0),
{
    let mut i: usize = 0;
    while i < present.len() && i < 4
        invariant
            i <= present@.len(),
            i <= 4,
            COMPOSE_NAMES@.len() == 4,
            compose_path_of(dir@, present@, i as int) == compose_path_of(dir@, present@, 0),
        decreases present@.len() - i,
    {
        if present[i] {
            return Some(join(dir, COMPOSE_NAMES[i]));
        }
        i += 1;
    }
    None
}

/// Writing a mapping as `host:container` and reading it gives it back.
pub proof fn law_port_string_round_trip(p: PublishedPort)
    ensures
        expanded_port_of(decimal(p.host as nat) + seq![':'] + decimal(p.container as nat)) == Some(
            p,
        ),
        expanded_port_of(decimal(p.container as nat)) == Some(
            PublishedPort { host: p.container, container: p.container },
        ),
{
    let h = decimal(p.host as nat);
    let c = decimal(p.container as nat);
    lemma_decimal_plain(p.host as nat);
    lemma_decimal_plain(p.container as nat);
    assert(!h.contains(':'));
    assert(!c.contains(':'));
    lemma_split_cons(h, ':', c);
    lemma_split_whole(c, ':');
    crate::text::law_port_round_trip(p.host);
    crate::text::law_port_round_trip(p.container);
    assert(split_of(h + seq![':'] + c, ':') =~= seq![h, c]);
}

/// An address before the two ports makes no difference.
pub proof fn law_port_address_is_ignored(ip: Seq<char>, p: PublishedPort)
    requires
        !ip.contains(':'),
    ensures
        expanded_port_of(
            ip + seq![':'] + (decimal(p.host as nat) + seq![':'] + decimal(p.container as nat)),
        ) == Some(p),
{
    let h = decimal(p.host as nat);
    let c = decimal(p.container as nat);
    lemma_decimal_plain(p.host as nat);
    lemma_decimal_plain(p.container as nat);
    assert(!h.contains(':'));
    assert(!c.contains(':'));
    lemma_split_cons(ip, ':', h + seq![':'] + c);
    lemma_split_cons(h, ':', c);
    lemma_split_whole(c, ':');
    crate::text::law_port_round_trip(p.host);
    crate::text::law_port_round_trip(p.container);
    assert(split_of(ip + seq![':'] + (h + seq![':'] + c), ':') =~= seq![ip, h, c]);
}

/// A service is a datastore exactly when its name or its image holds one of the
/// known names, in any case.
pub proof fn law_datastore_names(name: Seq<char>, image: Seq<char>)
    ensures
        is_datastore(name, image) <==> {
            let n = lower_of(name);
            let i = lower_of(image);
            ||| contains(n, "postgres"@) || contains(i, "postgres"@)
            ||| contains(n, "pgsql"@) || contains(i, "pgsql"@)
            ||| contains(n, "mysql"@) || contains(i, "mysql"@)
            ||| contains(n, "mariadb"@) || contains(i, "mariadb"@)
            ||| contains(n, "redis"@) || contains(i, "redis"@)
            ||| contains(n, "valkey"@) || contains(i, "valkey"@)
            ||| contains(n, "memcached"@) || contains(i, "memcached"@)
            ||| contains(n, "mongo"@) || contains(i, "mongo"@)
            ||| contains(n, "elastic"@) || contains(i, "elastic"@)
            ||| contains(n, "rabbitmq"@) || contains(i, "rabbitmq"@)
            ||| contains(n, "kafka"@) || contains(i, "kafka"@)
            ||| contains(n, "minio"@) || contains(i, "minio"@)
            ||| contains(n, "meilisearch"@) || contains(i, "meilisearch"@)
            ||| contains(n, "clickhouse"@) || contains(i, "clickhouse"@)
        },
{
    assert(DATASTORE_PATTERNS@.len() == 14);
    assert(DATASTORE_PATTERNS@[0]@ == "postgres"@);
    assert(DATASTORE_PATTERNS@[1]@ == "pgsql"@);
    assert(DATASTORE_PATTERNS@[2]@ == "mysql"@);
    assert(DATASTORE_PATTERNS@[3]@ == "mariadb"@);
    assert(DATASTORE_PATTERNS@[4]@ == "redis"@);
    assert(DATASTORE_PATTERNS@[5]@ == "valkey"@);
    assert(DATASTORE_PATTERNS@[6]@ == "memcached"@);
    assert(DATASTORE_PATTERNS@[7]@ == "mongo"@);
    assert(DATASTORE_PATTERNS@[8]@ == "elastic"@);
    assert(DATASTORE_PATTERNS@[9]@ == "rabbitmq"@);
    assert(DATASTORE_PATTERNS@[10]@ == "kafka"@);
    assert(DATASTORE_PATTERNS@[11]@ == "minio"@);
    assert(DATASTORE_PATTERNS@[12]@ == "meilisearch"@);
    assert(DATASTORE_PATTERNS@[13]@ == "clickhouse"@);
}

/// A long-form mapping publishes its target under the port it names, else under
/// the target itself; one without a target, or with a number that is no port,
/// publishes nothing. A bare number publishes itself.
pub proof fn law_long_form_mapping(entries: Seq<(Yaml, Yaml)>, n: u64)
    ensures
        ({
            let target = named_number(entries, "target"@);
            let published = named_number(entries, "published"@);
            &&& target is None ==> long_port_of(entries) is None
            &&& target matches Some(t) ==> (published matches Some(p) ==> (if t <= 65535 && p
                <= 65535 {
                long_port_of(entries) matches Some(m) && m.container == t && m.host == p
            } else {
                long_port_of(entries) is None
            }))
            &&& target matches Some(t) ==> (published is None ==> (if t <= 65535 {
                long_port_of(entries) matches Some(m) && m.container == t && m.host == t
            } else {
                long_port_of(entries) is None
            }))
            &&& n <= 65535 ==> (port_of(Yaml::Number(Some(n))) matches Some(m) && m.container == n
                && m.host == n)
            &&& n > 65535 ==> port_of(Yaml::Number(Some(n))) is None
        }),
{
}

/// Every entry that makes sense is published, and nothing else.
pub proof fn law_every_mapping_is_published(raw: Seq<Yaml>, p: PublishedPort)
    ensures
        ports_of(raw).contains(p) <==> exists|i: int|
            0 <= i < raw.len() && port_of(#[trigger] raw[i]) == Some(p),
    decreases raw.len(),
{
    if raw.len() > 0 {
        let before = raw.drop_last();
        let was = ports_of(before);
        let now = ports_of(raw);
        let n = raw.len() - 1;
        law_every_mapping_is_published(before, p);
        if was.contains(p) {
            let k = choose|k: int| 0 <= k < was.len() && was[k] == p;
            assert(now[k] == p);
            let i = choose|i: int| 0 <= i < before.len() && port_of(#[trigger] before[i]) == Some(p);
            assert(raw[i] == before[i]);
        }
        if now.contains(p) && !was.contains(p) {
            let k = choose|k: int| 0 <= k < now.len() && now[k] == p;
            if k < was.len() {
                assert(was[k] == p);
            }
            assert(port_of(raw[n]) == Some(p));
        }
        if exists|i: int| 0 <= i < raw.len() && port_of(#[trigger] raw[i]) == Some(p) {
            let i = choose|i: int| 0 <= i < raw.len() && port_of(#[trigger] raw[i]) == Some(p);
            if i < n {
                assert(before[i] == raw[i]);
            } else {
                assert(now[now.len() - 1] == p);
            }
        }
    }
}

/// Every name in a list of networks counts, in order.
proof fn lemma_texts_among(items: Seq<Yaml>, i: int)
    requires
        0 <= i < items.len(),
        text_of(items[i]) is Some,
    ensures
        texts_among(items).contains(text_of(items[i])->0),
    decreases items.len(),
{
    let before = items.drop_last();
    let now = texts_among(items);
    let t = text_of(items[i])->0;
    if i < before.len() {
        assert(before[i] == items[i]);
        lemma_texts_among(before, i);
        let was = texts_among(before);
        let k = choose|k: int| 0 <= k < was.len() && was[k] == t;
        assert(now[k] == t);
    } else {
        assert(items.last() == items[i]);
        assert(now[now.len() - 1] == t);
    }
}

/// The networks of a service are all those it lists, whether `networks:` is a
/// list of names or a mapping under them; without `networks:` there are none.
pub proof fn law_networks_are_listed(items: Vec<Yaml>, entries: Vec<(Yaml, Yaml)>, i: int)
    ensures
        0 <= i < items@.len() && text_of(items@[i]) is Some ==> names_of(
            Some(Yaml::Sequence(items)),
        ).contains(text_of(items@[i])->0),
        0 <= i < entries@.len() && text_of(entries@[i].0) is Some ==> names_of(
            Some(Yaml::Mapping(entries)),
        ).contains(text_of(entries@[i].0)->0),
        names_of(None).len() == 0,
{
    if 0 <= i < items@.len() && text_of(items@[i]) is Some {
        lemma_texts_among(items@, i);
    }
    if 0 <= i < entries@.len() && text_of(entries@[i].0) is Some {
        assert(keys_of(entries@)[i] == entries@[i].0);
        lemma_texts_among(keys_of(entries@), i);
    }
}

/// Of the names that Compose knows, the first that exists is taken:
/// `compose.yaml`, `compose.yml`, `docker-compose.yaml`, `docker-compose.yml`.
pub proof fn law_compose_names_in_order(dir: Seq<char>, present: Seq<bool>, k: int)
    requires
        present.len() == 4,
        0 <= k <= 4,
        forall|j: int| 0 <= j < k ==> !#[trigger] present[j],
    ensures
        k < 4 && present[k] ==> compose_path_of(dir, present, 0) == Some(
            joined(
                dir,
                seq![
                    "compose.yaml"@,
                    "compose.yml"@,
                    "docker-compose.yaml"@,
                    "docker-compose.yml"@,
                ][k],
            ),
        ),
        k == 4 ==> compose_path_of(dir, present, 0) is None,
{
    reveal_with_fuel(compose_path_of, 6);
    assert(COMPOSE_NAMES@.len() == 4);
    assert(COMPOSE_NAMES@[0]@ == "compose.yaml"@);
    assert(COMPOSE_NAMES@[1]@ == "compose.yml"@);
    assert(COMPOSE_NAMES@[2]@ == "docker-compose.yaml"@);
    assert(COMPOSE_NAMES@[3]@ == "docker-compose.yml"@);
}

/// Mappings are published in the order in which they are listed.
pub proof fn law_mappings_keep_the_order(a: Seq<Yaml>, b: Seq<Yaml>)
    ensures
        ports_of(a + b) == ports_of(a) + ports_of(b),
    decreases b.len(),
{
    if b.len() == 0 {
        assert(a + b =~= a);
        assert(ports_of(a) + ports_of(b) =~= ports_of(a));
    } else {
        assert((a + b).drop_last() =~= a + b.drop_last());
        assert((a + b).last() == b.last());
        law_mappings_keep_the_order(a, b.drop_last());
        assert(ports_of(a + b) =~= ports_of(a) + ports_of(b));
    }
}

/// Networks are listed in the order in which they are named.
pub proof fn law_networks_keep_the_order(a: Seq<Yaml>, b: Seq<Yaml>)
    ensures
        texts_among(a + b) == texts_among(a) + texts_among(b),
    decreases b.len(),
{
    if b.len() == 0 {
        assert(a + b =~= a);
        assert(texts_among(a) + texts_among(b) =~= texts_among(a));
    } else {
        assert((a + b).drop_last() =~= a + b.drop_last());
        assert((a + b).last() == b.last());
        law_networks_keep_the_order(a, b.drop_last());
        assert(texts_among(a + b) =~= texts_among(a) + texts_among(b));
    }
}

} // verus!
