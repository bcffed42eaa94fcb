//! `~/.config/henk/config.toml`: user-facing settings (TLD, port choices,
//! update-check toggle). Created on first `henk init`, read by every command.

use vstd::prelude::*;
use vstd::string::*;

use crate::consts::{
    DASHBOARD_PORT, DEFAULT_TLD, DNSMASQ_PORT, HENK_FILE_HEADER, HTTPS_PORT, HTTP_PORT,
};
use crate::detect::tld::{clean, clean_of};
use crate::stack::paths::{
    config_dir_in, config_dir_of, home, join, joined, place, placed, under_home, Home, HomePath,
    PathError,
};
use crate::text::{
    begins, contains, decimal, decimal_u64, ends, lemma_contains_either, lemma_contains_pair,
};

verus! {

/// The ports henk uses.
#[derive(Debug, Clone, Copy, PartialEq, Eq, Structural)]
pub struct Ports {
    pub http: u16,
    pub https: u16,
    pub dnsmasq: u16,
    pub dashboard: u16,
}

/// User-facing settings.
#[derive(Debug, PartialEq, Eq)]
pub struct Config {
    pub schema_version: u32,
    /// TLD without leading dot, e.g. `"test"` or `"henk"`.
    pub tld: String,
    pub ports: Ports,
    /// Whether `henk update` should check for newer releases.
    pub update_check: bool,
}

/// The view of a [`Config`].
pub struct ConfigView {
    pub schema_version: u32,
    pub tld: Seq<char>,
    pub ports: Ports,
    pub update_check: bool,
}

impl View for Config {
    type V = ConfigView;

    open spec fn view(&self) -> ConfigView {
        ConfigView {
            schema_version: self.schema_version,
            tld: self.tld@,
            ports: self.ports,
            update_check: self.update_check,
        }
    }
}

/// The settings of a fresh install that uses `tld`.
pub open spec fn fresh(tld: Seq<char>) -> ConfigView {
    ConfigView {
        schema_version: 1,
        tld,
        ports: Ports {
            http: HTTP_PORT,
            https: HTTPS_PORT,
            dnsmasq: DNSMASQ_PORT,
            dashboard: DASHBOARD_PORT,
        },
        update_check: true,
    }
}

impl Default for Config {
    fn default() -> (r: Config)
        ensures
            r@ == fresh(DEFAULT_TLD@),
    {
        Config {
            schema_version: 1,
            tld: DEFAULT_TLD.to_owned(),
            ports: Ports {
                http: HTTP_PORT,
                https: HTTPS_PORT,
                dnsmasq: DNSMASQ_PORT,
                dashboard: DASHBOARD_PORT,
            },
            update_check: true,
        }
    }
}

/// Config file location for a given home directory.
pub fn path_in(home: &str) -> (r: String)
    ensures
        r@ == joined(config_dir_of(home@), "config.toml"@),
{
    join(config_dir_in(home).as_str(), "config.toml")
}

/// Config file location: `~/.config/henk/config.toml`.
///
/// `found` is what `home` gave; an error in it is passed on.
pub fn path_from(found: Result<Home, PathError>) -> (r: Result<HomePath, PathError>)
    ensures
        placed(found, joined(config_dir_of(""@), "config.toml"@), r),
{
    place(found, path_in(""))
}

/// Config file location: `~/.config/henk/config.toml`.
pub fn path() -> (r: Result<HomePath, PathError>)
    ensures
        under_home(r, joined(config_dir_of(""@), "config.toml"@)),
{
    path_from(home())
}

impl Config {
    /// The config to use, and whether it is new and has to be saved: an existing
    /// one is kept as it is, otherwise a default one is made for the chosen TLD.
    pub fn load_or_init(existing: Option<Config>, tld: &str) -> (r: (Config, bool))
        ensures
            match existing {
                Some(c) => r.0 == c && !r.1,
                None => r.0@ == fresh(clean_of(tld@)) && r.1,
            },
    {
        match existing {
            Some(c) => (c, false),
            None => {
                let mut c = Config::default();
                c.tld = clean(tld);
                (c, true)
            },
        }
    }

    /// What is written to disk, given the settings as TOML: henk's header, the
    /// schema version, a blank line, then the settings.
    pub fn file_text(&self, body: &str) -> (r: String)
        ensures
            r@ == config_text(self@.schema_version, body@),
    {
        HENK_FILE_HEADER.to_owned().concat("\n# schema_version = ").concat(
            decimal_u64(self.schema_version as u64).as_str(),
        ).concat("\n\n").concat(body)
    }
}

/// The text of the config file.
pub open spec fn config_text(schema_version: u32, body: Seq<char>) -> Seq<char> {
    HENK_FILE_HEADER@ + "\n# schema_version = "@ + decimal(schema_version as nat) + "\n\n"@ + body
}

/// Whatever the settings, the config file begins with henk's header.
pub proof fn law_config_begins_with_the_header(schema_version: u32, body: Seq<char>)
    ensures
        begins(config_text(schema_version, body), HENK_FILE_HEADER@),
{
    let t = config_text(schema_version, body);
    assert(t.subrange(0, HENK_FILE_HEADER@.len() as int) =~= HENK_FILE_HEADER@);
}

/// A fresh install keeps its TLD, uses the ports of http and https, and looks for
/// updates.
pub proof fn law_fresh_settings(tld: Seq<char>)
    ensures
        fresh(tld).tld == tld,
        fresh(tld).ports.http == 80,
        fresh(tld).ports.https == 443,
        fresh(tld).ports.dnsmasq == 35353,
        fresh(tld).ports.dashboard == 19080,
        fresh(tld).update_check,
{
}

/// The config file names its schema version and ends with the settings.
pub proof fn law_config_holds_the_settings(schema_version: u32, body: Seq<char>)
    ensures
        ends(config_text(schema_version, body), "\n\n"@ + body),
        contains(
            config_text(schema_version, body),
            "\n# schema_version = "@ + decimal(schema_version as nat),
        ),
{
    let t = config_text(schema_version, body);
    let tail = "\n\n"@ + body;
    assert(t.subrange(t.len() - tail.len(), t.len() as int) =~= tail);
    let n = decimal(schema_version as nat);
    let line = "\n# schema_version = "@ + n;
    let head = HENK_FILE_HEADER@ + "\n# schema_version = "@ + n;
    lemma_contains_pair(HENK_FILE_HEADER@, "\n# schema_version = "@, n);
    lemma_contains_either(head, "\n\n"@, line);
    lemma_contains_either(head + "\n\n"@, body, line);
}

} // verus!
