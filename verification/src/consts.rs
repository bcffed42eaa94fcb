//! Constants used throughout henk.

use vstd::prelude::*;

verus! {

/// Bumped whenever the embedded Traefik / dnsmasq templates change in a way
/// that requires re-rendering on the user's machine.
pub const STACK_VERSION: u32 = 1;

/// Bumped on `state.json` schema changes.
pub const STATE_SCHEMA_VERSION: u32 = 1;

/// Bumped on `.henk.toml` schema changes.
pub const PROJECT_MANIFEST_VERSION: u32 = 1;

/// Default top-level domain used when no Valet/Herd is detected.
pub const DEFAULT_TLD: &'static str = "test";

/// Fallback TLD used when Valet/Herd own the `.test` resolver.
pub const FALLBACK_TLD: &'static str = "henk";

/// Port recorded for dnsmasq in the config file.
pub const DNSMASQ_PORT: u16 = 35353;

/// Host port of the proxy's plain-http entrypoint.
pub const HTTP_PORT: u16 = 80;

/// Host port of the proxy's https entrypoint.
pub const HTTPS_PORT: u16 = 443;

/// Loopback port of the Traefik dashboard.
pub const DASHBOARD_PORT: u16 = 19080;

/// Shared Docker network name. Each linked Docker-mode project joins it.
pub const PROXY_NETWORK: &'static str = "henk-proxy";

/// Label that marks the proxy network as henk's own.
pub const NETWORK_LABEL: &'static str = "henk.managed=true";

/// Header at the top of every file henk authors. Checked before deleting.
pub const HENK_FILE_HEADER: &'static str = "# managed by henk — see https://github.com/fivespark/henk";

/// Web-ish ports preferred when a service exposes several; earlier is stronger.
pub const WEB_PORTS: [u16; 10] = [80, 443, 8080, 8000, 8055, 3000, 5173, 4321, 4200, 8025];

/// Image and service-name patterns treated as datastores.
pub const DATASTORE_PATTERNS: [&'static str; 14] = [
    "postgres",
    "pgsql",
    "mysql",
    "mariadb",
    "redis",
    "valkey",
    "memcached",
    "mongo",
    "elastic",
    "rabbitmq",
    "kafka",
    "minio",
    "meilisearch",
    "clickhouse",
];

/// Top-level domains henk refuses to use even if the user asks.
pub const RESERVED_TLDS: [&'static str; 4] = ["local", "localhost", "example", "invalid"];

} // verus!
