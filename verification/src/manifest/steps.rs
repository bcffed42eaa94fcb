//! Names of the recorded steps, so callers can't mistype a key.

use vstd::prelude::*;

verus! {

pub const BREW_MKCERT: &'static str = "brew_mkcert";

pub const BREW_NSS: &'static str = "brew_nss";

pub const BREW_DNSMASQ: &'static str = "brew_dnsmasq";

pub const MKCERT_CA: &'static str = "mkcert_ca";

pub const WILDCARD_CERT: &'static str = "wildcard_cert";

pub const DNSMASQ_DROPIN: &'static str = "dnsmasq_dropin";

pub const RESOLVER_FILE: &'static str = "resolver_file";

pub const STACK_RENDERED: &'static str = "stack_rendered";

pub const STACK_UP: &'static str = "stack_up";

} // verus!
