//! The global Traefik stack: where its files live, what they hold, and how it
//! is brought up and down.

pub mod assets;
pub mod certinfo;
pub mod certs;
pub mod dnsmasq;
pub mod lifecycle;
pub mod paths;
pub mod resolver;
pub mod templates;
