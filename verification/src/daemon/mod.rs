//! The desktop daemon's own variants: its announcement, its
//! certificate-pinning trust store and its TLS identity.

pub mod cert;
pub mod discovery;
pub mod trust;
