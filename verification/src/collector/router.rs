//! Collector HTTP request router
//!
//! The HTTP listener itself lives in the embedding binary; what stands
//! here is the listen address the router binds and the size gate every
//! request body passes.

use crate::config;
use vstd::prelude::*;

verus! {

/// HTTP request router configuration.
#[derive(Debug)]
pub struct Router {
    /// IPv4 address octets to listen on
    pub addr: [u8; 4],

    /// Port to listen on
    pub port: u16,

    /// Protocol to listen on
    pub protocol: config::collector::listen::Protocol,
}

impl Router {
    /// Initialize the router from the config.
    pub fn new(config: &config::collector::Config) -> (r: Router)
        ensures
            r.addr@ == config.listen.addr@,
            r.port == config.listen.port,
            r.protocol == config.listen.protocol,
    {
        Router {
            addr: config.listen.addr,
            port: config.listen.port,
            protocol: config.listen.protocol,
        }
    }

    /// May a `POST /collector` body of `len` bytes be accepted? Larger
    /// bodies are refused with a too-large status.
    pub fn accepts_body(len: usize) -> (r: bool)
        ensures
            r == (len <= crate::MAX_ENVELOPE_BODY),
    {
        crate::body_len_ok(len)
    }
}

} // verus!
