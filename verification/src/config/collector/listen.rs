//! Listen config.

use vstd::prelude::*;

verus! {

/// Default port number the collector listens on.
pub const DEFAULT_PORT: u16 = 7322;

/// Listen config: controls where the collector listens for connections.
#[derive(Debug)]
pub struct Config {
    /// IPv4 address octets to listen on
    pub addr: [u8; 4],

    /// Port to listen on
    pub port: u16,

    /// Protocol to listen on
    pub protocol: Protocol,
}

impl Default for Config {
    /// Listen on localhost at the default port, over plain HTTP.
    fn default() -> (r: Self)
        ensures
            r.addr@ =~= seq![127u8, 0u8, 0u8, 1u8],
            r.port == DEFAULT_PORT,
            r.protocol == Protocol::Http,
    {
        let c = Config { addr: [127, 0, 0, 1], port: DEFAULT_PORT, protocol: Protocol::Http };
        proof {
            assert(c.addr@ =~= seq![127u8, 0u8, 0u8, 1u8]);
        }
        c
    }
}

/// Protocol to listen on
#[derive(Copy, Clone, Debug, PartialEq, Eq, Structural)]
pub enum Protocol {
    /// Plaintext HTTP
    Http,
}

impl Default for Protocol {
    /// Plain HTTP.
    fn default() -> (r: Self)
        ensures
            r == Protocol::Http,
    {
        Protocol::Http
    }
}

} // verus!
