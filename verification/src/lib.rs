//! Observability library for Tendermint-family blockchain networks.
//!
//! Two cooperating roles share this library. An *agent* runs beside a
//! Tendermint full node: it polls the node's RPC endpoints, diffs the
//! answers against its last snapshot, and packages what changed into
//! envelopes bound for a central *collector*. The collector keeps an
//! in-memory state machine per network, fans incoming envelopes and
//! explorer poll events into it, translates IBC events into bounded-tag
//! StatsD metric records, and raises rate-limited pages.
//!
//! Everything here works on plain values; the network, clock and socket
//! work around it lives in the binary that embeds the library.

pub mod codec;
pub mod collector;
pub mod config;
pub mod error;
pub mod event_monitor;
pub mod events;
pub mod message;
pub mod metrics;
pub mod monitor;
pub mod net;
pub mod network;
pub mod response;
pub mod text;

use vstd::prelude::*;

verus! {

/// Largest accepted `POST /collector` body, in bytes.
pub const MAX_ENVELOPE_BODY: usize = 131072;

/// True when a body of `len` bytes may be accepted by the collector.
pub fn body_len_ok(len: usize) -> (r: bool)
    ensures
        r == (len <= MAX_ENVELOPE_BODY),
{
    len <= MAX_ENVELOPE_BODY
}

} // verus!
