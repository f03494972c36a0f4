//! Requests to the collector

use crate::message::Envelope;
use crate::network;
use vstd::prelude::*;

verus! {

/// Block height type
pub type BlockHeight = u64;

/// Requests to the collector.
#[derive(Debug)]
pub enum Request {
    /// Handle an incoming message from an agent.
    Message(Envelope),

    /// Get the network state for a given network.
    NetworkState(network::Id),

    /// Get any pager events to relay onward.
    PagerEvents,

    /// Report information obtained from an external poller.
    PollEvent(PollEvent),
}

/// View of a poll event.
pub struct PollEventView {
    /// Source the data was obtained from
    pub source: Seq<char>,

    /// Network ID the information is associated with
    pub network_id: Seq<char>,

    /// Current block height, if the source reports one
    pub current_height: Option<BlockHeight>,

    /// Count of missed blocks, if the source reports one
    pub missed_blocks: Option<u64>,

    /// Last block the validator signed, if the source reports one
    pub last_signed_height: Option<BlockHeight>,
}

/// Information obtained from an external poller.
///
/// The optional fields reflect what each explorer returns.
#[derive(Debug)]
pub struct PollEvent {
    /// Source the data was obtained from
    pub source: String,

    /// Network ID the information is associated with
    pub network_id: String,

    /// Current block height, if the source reports one
    pub current_height: Option<BlockHeight>,

    /// Count of missed blocks, if the source reports one
    pub missed_blocks: Option<u64>,

    /// Last block the validator signed, if the source reports one
    pub last_signed_height: Option<BlockHeight>,
}

impl View for PollEvent {
    type V = PollEventView;

    open spec fn view(&self) -> PollEventView {
        PollEventView {
            source: self.source@,
            network_id: self.network_id@,
            current_height: self.current_height,
            missed_blocks: self.missed_blocks,
            last_signed_height: self.last_signed_height,
        }
    }
}

/// The missed-block count a poll event carries: the explicit count when
/// the source reports one, else the gap between the chain tip and the last
/// signed block (zero when the tip lags), else nothing.
pub open spec fn spec_missed_blocks(pe: PollEventView) -> Option<u64> {
    match pe.missed_blocks {
        Some(m) => Some(m),
        None => match (pe.current_height, pe.last_signed_height) {
            (Some(c), Some(l)) => if c >= l {
                Some((c - l) as u64)
            } else {
                Some(0u64)
            },
            _ => None,
        },
    }
}

} // verus!
