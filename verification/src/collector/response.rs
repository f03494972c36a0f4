//! Responses from the collector

use crate::network;
use vstd::prelude::*;

verus! {

/// Responses from the collector
#[derive(Debug)]
pub enum Response {
    /// Processed a message.
    Message,

    /// Network state information, or nothing for an unknown network.
    NetworkState(Option<Box<network::State>>),

    /// Pager events
    PagerEvents(Vec<String>),

    /// Poll event
    PollEvent,
}

} // verus!
