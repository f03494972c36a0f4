//! Collector state

use super::{reg_index, reg_unique, spec_register, Collector};
use crate::error::{Error, ErrorKind};
use crate::message::Envelope;
use crate::metrics::MetricRecord;
use crate::network::tendermint::{spec_handle_message, spec_handle_records};
use crate::network::{tm_view, Network, NetworkKindView};
use vstd::prelude::*;

verus! {

/// Collector state: the network registry behind the request dispatcher.
#[derive(Debug)]
pub struct State {
    /// The registry
    pub collector: Collector,
}

impl View for State {
    type V = Seq<NetworkKindView>;

    open spec fn view(&self) -> Seq<NetworkKindView> {
        self.collector@
    }
}

impl State {
    /// Initialize collector state, registering the networks in chain-ID
    /// order; two networks with the same chain ID are a fatal
    /// configuration error.
    pub fn new(networks: Vec<Network>) -> (r: Result<State, Error>)
        ensures
            match r {
                Ok(s) => spec_register(Seq::empty(), networks.deep_view()) == Some(s@)
                    && reg_unique(networks.deep_view()),
                Err(e) => spec_register(Seq::empty(), networks.deep_view()) is None
                    && !reg_unique(networks.deep_view()) && e.kind == ErrorKind::ConfigError,
            },
    {
        match Collector::new(networks) {
            Ok(c) => Ok(State { collector: c }),
            Err(e) => Err(e),
        }
    }

    /// Borrow a network registered with this collector.
    pub fn network(&self, network_id: &crate::network::Id) -> (r: Option<&Network>)
        ensures
            match reg_index(self@, network_id@) {
                Some(j) => r matches Some(n) && n@ == self@[j],
                None => r is None,
            },
    {
        match self.collector.find_index(network_id.as_str()) {
            Some(j) => Some(&self.collector.networks[j]),
            None => None,
        }
    }

    /// Handle an incoming status message from a monitor: the addressed
    /// network absorbs it; a message for an unregistered network is
    /// dropped with a warning by the caller.
    pub fn handle_message(&mut self, envelope: &Envelope, now: u64) -> (r: Vec<MetricRecord>)
        ensures
            match reg_index(old(self)@, envelope@.network) {
                Some(j) => final(self)@ == old(self)@.update(
                    j,
                    NetworkKindView::Tendermint(
                        spec_handle_message(tm_view(old(self)@[j]), envelope@, now),
                    ),
                ) && r.deep_view() == spec_handle_records(tm_view(old(self)@[j]), envelope@),
                None => *final(self) == *old(self) && r@.len() == 0,
            },
    {
        self.collector.handle_message(envelope, now)
    }
}

} // verus!
