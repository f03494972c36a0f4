//! Mintscan poller
//!
//! The Mintscan uptime endpoint answers with an array of uptime entries;
//! the poll event reports the array's length as the missed-block count,
//! a heuristic reading of that endpoint. The NgExplorers source, whose
//! blocks carry an explicit signed flag, is the authoritative one where
//! both are configured.

use crate::collector::request::PollEvent;
use crate::config;
use vstd::prelude::*;

verus! {

/// Name of this poller source.
pub const SOURCE_NAME: &'static str = "mintscan";

/// View of a Mintscan poller.
pub struct PollerView {
    /// API hostname
    pub host: Seq<char>,

    /// Tendermint chain ID
    pub chain_id: Seq<char>,

    /// Validator operator address, if configured
    pub validator_addr: Option<Seq<char>>,

    /// Network name
    pub network: Seq<char>,
}

/// Mintscan poller for one network.
#[derive(Debug)]
pub struct Poller {
    /// API hostname
    pub host: String,

    /// Tendermint chain ID
    pub chain_id: String,

    /// Validator operator address, if configured
    pub validator_addr: Option<String>,

    /// Network name
    pub network: String,
}

impl View for Poller {
    type V = PollerView;

    open spec fn view(&self) -> PollerView {
        PollerView {
            host: self.host@,
            chain_id: self.chain_id@,
            validator_addr: match self.validator_addr {
                Some(a) => Some(a@),
                None => None,
            },
            network: self.network@,
        }
    }
}

impl DeepView for Poller {
    type V = PollerView;

    open spec fn deep_view(&self) -> PollerView {
        self.view()
    }
}

/// The Mintscan poller one network section defines, if it names this
/// source: that host and network name, the section's chain ID and
/// validator address.
pub open spec fn spec_poller_of(c: config::network::tendermint::ConfigView) -> Option<
    PollerView,
> {
    match c.mintscan {
        Some(ms) => Some(
            PollerView {
                host: ms.host,
                chain_id: c.chain_id,
                validator_addr: c.validator_addr,
                network: ms.network,
            },
        ),
        None => None,
    }
}

impl Poller {
    /// Create a new Mintscan poller for the given Tendermint network, if
    /// it has a Mintscan configuration.
    pub fn new(config: &config::network::tendermint::Config) -> (r: Option<Poller>)
        ensures
            match r {
                Some(p) => spec_poller_of(config@) == Some(p@),
                None => spec_poller_of(config@) is None,
            },
    {
        match &config.mintscan {
            Some(mintscan_config) => Some(
                Poller {
                    host: mintscan_config.host.clone(),
                    chain_id: config.chain_id.clone(),
                    validator_addr: match &config.validator_addr {
                        Some(a) => Some(a.clone()),
                        None => None,
                    },
                    network: mintscan_config.network.clone(),
                },
            ),
            None => None,
        }
    }

    /// The poll event one fetched uptime array yields: its length stands
    /// for the missed-block count.
    pub fn poll_event(&self, uptime_len: u64) -> (r: PollEvent)
        ensures
            r@.source == SOURCE_NAME@,
            r@.network_id == self.chain_id@,
            r@.missed_blocks == Some(uptime_len),
            r@.current_height is None,
            r@.last_signed_height is None,
    {
        PollEvent {
            source: SOURCE_NAME.to_owned(),
            network_id: self.chain_id.clone(),
            current_height: None,
            missed_blocks: Some(uptime_len),
            last_signed_height: None,
        }
    }
}

} // verus!
