//! Configuration file settings

pub mod agent;
pub mod collector;
pub mod network;
pub mod node;
pub mod tendermint;

use vstd::prelude::*;

verus! {

/// Top-level configuration settings: the presence of each section enables
/// that role, and either may be present alone or both together.
#[derive(Debug)]
pub struct CosmonConfig {
    /// Monitoring agent configuration
    pub agent: Option<agent::Config>,

    /// Collector configuration
    pub collector: Option<collector::Config>,
}

impl CosmonConfig {
    /// Are we configured to be an agent?
    pub fn is_agent(&self) -> (r: bool)
        ensures
            r == (self.agent is Some),
    {
        self.agent.is_some()
    }

    /// Are we configured to be a collector?
    pub fn is_collector(&self) -> (r: bool)
        ensures
            r == (self.collector is Some),
    {
        self.collector.is_some()
    }
}

impl Default for CosmonConfig {
    /// An empty configuration enables neither role.
    fn default() -> (r: Self)
        ensures
            r.agent is None,
            r.collector is None,
    {
        CosmonConfig { agent: None, collector: None }
    }
}

} // verus!
