//! Tendermint network configuration.

use vstd::prelude::*;

verus! {

/// View of a Tendermint network configuration.
pub struct ConfigView {
    /// Chain ID
    pub chain_id: Seq<char>,

    /// Validator operator address
    pub validator_addr: Option<Seq<char>>,

    /// Mintscan API endpoint
    pub mintscan: Option<MintscanConfigView>,

    /// Explorers Guru API endpoint
    pub ngexplorers: Option<NgExplorersConfigView>,

    /// Missed-block count above which a page is raised
    pub page_threshold: Option<u64>,
}

/// Tendermint network configuration.
#[derive(Debug)]
pub struct Config {
    /// Chain ID.
    pub chain_id: String,

    /// Validator operator address.
    pub validator_addr: Option<String>,

    /// Mintscan API endpoint.
    pub mintscan: Option<MintscanConfig>,

    /// Explorers Guru API endpoint.
    pub ngexplorers: Option<NgExplorersConfig>,

    /// Missed-block count above which a page is raised; the default
    /// applies when absent.
    pub page_threshold: Option<u64>,
}

impl View for Config {
    type V = ConfigView;

    open spec fn view(&self) -> ConfigView {
        ConfigView {
            chain_id: self.chain_id@,
            validator_addr: match self.validator_addr {
                Some(a) => Some(a@),
                None => None,
            },
            mintscan: match self.mintscan {
                Some(m) => Some(m@),
                None => None,
            },
            ngexplorers: match self.ngexplorers {
                Some(n) => Some(n@),
                None => None,
            },
            page_threshold: self.page_threshold,
        }
    }
}

impl DeepView for Config {
    type V = ConfigView;

    open spec fn deep_view(&self) -> ConfigView {
        self.view()
    }
}

/// View of a Mintscan configuration.
pub struct MintscanConfigView {
    /// API host
    pub host: Seq<char>,

    /// Network name
    pub network: Seq<char>,
}

/// View of an Ng Explorers configuration.
pub struct NgExplorersConfigView {
    /// API host
    pub host: Seq<char>,
}

/// Mintscan configuration.
#[derive(Debug)]
pub struct MintscanConfig {
    /// API host (e.g. `api.cosmostation.io`)
    pub host: String,

    /// Network name (e.g. `cosmos`)
    pub network: String,
}

impl View for MintscanConfig {
    type V = MintscanConfigView;

    open spec fn view(&self) -> MintscanConfigView {
        MintscanConfigView { host: self.host@, network: self.network@ }
    }
}

/// Ng Explorers configuration.
#[derive(Debug)]
pub struct NgExplorersConfig {
    /// API host (e.g. `agoric.api.explorers.guru`)
    pub host: String,
}

impl View for NgExplorersConfig {
    type V = NgExplorersConfigView;

    open spec fn view(&self) -> NgExplorersConfigView {
        NgExplorersConfigView { host: self.host@ }
    }
}

} // verus!
