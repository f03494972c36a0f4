//! Monitoring agent configuration settings

use vstd::prelude::*;

verus! {

/// Tendermint node-related agent config settings.
#[derive(Debug)]
pub struct Config {
    /// Location of the monitored Tendermint node's home directory
    pub node_home: String,

    /// Address of the node's RPC endpoint (`tcp://host:port`)
    pub rpc: String,

    /// Event queries to subscribe to; an empty list means the transaction
    /// subscription alone
    pub event_queries: Vec<String>,

    /// Location of the collector
    pub collector: CollectorAddr,
}

impl Config {
    /// Path to the node's configuration directory.
    pub fn config_dir(&self) -> (r: String)
        ensures
            r@ == self.node_home@ + "/config"@,
    {
        self.node_home.clone().concat("/config")
    }

    /// Path to the node's `config.toml` file.
    pub fn config_toml_path(&self) -> (r: String)
        ensures
            r@ == self.node_home@ + "/config"@ + "/config.toml"@,
    {
        self.config_dir().concat("/config.toml")
    }
}

/// Collector location config
#[derive(Debug)]
pub enum CollectorAddr {
    /// Collector HTTP config
    Http(HttpConfig),
}

/// Http config
#[derive(Debug)]
pub struct HttpConfig {
    /// Address of the collector HTTP service
    pub uri: String,
}

impl View for CollectorAddr {
    type V = Seq<char>;

    /// The collector's address text.
    open spec fn view(&self) -> Seq<char> {
        match self {
            CollectorAddr::Http(http) => http.uri@,
        }
    }
}

/// The URL envelopes are posted to: `{base}/collector`.
pub fn collector_url(base: &str) -> (r: String)
    ensures
        r@ == base@ + "/collector"@,
{
    base.to_owned().concat("/collector")
}

} // verus!
