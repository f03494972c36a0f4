//! Configuration settings for the supervised Tendermint node

use vstd::prelude::*;

verus! {

/// Location of the supervised node's home directory.
#[derive(Debug)]
pub struct NodeConfig {
    /// Directory for config and data (i.e. argument to `--home`)
    pub home: String,
}

impl NodeConfig {
    /// Path to the node's configuration directory.
    pub fn config_dir(&self) -> (r: String)
        ensures
            r@ == self.home@ + "/config"@,
    {
        self.home.clone().concat("/config")
    }

    /// Path to the node's `config.toml` file.
    pub fn config_toml_path(&self) -> (r: String)
        ensures
            r@ == self.home@ + "/config"@ + "/config.toml"@,
    {
        self.config_dir().concat("/config.toml")
    }
}

impl Default for NodeConfig {
    /// An empty home directory path.
    fn default() -> (r: Self)
        ensures
            r.home@.len() == 0,
    {
        NodeConfig { home: String::new() }
    }
}

} // verus!
