//! Network configuration.

pub mod tendermint;

use vstd::prelude::*;

verus! {

/// Types of network this collector is collecting information about
#[derive(Debug)]
pub struct Config {
    /// Tendermint networks
    pub tendermint: Vec<tendermint::Config>,
}

} // verus!
