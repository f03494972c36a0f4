//! Collector poller
//!
//! The poller pulls from external block explorers, which cannot push, and
//! submits what they report as poll events. The HTTP calls live in the
//! embedding binary; the selection of configured sources and the reading
//! of their answers are here.

pub mod mintscan;
pub mod ngexplorers;

use crate::config;
use crate::config::network::tendermint::ConfigView;
use crate::error::Error;
use vstd::prelude::*;

verus! {

/// The Mintscan pollers the configured networks define, in order: one per
/// section carrying a Mintscan endpoint.
pub open spec fn spec_mintscan_pollers(cfgs: Seq<ConfigView>) -> Seq<mintscan::PollerView>
    decreases cfgs.len(),
{
    if cfgs.len() == 0 {
        Seq::empty()
    } else {
        (match mintscan::spec_poller_of(cfgs[0]) {
            Some(p) => seq![p],
            None => Seq::empty(),
        }) + spec_mintscan_pollers(cfgs.skip(1))
    }
}

/// The NgExplorers pollers the configured networks define, in order: one
/// per section carrying an NgExplorers endpoint.
pub open spec fn spec_ngexplorers_pollers(cfgs: Seq<ConfigView>) -> Seq<ngexplorers::PollerView>
    decreases cfgs.len(),
{
    if cfgs.len() == 0 {
        Seq::empty()
    } else {
        (match ngexplorers::spec_poller_of(cfgs[0]) {
            Some(p) => seq![p],
            None => Seq::empty(),
        }) + spec_ngexplorers_pollers(cfgs.skip(1))
    }
}

/// Default interval between poller ticks, in milliseconds.
pub const DEFAULT_POLLER_INTERVAL_MS: u64 = 60000;

/// The collector's poller: collects information from external sources
/// which aren't capable of pushing data.
#[derive(Debug)]
pub struct Poller {
    /// Interval at which to poll, in milliseconds
    pub poll_interval: u64,

    /// Mintscan API endpoints to poll
    pub mintscan: Vec<mintscan::Poller>,

    /// Explorers Guru API endpoints to poll
    pub ngexplorers: Vec<ngexplorers::Poller>,
}

impl Poller {
    /// Initialize the poller from the config: exactly one poller per
    /// network section that names the source, in configuration order.
    pub fn new(config: &config::collector::Config) -> (r: Result<Poller, Error>)
        ensures
            r matches Ok(p) && p.poll_interval == DEFAULT_POLLER_INTERVAL_MS
                && p.mintscan.deep_view() == spec_mintscan_pollers(
                config.networks.tendermint.deep_view(),
            ) && p.ngexplorers.deep_view() == spec_ngexplorers_pollers(
                config.networks.tendermint.deep_view(),
            ),
    {
        let ghost gcfgs = config.networks.tendermint.deep_view();
        let mut mintscan: Vec<mintscan::Poller> = Vec::new();
        let mut ngexplorers: Vec<ngexplorers::Poller> = Vec::new();
        let n = config.networks.tendermint.len();
        let mut i: usize = 0;
        proof {
            assert(gcfgs.skip(0) =~= gcfgs);
            assert(mintscan.deep_view() =~= Seq::<mintscan::PollerView>::empty());
            assert(ngexplorers.deep_view() =~= Seq::<ngexplorers::PollerView>::empty());
        }
        while i < n
            invariant
                i <= n,
                n == config.networks.tendermint@.len(),
                gcfgs == config.networks.tendermint.deep_view(),
                gcfgs.len() == n,
                spec_mintscan_pollers(gcfgs) =~= mintscan.deep_view() + spec_mintscan_pollers(
                    gcfgs.skip(i as int),
                ),
                spec_ngexplorers_pollers(gcfgs) =~= ngexplorers.deep_view()
                    + spec_ngexplorers_pollers(gcfgs.skip(i as int)),
            decreases n - i,
        {
            proof {
                assert(gcfgs.skip(i as int)[0] == gcfgs[i as int]);
                assert(gcfgs.skip(i as int).skip(1) =~= gcfgs.skip(i as int + 1));
                assert(config.networks.tendermint@[i as int].deep_view() == gcfgs[i as int]);
            }
            let ghost ms_before = mintscan.deep_view();
            match mintscan::Poller::new(&config.networks.tendermint[i]) {
                Some(p) => {
                    let ghost pv = p@;
                    mintscan.push(p);
                    proof {
                        assert(mintscan.deep_view() =~= ms_before + seq![pv]);
                    }
                },
                None => {
                },
            }
            let ghost ng_before = ngexplorers.deep_view();
            match ngexplorers::Poller::new(&config.networks.tendermint[i]) {
                Some(p) => {
                    let ghost pv = p@;
                    ngexplorers.push(p);
                    proof {
                        assert(ngexplorers.deep_view() =~= ng_before + seq![pv]);
                    }
                },
                None => {
                },
            }
            i = i + 1;
        }
        proof {
            assert(gcfgs.skip(n as int) =~= Seq::<ConfigView>::empty());
        }
        Ok(Poller { poll_interval: DEFAULT_POLLER_INTERVAL_MS, mintscan, ngexplorers })
    }

    /// Are there any configured sources?
    pub fn has_sources(&self) -> (r: bool)
        ensures
            r == (self.mintscan@.len() > 0 || self.ngexplorers@.len() > 0),
    {
        if self.mintscan.len() > 0 {
            return true;
        }
        if self.ngexplorers.len() > 0 {
            return true;
        }
        false
    }
}

} // verus!
