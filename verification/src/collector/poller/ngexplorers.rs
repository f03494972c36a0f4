//! NgExplorers poller
//!
//! The explorer's uptime endpoint answers with a window of recent blocks,
//! each marked signed or not; the poll event reports how many the
//! validator missed. The `signed` flag is authoritative here, which makes
//! the derived count exact.

use crate::collector::request::PollEvent;
use crate::config;
use vstd::prelude::*;

verus! {

/// Name of this poller source.
pub const SOURCE_NAME: &'static str = "ngexplorers";

/// One block of the uptime window.
#[derive(Copy, Clone, Debug, PartialEq, Eq, Structural)]
pub struct Block {
    /// Height
    pub height: u64,

    /// Whether the validator signed it
    pub signed: bool,
}

/// The number of unsigned blocks in a window.
pub open spec fn spec_missed_count(blocks: Seq<Block>) -> int
    decreases blocks.len(),
{
    if blocks.len() == 0 {
        0
    } else {
        (if blocks[0].signed {
            0int
        } else {
            1int
        }) + spec_missed_count(blocks.skip(1))
    }
}

/// Count the blocks of the window the validator did not sign.
pub fn count_missed(blocks: &Vec<Block>) -> (r: u64)
    requires
        blocks@.len() <= u64::MAX,
    ensures
        r as int == spec_missed_count(blocks@),
{
    let n = blocks.len();
    let mut count: u64 = 0;
    let mut i: usize = 0;
    proof {
        assert(blocks@.skip(0) =~= blocks@);
        lemma_missed_count_bounds(blocks@);
    }
    while i < n
        invariant
            i <= n,
            n == blocks@.len(),
            count <= i,
            spec_missed_count(blocks@) == count + spec_missed_count(blocks@.skip(i as int)),
        decreases n - i,
    {
        proof {
            assert(blocks@.skip(i as int)[0] == blocks@[i as int]);
            assert(blocks@.skip(i as int).skip(1) =~= blocks@.skip(i as int + 1));
        }
        if !blocks[i].signed {
            count = count + 1;
        }
        i = i + 1;
    }
    proof {
        assert(blocks@.skip(n as int) =~= Seq::<Block>::empty());
    }
    count
}

/// The missed count never exceeds the window's length.
proof fn lemma_missed_count_bounds(blocks: Seq<Block>)
    ensures
        0 <= spec_missed_count(blocks) <= blocks.len(),
    decreases blocks.len(),
{
    if blocks.len() > 0 {
        lemma_missed_count_bounds(blocks.skip(1));
    }
}

/// View of an NgExplorers poller.
pub struct PollerView {
    /// API hostname
    pub host: Seq<char>,

    /// Tendermint chain ID
    pub chain_id: Seq<char>,

    /// Validator operator address, if configured
    pub validator_addr: Option<Seq<char>>,
}

/// NgExplorers poller for one network.
#[derive(Debug)]
pub struct Poller {
    /// API hostname
    pub host: String,

    /// Tendermint chain ID
    pub chain_id: String,

    /// Validator operator address, if configured
    pub validator_addr: Option<String>,
}

impl View for Poller {
    type V = PollerView;

    open spec fn view(&self) -> PollerView {
        PollerView {
            host: self.host@,
            chain_id: self.chain_id@,
            validator_addr: match self.validator_addr {
                Some(a) => Some(a@),
                None => None,
            },
        }
    }
}

impl DeepView for Poller {
    type V = PollerView;

    open spec fn deep_view(&self) -> PollerView {
        self.view()
    }
}

/// The NgExplorers poller one network section defines, if it names this
/// source: that host, the section's chain ID and validator address.
pub open spec fn spec_poller_of(c: config::network::tendermint::ConfigView) -> Option<
    PollerView,
> {
    match c.ngexplorers {
        Some(ng) => Some(
            PollerView { host: ng.host, chain_id: c.chain_id, validator_addr: c.validator_addr },
        ),
        None => None,
    }
}

impl Poller {
    /// Create a new NgExplorers poller for the given Tendermint network,
    /// if it has a NgExplorers configuration.
    pub fn new(config: &config::network::tendermint::Config) -> (r: Option<Poller>)
        ensures
            match r {
                Some(p) => spec_poller_of(config@) == Some(p@),
                None => spec_poller_of(config@) is None,
            },
    {
        match &config.ngexplorers {
            Some(ngexplorers_config) => Some(
                Poller {
                    host: ngexplorers_config.host.clone(),
                    chain_id: config.chain_id.clone(),
                    validator_addr: match &config.validator_addr {
                        Some(a) => Some(a.clone()),
                        None => None,
                    },
                },
            ),
            None => None,
        }
    }

    /// The path of the uptime endpoint for a validator address.
    pub fn uptime_path(addr: &str) -> (r: String)
        ensures
            r@ == "/api/blocks/uptime/"@ + addr@,
    {
        "/api/blocks/uptime/".to_owned().concat(addr)
    }

    /// The poll event one fetched uptime window yields.
    pub fn poll_event(&self, blocks: &Vec<Block>) -> (r: PollEvent)
        requires
            blocks@.len() <= u64::MAX,
        ensures
            r@.source == SOURCE_NAME@,
            r@.network_id == self.chain_id@,
            r@.missed_blocks matches Some(m) && m as int == spec_missed_count(blocks@),
            r@.current_height is None,
            r@.last_signed_height is None,
    {
        PollEvent {
            source: SOURCE_NAME.to_owned(),
            network_id: self.chain_id.clone(),
            current_height: None,
            missed_blocks: Some(count_missed(blocks)),
            last_signed_height: None,
        }
    }
}

} // verus!
