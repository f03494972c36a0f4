//! Networks that the collector is actively monitoring

pub mod tendermint;

mod id;
mod state;

pub use self::id::Id;
pub use self::state::{State, StateView};

use crate::collector::request::PollEvent;
use crate::message::Envelope;
use crate::metrics::{MetricRecord, Metrics};
use crate::network::tendermint::{spec_page_emits, NetworkView};
use vstd::prelude::*;

verus! {

/// View of a network.
pub enum NetworkKindView {
    /// Tendermint network
    Tendermint(NetworkView),
}

/// Types of networks.
#[derive(Debug)]
pub enum Network {
    /// Tendermint network
    Tendermint(Box<self::tendermint::Network>),
}

impl View for Network {
    type V = NetworkKindView;

    open spec fn view(&self) -> NetworkKindView {
        match self {
            Network::Tendermint(tm) => NetworkKindView::Tendermint(tm@),
        }
    }
}

impl DeepView for Network {
    type V = NetworkKindView;

    open spec fn deep_view(&self) -> NetworkKindView {
        self.view()
    }
}

/// The Tendermint view of a network.
pub open spec fn tm_view(n: NetworkKindView) -> NetworkView {
    match n {
        NetworkKindView::Tendermint(v) => v,
    }
}

impl Network {
    /// Initialize network states from the given configuration: one
    /// Tendermint network per configured section, each with a clone of the
    /// metrics translator and its configured page threshold (or the
    /// default).
    pub fn from_config(config: &crate::config::network::Config, metrics: &Metrics) -> (r: Vec<
        Network,
    >)
        ensures
            r@.len() == config.tendermint@.len(),
            forall|i: int|
                0 <= i < r@.len() ==> tm_view(#[trigger] r.deep_view()[i]).id
                    == config.tendermint@[i].chain_id@ && tm_view(r.deep_view()[i]).metrics
                    == metrics@ && tm_view(r.deep_view()[i]).nodes.len() == 0 && tm_view(
                    r.deep_view()[i],
                ).peers.len() == 0 && tm_view(r.deep_view()[i]).chain is None && tm_view(
                    r.deep_view()[i],
                ).validators is None && tm_view(r.deep_view()[i]).page.len() == 0 && tm_view(
                    r.deep_view()[i],
                ).last_paged_at is None && tm_view(r.deep_view()[i]).page_threshold == (
                match config.tendermint@[i].page_threshold {
                    Some(t) => t,
                    None => tendermint::DEFAULT_PAGE_THRESHOLD,
                }),
    {
        let mut networks: Vec<Network> = Vec::new();
        let n = config.tendermint.len();
        let mut i: usize = 0;
        while i < n
            invariant
                i <= n,
                n == config.tendermint@.len(),
                networks@.len() == i,
                forall|j: int|
                    0 <= j < i ==> tm_view(#[trigger] networks.deep_view()[j]).id
                        == config.tendermint@[j].chain_id@ && tm_view(
                        networks.deep_view()[j],
                    ).metrics == metrics@ && tm_view(networks.deep_view()[j]).nodes.len() == 0
                        && tm_view(networks.deep_view()[j]).peers.len() == 0 && tm_view(
                        networks.deep_view()[j],
                    ).chain is None && tm_view(networks.deep_view()[j]).validators is None
                        && tm_view(networks.deep_view()[j]).page.len() == 0 && tm_view(
                        networks.deep_view()[j],
                    ).last_paged_at is None && tm_view(
                        networks.deep_view()[j],
                    ).page_threshold == (match config.tendermint@[j].page_threshold {
                        Some(t) => t,
                        None => tendermint::DEFAULT_PAGE_THRESHOLD,
                    }),
            decreases n - i,
        {
            let tm_config = &config.tendermint[i];
            let threshold: u64 = match tm_config.page_threshold {
                Some(t) => t,
                None => tendermint::DEFAULT_PAGE_THRESHOLD,
            };
            let ghost prev = networks.deep_view();
            let net = Network::new_tendermint(
                tm_config.chain_id.clone(),
                metrics.clone_metrics(),
                threshold,
            );
            networks.push(net);
            proof {
                assert forall|j: int| 0 <= j < i implies #[trigger] networks.deep_view()[j]
                    == prev[j] by {
                    assert(networks@[j] == networks@[j]);
                }
                assert(networks.deep_view()[i as int] == networks@[i as int].deep_view());
            }
            i = i + 1;
        }
        networks
    }

    /// Create a Tendermint network.
    pub fn new_tendermint(chain_id: String, metrics: Metrics, page_threshold: u64) -> (r: Network)
        ensures
            tm_view(r@).id == chain_id@,
            tm_view(r@).metrics == metrics@,
            tm_view(r@).page_threshold == page_threshold,
            tm_view(r@).nodes.len() == 0,
            tm_view(r@).peers.len() == 0,
            tm_view(r@).chain is None,
            tm_view(r@).validators is None,
            tm_view(r@).page.len() == 0,
            tm_view(r@).last_paged_at is None,
    {
        Network::Tendermint(
            Box::new(self::tendermint::Network::new(chain_id, metrics, page_threshold)),
        )
    }

    /// Get a network's ID.
    pub fn id(&self) -> (r: Id)
        ensures
            r@ == tm_view(self@).id,
    {
        match self {
            Network::Tendermint(tm) => tm.id(),
        }
    }

    /// Handle an incoming status message from a monitor.
    pub fn handle_message(&mut self, envelope: &Envelope, now: u64) -> (r: Vec<MetricRecord>)
        ensures
            tm_view(final(self)@) == tendermint::spec_handle_message(
                tm_view(old(self)@),
                envelope@,
                now,
            ),
            r.deep_view() == tendermint::spec_handle_records(tm_view(old(self)@), envelope@),
            envelope@.network != tm_view(old(self)@).id ==> *final(self) == *old(self),
    {
        match self {
            Network::Tendermint(tm) => tm.handle_message(envelope, now),
        }
    }

    /// Handle an incoming poll event from an external poller.
    pub fn handle_poll_event(&mut self, poll_event: &PollEvent)
        ensures
            tm_view(final(self)@) == (NetworkView {
                page: tendermint::spec_missed_page(tm_view(old(self)@), poll_event@),
                ..tm_view(old(self)@)
            }),
    {
        match self {
            Network::Tendermint(tm) => tm.handle_poll_event(poll_event),
        }
    }

    /// Emit the most recent pending page, subject to the cooldown.
    pub fn get_pager_events(&mut self, now: u64) -> (r: Option<String>)
        requires
            tm_view(old(self)@).last_paged_at matches Some(l) ==> l <= now,
        ensures
            ({
                let v0 = tm_view(old(self)@);
                let emits = spec_page_emits(v0.page, v0.last_paged_at, now);
                &&& (r is Some) == emits
                &&& emits ==> (r matches Some(p) && p@ == v0.page.last() && tm_view(final(self)@)
                    == (NetworkView { page: v0.page.drop_last(), last_paged_at: Some(now), ..v0 }))
                &&& (!emits && v0.page.len() > 0) ==> tm_view(final(self)@) == (NetworkView {
                    page: v0.page.drop_last(),
                    ..v0
                })
                &&& v0.page.len() == 0 ==> tm_view(final(self)@) == v0
            }),
    {
        match self {
            Network::Tendermint(tm) => tm.get_page_event(now),
        }
    }

    /// Return a snapshot of the network state, its node entries in ID
    /// order.
    pub fn state(&self) -> (r: State)
        ensures
            r@ matches StateView::Tendermint(s) && s.nodes == tendermint::node_sort(
                tm_view(self@).nodes,
            ) && s.peers == tm_view(self@).peers && s.chain == tm_view(self@).chain
                && s.validators == tm_view(self@).validators,
    {
        match self {
            Network::Tendermint(tm) => State::Tendermint(tm.state()),
        }
    }
}

} // verus!
