//! Node status monitoring: the `/status` endpoint snapshot and its diff.

use crate::message::Message;
use vstd::prelude::*;

verus! {

/// View of a chain synchronization status.
pub struct ChainStatusView {
    /// Hash of the latest block
    pub latest_block_hash: Seq<char>,

    /// Hash of the latest application state
    pub latest_app_hash: Seq<char>,

    /// Height of the latest block
    pub latest_block_height: u64,

    /// Time of the latest block
    pub latest_block_time: Seq<char>,

    /// Whether the node is still catching up
    pub catching_up: bool,
}

/// Chain synchronization status for a node.
///
/// Equality — used by the monitor's change detection — is exactly equality
/// of the five fields below.
#[derive(Debug)]
pub struct ChainStatus {
    /// Hash of the latest block
    pub latest_block_hash: String,

    /// Hash of the latest application state
    pub latest_app_hash: String,

    /// Height of the latest block
    pub latest_block_height: u64,

    /// Time of the latest block
    pub latest_block_time: String,

    /// Whether the node is still catching up
    pub catching_up: bool,
}

impl View for ChainStatus {
    type V = ChainStatusView;

    open spec fn view(&self) -> ChainStatusView {
        ChainStatusView {
            latest_block_hash: self.latest_block_hash@,
            latest_app_hash: self.latest_app_hash@,
            latest_block_height: self.latest_block_height,
            latest_block_time: self.latest_block_time@,
            catching_up: self.catching_up,
        }
    }
}

impl DeepView for ChainStatus {
    type V = ChainStatusView;

    open spec fn deep_view(&self) -> ChainStatusView {
        self.view()
    }
}

impl PartialEq for ChainStatus {
    /// Equality on the five status fields.
    fn eq(&self, other: &Self) -> (r: bool) {
        self.latest_block_hash == other.latest_block_hash && self.latest_app_hash
            == other.latest_app_hash && self.latest_block_height == other.latest_block_height
            && self.latest_block_time == other.latest_block_time && self.catching_up
            == other.catching_up
    }
}

impl vstd::std_specs::cmp::PartialEqSpecImpl for ChainStatus {
    open spec fn obeys_eq_spec() -> bool {
        true
    }

    open spec fn eq_spec(&self, other: &Self) -> bool {
        self@ == other@
    }
}

impl Eq for ChainStatus {}

impl Clone for ChainStatus {
    /// A clone carries the same five fields.
    fn clone(&self) -> (r: Self)
        ensures
            r@ == self@,
    {
        ChainStatus {
            latest_block_hash: self.latest_block_hash.clone(),
            latest_app_hash: self.latest_app_hash.clone(),
            latest_block_height: self.latest_block_height,
            latest_block_time: self.latest_block_time.clone(),
            catching_up: self.catching_up,
        }
    }
}

/// View of node information.
pub struct NodeInfoView {
    /// Node ID
    pub id: Seq<char>,

    /// Node moniker
    pub moniker: Seq<char>,

    /// Listen address
    pub listen_addr: Seq<char>,

    /// Network (chain) the node is on
    pub network: Seq<char>,

    /// Node software version
    pub version: Seq<char>,
}

/// Information about a node, as the `/status` endpoint reports it.
#[derive(Debug)]
pub struct NodeInfo {
    /// Node ID
    pub id: String,

    /// Node moniker
    pub moniker: String,

    /// Listen address
    pub listen_addr: String,

    /// Network (chain) the node is on
    pub network: String,

    /// Node software version
    pub version: String,
}

impl View for NodeInfo {
    type V = NodeInfoView;

    open spec fn view(&self) -> NodeInfoView {
        NodeInfoView {
            id: self.id@,
            moniker: self.moniker@,
            listen_addr: self.listen_addr@,
            network: self.network@,
            version: self.version@,
        }
    }
}

impl DeepView for NodeInfo {
    type V = NodeInfoView;

    open spec fn deep_view(&self) -> NodeInfoView {
        self.view()
    }
}

impl PartialEq for NodeInfo {
    /// Structural equality.
    fn eq(&self, other: &Self) -> (r: bool) {
        self.id == other.id && self.moniker == other.moniker && self.listen_addr
            == other.listen_addr && self.network == other.network && self.version == other.version
    }
}

impl vstd::std_specs::cmp::PartialEqSpecImpl for NodeInfo {
    open spec fn obeys_eq_spec() -> bool {
        true
    }

    open spec fn eq_spec(&self, other: &Self) -> bool {
        self@ == other@
    }
}

impl Eq for NodeInfo {}

impl Clone for NodeInfo {
    /// A clone carries the same fields.
    fn clone(&self) -> (r: Self)
        ensures
            r@ == self@,
    {
        NodeInfo {
            id: self.id.clone(),
            moniker: self.moniker.clone(),
            listen_addr: self.listen_addr.clone(),
            network: self.network.clone(),
            version: self.version.clone(),
        }
    }
}

/// View of validator information.
pub struct ValidatorInfoView {
    /// Validator address
    pub address: Seq<char>,

    /// Voting power
    pub voting_power: u64,

    /// Proposer priority
    pub proposer_priority: i64,
}

/// Information about a validator, as the `/status` endpoint reports it.
#[derive(Debug)]
pub struct ValidatorInfo {
    /// Validator address
    pub address: String,

    /// Voting power
    pub voting_power: u64,

    /// Proposer priority
    pub proposer_priority: i64,
}

impl View for ValidatorInfo {
    type V = ValidatorInfoView;

    open spec fn view(&self) -> ValidatorInfoView {
        ValidatorInfoView {
            address: self.address@,
            voting_power: self.voting_power,
            proposer_priority: self.proposer_priority,
        }
    }
}

impl DeepView for ValidatorInfo {
    type V = ValidatorInfoView;

    open spec fn deep_view(&self) -> ValidatorInfoView {
        self.view()
    }
}

impl PartialEq for ValidatorInfo {
    /// Structural equality.
    fn eq(&self, other: &Self) -> (r: bool) {
        self.address == other.address && self.voting_power == other.voting_power
            && self.proposer_priority == other.proposer_priority
    }
}

impl vstd::std_specs::cmp::PartialEqSpecImpl for ValidatorInfo {
    open spec fn obeys_eq_spec() -> bool {
        true
    }

    open spec fn eq_spec(&self, other: &Self) -> bool {
        self@ == other@
    }
}

impl Eq for ValidatorInfo {}

impl Clone for ValidatorInfo {
    /// A clone carries the same fields.
    fn clone(&self) -> (r: Self)
        ensures
            r@ == self@,
    {
        ValidatorInfo {
            address: self.address.clone(),
            voting_power: self.voting_power,
            proposer_priority: self.proposer_priority,
        }
    }
}

/// Equality of chain status is reflexive: a status never differs from
/// itself, so an unchanged chain produces no diff message.
pub proof fn lemma_chain_status_eq_reflexive(a: ChainStatusView)
    ensures
        a == a,
{
}

/// Equality of chain status is symmetric and transitive on the five fields:
/// together with reflexivity it is total on them, and two statuses are
/// equal exactly when all five fields agree.
pub proof fn lemma_chain_status_eq_total(a: ChainStatusView, b: ChainStatusView)
    ensures
        (a == b) <==> (a.latest_block_hash == b.latest_block_hash && a.latest_app_hash
            == b.latest_app_hash && a.latest_block_height == b.latest_block_height
            && a.latest_block_time == b.latest_block_time && a.catching_up == b.catching_up),
        (a == b) ==> (b == a),
{
}

/// View of a `/status` snapshot.
pub struct StatusView {
    /// Chain status
    pub chain: ChainStatusView,

    /// Node information
    pub node: NodeInfoView,

    /// Validator information
    pub validator: ValidatorInfoView,
}

/// Node status monitor: the last snapshot of the `/status` RPC endpoint.
#[derive(Debug)]
pub struct Status {
    /// Last chain status
    pub chain: ChainStatus,

    /// Last node status
    pub node: NodeInfo,

    /// Last validator status
    pub validator: ValidatorInfo,
}

impl View for Status {
    type V = StatusView;

    open spec fn view(&self) -> StatusView {
        StatusView { chain: self.chain@, node: self.node@, validator: self.validator@ }
    }
}

/// The messages one `/status` diff produces: chain, node and validator, in
/// this order, each present exactly when it changed or a full report is due.
pub open spec fn spec_status_messages(
    prev: StatusView,
    next: StatusView,
    force: bool,
) -> Seq<crate::message::MessageView> {
    let chain: Seq<crate::message::MessageView> = if next.chain != prev.chain || force {
        seq![crate::message::MessageView::Chain(next.chain)]
    } else {
        Seq::empty()
    };
    let node: Seq<crate::message::MessageView> = if next.node != prev.node || force {
        seq![crate::message::MessageView::Node(next.node)]
    } else {
        Seq::empty()
    };
    let validator: Seq<crate::message::MessageView> = if next.validator != prev.validator
        || force {
        seq![crate::message::MessageView::Validator(next.validator)]
    } else {
        Seq::empty()
    };
    chain + node + validator
}

impl Status {
    /// Create a `/status` monitor primed with a first snapshot.
    pub fn new(chain: ChainStatus, node: NodeInfo, validator: ValidatorInfo) -> (r: Status)
        ensures
            r@.chain == chain@,
            r@.node == node@,
            r@.validator == validator@,
    {
        Status { chain, node, validator }
    }

    /// Absorb a freshly fetched snapshot, returning a message for each
    /// component that changed — or for all of them when `force` is set.
    ///
    /// A component equal to the previous snapshot produces no message
    /// unless a full report is forced.
    pub fn update(&mut self, next: &Status, force: bool) -> (r: Vec<Message>)
        ensures
            final(self)@ == next@,
            r.deep_view() == spec_status_messages(old(self)@, next@, force),
    {
        let mut output: Vec<Message> = Vec::new();
        let ghost prev = self@;
        if !(next.chain == self.chain) || force {
            self.chain = next.chain.clone();
            output.push(Message::Chain(Box::new(next.chain.clone())));
        }
        if !(next.node == self.node) || force {
            self.node = next.node.clone();
            output.push(Message::Node(Box::new(next.node.clone())));
        }
        if !(next.validator == self.validator) || force {
            self.validator = next.validator.clone();
            output.push(Message::Validator(Box::new(next.validator.clone())));
        }
        proof {
            assert(output.deep_view() =~= spec_status_messages(prev, next@, force));
        }
        output
    }
}

} // verus!
