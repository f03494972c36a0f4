//! Tendermint network state.
//!
//! One value of [`Network`] holds everything the collector knows about one
//! chain: the nodes seen so far, the last peer list, chain and validator
//! status, and the pageable conditions waiting for the pager. Envelopes
//! mutate it message by message; poll events append pages; the pager
//! drains pages under a per-network cooldown.

use crate::collector::request::{spec_missed_blocks, PollEvent};
use crate::message::{Envelope, EnvelopeView, Message, MessageView};
use crate::metrics::{spec_event_record, MetricRecord, MetricRecordView, Metrics, MetricsView};
use crate::monitor::net_info::{clone_peers, Peer, PeerView};
use crate::monitor::status::{ChainStatus, ChainStatusView, ValidatorInfo, ValidatorInfoView};
use crate::text::{lemma_str_le_total, lemma_str_le_trans, spec_decimal, spec_str_le, str_le, u64_to_string};
use vstd::prelude::*;

verus! {

/// The per-network cooldown between two page emissions, in milliseconds.
pub const PAGE_INTERVAL_MS: u64 = 600000;

/// The default number of missed blocks above which a page is raised.
pub const DEFAULT_PAGE_THRESHOLD: u64 = 10;

/// View of a node entry.
pub struct NodeView {
    /// Node ID
    pub id: Seq<char>,

    /// Node moniker
    pub moniker: Seq<char>,

    /// When the node was first observed, caller's clock in milliseconds
    pub first_seen: u64,

    /// When the node was last observed, caller's clock in milliseconds
    pub last_seen: u64,
}

/// A node of a Tendermint network, as observed through envelopes.
#[derive(Debug)]
pub struct Node {
    /// Node ID
    pub id: String,

    /// Node moniker
    pub moniker: String,

    /// When the node was first observed, caller's clock in milliseconds
    pub first_seen: u64,

    /// When the node was last observed, caller's clock in milliseconds
    pub last_seen: u64,
}

impl View for Node {
    type V = NodeView;

    open spec fn view(&self) -> NodeView {
        NodeView {
            id: self.id@,
            moniker: self.moniker@,
            first_seen: self.first_seen,
            last_seen: self.last_seen,
        }
    }
}

impl DeepView for Node {
    type V = NodeView;

    open spec fn deep_view(&self) -> NodeView {
        self.view()
    }
}

impl Clone for Node {
    /// A clone denotes the same node entry.
    fn clone(&self) -> (r: Self)
        ensures
            r@ == self@,
    {
        Node {
            id: self.id.clone(),
            moniker: self.moniker.clone(),
            first_seen: self.first_seen,
            last_seen: self.last_seen,
        }
    }
}

/// Index of the first node entry with the given ID, if any.
pub open spec fn node_index(nodes: Seq<NodeView>, id: Seq<char>) -> Option<int>
    decreases nodes.len(),
{
    if nodes.len() == 0 {
        None
    } else if nodes[0].id == id {
        Some(0int)
    } else {
        match node_index(nodes.skip(1), id) {
            Some(j) => Some(j + 1),
            None => None,
        }
    }
}

/// Upsert by node ID: a known node keeps its `first_seen` and advances its
/// moniker and `last_seen`; an unknown node enters with both stamps at
/// `now`. `last_seen` never decreases.
pub open spec fn spec_update_node(nodes: Seq<NodeView>, id: Seq<char>, moniker: Seq<char>, now: u64) -> Seq<
    NodeView,
> {
    match node_index(nodes, id) {
        Some(j) => nodes.update(
            j,
            NodeView {
                moniker: moniker,
                last_seen: if nodes[j].last_seen >= now {
                    nodes[j].last_seen
                } else {
                    now
                },
                ..nodes[j]
            },
        ),
        None => nodes.push(NodeView { id: id, moniker: moniker, first_seen: now, last_seen: now }),
    }
}

/// A sighting of a node (any envelope it sent) only advances `last_seen`.
pub open spec fn spec_touch_node(nodes: Seq<NodeView>, id: Seq<char>, now: u64) -> Seq<NodeView> {
    match node_index(nodes, id) {
        Some(j) => nodes.update(
            j,
            NodeView {
                last_seen: if nodes[j].last_seen >= now {
                    nodes[j].last_seen
                } else {
                    now
                },
                ..nodes[j]
            },
        ),
        None => nodes,
    }
}

/// The part of the network state that envelope messages touch.
pub struct NetDataView {
    /// Node entries
    pub nodes: Seq<NodeView>,

    /// Last reported peer list
    pub peers: Seq<PeerView>,

    /// Last chain status
    pub chain: Option<ChainStatusView>,

    /// Last validator info
    pub validators: Option<ValidatorInfoView>,
}

/// One message applied to the data: node messages upsert, peers and
/// status messages replace, IBC events leave the data alone.
pub open spec fn spec_apply_message(d: NetDataView, msg: MessageView, now: u64) -> NetDataView {
    match msg {
        MessageView::Chain(c) => NetDataView { chain: Some(c), ..d },
        MessageView::Node(n) => NetDataView {
            nodes: spec_update_node(d.nodes, n.id, n.moniker, now),
            ..d
        },
        MessageView::Validator(v) => NetDataView { validators: Some(v), ..d },
        MessageView::Peers(ps) => NetDataView { peers: ps, ..d },
        MessageView::EventIBC(_) => d,
    }
}

/// The messages of one envelope applied in order.
pub open spec fn spec_apply_messages(d: NetDataView, msgs: Seq<MessageView>, now: u64) -> NetDataView
    decreases msgs.len(),
{
    if msgs.len() == 0 {
        d
    } else {
        spec_apply_messages(spec_apply_message(d, msgs[0], now), msgs.skip(1), now)
    }
}

/// The metric records the envelope's messages produce: one per IBC event,
/// in message order.
pub open spec fn spec_message_records(
    m: MetricsView,
    chain_id: Seq<char>,
    msgs: Seq<MessageView>,
) -> Seq<MetricRecordView>
    decreases msgs.len(),
{
    if msgs.len() == 0 {
        Seq::empty()
    } else {
        (match msgs[0] {
            MessageView::EventIBC(e) => seq![spec_event_record(m, chain_id, e)],
            _ => Seq::empty(),
        }) + spec_message_records(m, chain_id, msgs.skip(1))
    }
}

/// A chain status equal to the one held never mutates it: when every
/// chain message an envelope carries equals the chain already held —
/// equality on the five status fields — the held chain value is exactly
/// what it was, whatever other messages ride along. (The sending node's
/// last-seen stamp still advances, and the heartbeat is still emitted, by
/// the handling contract.)
pub proof fn lemma_equal_chain_not_mutated(d: NetDataView, msgs: Seq<MessageView>, now: u64)
    requires
        forall|i: int|
            0 <= i < msgs.len() ==> (#[trigger] msgs[i] matches MessageView::Chain(c) ==> d.chain
                == Some(c)),
    ensures
        spec_apply_messages(d, msgs, now).chain == d.chain,
    decreases msgs.len(),
{
    if msgs.len() > 0 {
        let d1 = spec_apply_message(d, msgs[0], now);
        assert(d1.chain == d.chain);
        assert forall|i: int|
            0 <= i < msgs.skip(1).len() implies (#[trigger] msgs.skip(1)[i] matches
        MessageView::Chain(c) ==> d1.chain == Some(c)) by {
            assert(msgs.skip(1)[i] == msgs[i + 1]);
        }
        lemma_equal_chain_not_mutated(d1, msgs.skip(1), now);
    }
}

/// The text of a page about missed blocks.
pub open spec fn spec_page_text(network_id: Seq<char>, missed: u64) -> Seq<char> {
    "'"@ + network_id + "' missed "@ + spec_decimal(missed as int) + " blocks!"@
}

/// A page is emitted when one is pending and the cooldown has passed.
pub open spec fn spec_page_emits(page: Seq<Seq<char>>, last: Option<u64>, now: u64) -> bool {
    page.len() > 0 && (last matches Some(l) ==> now - l >= PAGE_INTERVAL_MS)
}

/// The pending pages after one poll event: a page is appended exactly when
/// the event carries a missed-block count above the threshold.
pub open spec fn spec_missed_page(
    v: NetworkView,
    pe: crate::collector::request::PollEventView,
) -> Seq<Seq<char>> {
    match spec_missed_blocks(pe) {
        Some(m) => if m > v.page_threshold {
            v.page.push(spec_page_text(pe.network_id, m))
        } else {
            v.page
        },
        None => v.page,
    }
}

/// View of a Tendermint network state.
pub struct NetworkView {
    /// Chain ID
    pub id: Seq<char>,

    /// Node entries
    pub nodes: Seq<NodeView>,

    /// Last reported peer list
    pub peers: Seq<PeerView>,

    /// Last chain status
    pub chain: Option<ChainStatusView>,

    /// Last validator info
    pub validators: Option<ValidatorInfoView>,

    /// Pending page messages
    pub page: Seq<Seq<char>>,

    /// When a page was last emitted, caller's clock in milliseconds
    pub last_paged_at: Option<u64>,

    /// Missed-block count above which a page is raised
    pub page_threshold: u64,

    /// The metrics translator for this network
    pub metrics: MetricsView,
}

/// Tendermint network state.
#[derive(Debug)]
pub struct Network {
    /// Chain ID for this network
    pub id: String,

    /// Nodes in this network
    pub nodes: Vec<Node>,

    /// Network peers
    pub peers: Vec<Peer>,

    /// Chain status (if known)
    pub chain: Option<ChainStatus>,

    /// Validators
    pub validators: Option<ValidatorInfo>,

    /// Pending page events
    pub page: Vec<String>,

    /// Last time a page event was emitted
    pub last_paged_at: Option<u64>,

    /// Missed-block count above which a page is raised
    pub page_threshold: u64,

    /// Metrics translator for this network
    pub metrics: Metrics,
}

impl View for Network {
    type V = NetworkView;

    open spec fn view(&self) -> NetworkView {
        NetworkView {
            id: self.id@,
            nodes: self.nodes.deep_view(),
            peers: self.peers.deep_view(),
            chain: match self.chain {
                Some(c) => Some(c@),
                None => None,
            },
            validators: match self.validators {
                Some(v) => Some(v@),
                None => None,
            },
            page: self.page.deep_view(),
            last_paged_at: self.last_paged_at,
            page_threshold: self.page_threshold,
            metrics: self.metrics@,
        }
    }
}

/// The data part of a network view.
pub open spec fn net_data(v: NetworkView) -> NetDataView {
    NetDataView { nodes: v.nodes, peers: v.peers, chain: v.chain, validators: v.validators }
}

/// The state an envelope leaves a network in: untouched when addressed
/// elsewhere; otherwise every message applied in order and the sending
/// node's `last_seen` advanced.
pub open spec fn spec_handle_message(v: NetworkView, env: EnvelopeView, now: u64) -> NetworkView {
    if env.network != v.id {
        v
    } else {
        let d = spec_apply_messages(net_data(v), env.msg, now);
        NetworkView {
            nodes: spec_touch_node(d.nodes, env.node, now),
            peers: d.peers,
            chain: d.chain,
            validators: d.validators,
            ..v
        }
    }
}

/// The metric records an envelope produces: nothing when addressed
/// elsewhere; otherwise one record per IBC event followed by the
/// heartbeat.
pub open spec fn spec_handle_records(v: NetworkView, env: EnvelopeView) -> Seq<MetricRecordView> {
    if env.network != v.id {
        Seq::empty()
    } else {
        spec_message_records(v.metrics, v.id, env.msg) + seq![
            (MetricRecordView { name: v.metrics.prefix + ".heartbeat"@, tags: Seq::empty() }),
        ]
    }
}

impl Network {
    /// Create new Tendermint network state.
    pub fn new(id: String, metrics: Metrics, page_threshold: u64) -> (r: Network)
        ensures
            r@.id == id@,
            r@.nodes =~= Seq::<NodeView>::empty(),
            r@.peers =~= Seq::<PeerView>::empty(),
            r@.chain is None,
            r@.validators is None,
            r@.page =~= Seq::<Seq<char>>::empty(),
            r@.last_paged_at is None,
            r@.page_threshold == page_threshold,
            r@.metrics == metrics@,
    {
        Network {
            id,
            nodes: Vec::new(),
            peers: Vec::new(),
            chain: None,
            validators: None,
            page: Vec::new(),
            last_paged_at: None,
            page_threshold,
            metrics,
        }
    }

    /// Get this network's ID.
    pub fn id(&self) -> (r: super::Id)
        ensures
            r@ == self@.id,
    {
        super::Id::new(self.id.clone())
    }

    /// A read-only snapshot of this network's state, its node entries in
    /// ID order.
    pub fn state(&self) -> (r: State)
        ensures
            r@.nodes == node_sort(self@.nodes),
            r@.peers == self@.peers,
            r@.chain == self@.chain,
            r@.validators == self@.validators,
    {
        State::new(self)
    }

    /// Update the entry of one node, or insert it.
    fn update_node(&mut self, id: &String, moniker: &String, now: u64)
        ensures
            final(self)@ == (NetworkView {
                nodes: spec_update_node(old(self)@.nodes, id@, moniker@, now),
                ..old(self)@
            }),
    {
        let n = self.nodes.len();
        let mut i: usize = 0;
        proof {
            assert(self@.nodes.skip(0) =~= self@.nodes);
        }
        while i < n
            invariant
                i <= n,
                n == self.nodes@.len(),
                self@ == old(self)@,
                (match node_index(self@.nodes.skip(i as int), id@) {
                    Some(j) => node_index(self@.nodes, id@) == Some(j + i),
                    None => node_index(self@.nodes, id@) is None,
                }),
                forall|j: int| 0 <= j < i ==> (#[trigger] self@.nodes[j]).id != id@,
            decreases n - i,
        {
            proof {
                assert(self@.nodes.skip(i as int)[0] == self@.nodes[i as int]);
                assert(self@.nodes.skip(i as int).skip(1) =~= self@.nodes.skip(i as int + 1));
            }
            if crate::text::str_eq(self.nodes[i].id.as_str(), id.as_str()) {
                let entry = &self.nodes[i];
                let last: u64 = if entry.last_seen >= now {
                    entry.last_seen
                } else {
                    now
                };
                let updated = Node {
                    id: entry.id.clone(),
                    moniker: moniker.clone(),
                    first_seen: entry.first_seen,
                    last_seen: last,
                };
                self.nodes.set(i, updated);
                proof {
                    assert(self@.nodes =~= spec_update_node(
                        old(self)@.nodes,
                        id@,
                        moniker@,
                        now,
                    ));
                    assert(self@ == (NetworkView {
                        nodes: spec_update_node(old(self)@.nodes, id@, moniker@, now),
                        ..old(self)@
                    }));
                }
                return ;
            }
            i = i + 1;
        }
        proof {
            assert(self@.nodes.skip(n as int) =~= Seq::<NodeView>::empty());
        }
        self.nodes.push(
            Node { id: id.clone(), moniker: moniker.clone(), first_seen: now, last_seen: now },
        );
        proof {
            assert(self@.nodes =~= spec_update_node(old(self)@.nodes, id@, moniker@, now));
            assert(self@ == (NetworkView {
                nodes: spec_update_node(old(self)@.nodes, id@, moniker@, now),
                ..old(self)@
            }));
        }
    }

    /// Advance the `last_seen` stamp of a known node.
    fn touch_node(&mut self, id: &String, now: u64)
        ensures
            final(self)@ == (NetworkView {
                nodes: spec_touch_node(old(self)@.nodes, id@, now),
                ..old(self)@
            }),
    {
        let n = self.nodes.len();
        let mut i: usize = 0;
        proof {
            assert(self@.nodes.skip(0) =~= self@.nodes);
        }
        while i < n
            invariant
                i <= n,
                n == self.nodes@.len(),
                self@ == old(self)@,
                (match node_index(self@.nodes.skip(i as int), id@) {
                    Some(j) => node_index(self@.nodes, id@) == Some(j + i),
                    None => node_index(self@.nodes, id@) is None,
                }),
            decreases n - i,
        {
            proof {
                assert(self@.nodes.skip(i as int)[0] == self@.nodes[i as int]);
                assert(self@.nodes.skip(i as int).skip(1) =~= self@.nodes.skip(i as int + 1));
            }
            if crate::text::str_eq(self.nodes[i].id.as_str(), id.as_str()) {
                let entry = &self.nodes[i];
                let last: u64 = if entry.last_seen >= now {
                    entry.last_seen
                } else {
                    now
                };
                let updated = Node {
                    id: entry.id.clone(),
                    moniker: entry.moniker.clone(),
                    first_seen: entry.first_seen,
                    last_seen: last,
                };
                self.nodes.set(i, updated);
                proof {
                    assert(self@.nodes =~= spec_touch_node(old(self)@.nodes, id@, now));
                    assert(self@ == (NetworkView {
                        nodes: spec_touch_node(old(self)@.nodes, id@, now),
                        ..old(self)@
                    }));
                }
                return ;
            }
            i = i + 1;
        }
        proof {
            assert(self@.nodes.skip(n as int) =~= Seq::<NodeView>::empty());
            assert(self@.nodes =~= spec_touch_node(old(self)@.nodes, id@, now));
        }
    }

    /// Update internal state from an incoming envelope, message by message,
    /// and return the metric records to emit: one per IBC event, then the
    /// heartbeat.
    ///
    /// An envelope addressed to another network leaves the state untouched
    /// and produces no records. A matching envelope also advances the
    /// sending node's `last_seen` stamp.
    pub fn handle_message(&mut self, envelope: &Envelope, now: u64) -> (r: Vec<MetricRecord>)
        ensures
            final(self)@ == spec_handle_message(old(self)@, envelope@, now),
            r.deep_view() == spec_handle_records(old(self)@, envelope@),
            envelope@.network != old(self)@.id ==> *final(self) == *old(self),
    {
        if !crate::text::str_eq(envelope.network.as_str(), self.id.as_str()) {
            return Vec::new();
        }
        let ghost d0 = net_data(self@);
        let ghost gmsgs = envelope@.msg;
        let ghost gmetrics = self@.metrics;
        let ghost gid = self@.id;
        let mut records: Vec<MetricRecord> = Vec::new();
        let n = envelope.msg.len();
        let mut i: usize = 0;
        proof {
            assert(gmsgs.skip(0) =~= gmsgs);
            assert(gmsgs.len() == n);
        }
        while i < n
            invariant
                i <= n,
                n == envelope.msg@.len(),
                gmsgs == envelope@.msg,
                gmsgs.len() == n,
                gmetrics == self@.metrics,
                gid == self@.id,
                self@.id == old(self)@.id,
                self@.page == old(self)@.page,
                self@.last_paged_at == old(self)@.last_paged_at,
                self@.page_threshold == old(self)@.page_threshold,
                self@.metrics == old(self)@.metrics,
                spec_apply_messages(d0, gmsgs, now) == spec_apply_messages(
                    net_data(self@),
                    gmsgs.skip(i as int),
                    now,
                ),
                spec_message_records(gmetrics, gid, gmsgs) =~= records.deep_view()
                    + spec_message_records(gmetrics, gid, gmsgs.skip(i as int)),
            decreases n - i,
        {
            proof {
                assert(gmsgs.skip(i as int)[0] == gmsgs[i as int]);
                assert(gmsgs.skip(i as int).skip(1) =~= gmsgs.skip(i as int + 1));
                assert(envelope.msg@[i as int].deep_view() == gmsgs[i as int]);
            }
            let ghost before = net_data(self@);
            let ghost recs_before = records.deep_view();
            match &envelope.msg[i] {
                Message::Node(info) => {
                    self.update_node(&info.id, &info.moniker, now);
                },
                Message::Peers(peer_info) => {
                    self.peers = clone_peers(peer_info);
                },
                Message::Chain(chain_info) => {
                    let replace: bool = match &self.chain {
                        Some(current) => !(current == &**chain_info),
                        None => true,
                    };
                    if replace {
                        self.chain = Some((**chain_info).clone());
                    }
                    proof {
                        assert(net_data(self@).chain =~= Some(gmsgs[i as int]->Chain_0));
                    }
                },
                Message::Validator(validator_info) => {
                    self.validators = Some((**validator_info).clone());
                },
                Message::EventIBC(event) => {
                    let record = self.metrics.event_record(self.id.as_str(), event);
                    records.push(record);
                },
            }
            proof {
                assert(net_data(self@) =~= spec_apply_message(before, gmsgs[i as int], now));
                assert(records.deep_view() =~= recs_before + (match gmsgs[i as int] {
                    MessageView::EventIBC(e) => seq![spec_event_record(gmetrics, gid, e)],
                    _ => Seq::<MetricRecordView>::empty(),
                }));
            }
            i = i + 1;
        }
        proof {
            assert(gmsgs.skip(n as int) =~= Seq::<MessageView>::empty());
        }
        self.touch_node(&envelope.node, now);
        let heartbeat = self.metrics.heartbeat();
        records.push(heartbeat);
        proof {
            assert(records.deep_view() =~= spec_message_records(gmetrics, gid, gmsgs) + seq![
                MetricRecordView {
                    name: gmetrics.prefix + ".heartbeat"@,
                    tags: Seq::<(Seq<char>, Seq<char>)>::empty(),
                },
            ]);
        }
        records
    }

    /// Handle an incoming poll event: when it shows more missed blocks
    /// than the threshold allows, append a page about it.
    ///
    /// A poll event with no usable missed-block information is ignored;
    /// nothing here panics on network data.
    pub fn handle_poll_event(&mut self, poll_event: &PollEvent)
        ensures
            final(self)@ == (NetworkView {
                page: spec_missed_page(old(self)@, poll_event@),
                ..old(self)@
            }),
    {
        let missed: Option<u64> = match poll_event.missed_blocks {
            Some(m) => Some(m),
            None => {
                match (poll_event.current_height, poll_event.last_signed_height) {
                    (Some(c), Some(l)) => if c >= l {
                        Some(c - l)
                    } else {
                        Some(0)
                    },
                    _ => None,
                }
            },
        };
        match missed {
            Some(m) => {
                if m > self.page_threshold {
                    let text = String::new().concat("'").concat(
                        poll_event.network_id.as_str(),
                    ).concat("' missed ").concat(u64_to_string(m).as_str()).concat(" blocks!");
                    proof {
                        assert(text@ =~= spec_page_text(poll_event@.network_id, m));
                    }
                    self.page.push(text);
                    proof {
                        assert(self@.page =~= old(self)@.page.push(
                            spec_page_text(poll_event@.network_id, m),
                        ));
                        assert(self@ == (NetworkView {
                            page: old(self)@.page.push(spec_page_text(poll_event@.network_id, m)),
                            ..old(self)@
                        }));
                    }
                }
            },
            None => {
            },
        }
    }

    /// Emit the most recent pending page, subject to the per-network
    /// cooldown: within `PAGE_INTERVAL_MS` of the last emission nothing is
    /// emitted (the popped page is discarded, as the suppression window
    /// makes it stale).
    pub fn get_page_event(&mut self, now: u64) -> (r: Option<String>)
        requires
            old(self)@.last_paged_at matches Some(l) ==> l <= now,
        ensures
            ({
                let emits = spec_page_emits(old(self)@.page, old(self)@.last_paged_at, now);
                &&& (r is Some) == emits
                &&& emits ==> (r matches Some(p) && p@ == old(self)@.page.last() && final(self)@
                    == (NetworkView {
                    page: old(self)@.page.drop_last(),
                    last_paged_at: Some(now),
                    ..old(self)@
                }))
                &&& (!emits && old(self)@.page.len() > 0) ==> final(self)@ == (NetworkView {
                    page: old(self)@.page.drop_last(),
                    ..old(self)@
                })
                &&& old(self)@.page.len() == 0 ==> final(self)@ == old(self)@
            }),
    {
        let popped = self.page.pop();
        proof {
            if old(self)@.page.len() > 0 {
                assert(self@.page =~= old(self)@.page.drop_last());
            } else {
                assert(self@.page =~= old(self)@.page);
                assert(self@ == old(self)@);
            }
        }
        match popped {
            Some(page) => {
                proof {
                    assert(page@ == old(self)@.page.last());
                }
                match self.last_paged_at {
                    Some(last) => {
                        if now - last < PAGE_INTERVAL_MS {
                            return None;
                        }
                        self.last_paged_at = Some(now);
                        Some(page)
                    },
                    None => {
                        self.last_paged_at = Some(now);
                        Some(page)
                    },
                }
            },
            None => None,
        }
    }
}

/// Every node entry was first seen no later than it was last seen.
pub open spec fn nodes_wf(nodes: Seq<NodeView>) -> bool {
    forall|i: int|
        0 <= i < nodes.len() ==> (#[trigger] nodes[i]).first_seen <= nodes[i].last_seen
}

/// One entry list refines another: no entry is dropped, none changes its
/// identity or first-seen stamp, and no last-seen stamp decreases.
pub open spec fn nodes_refine(before: Seq<NodeView>, after: Seq<NodeView>) -> bool {
    after.len() >= before.len() && forall|i: int|
        0 <= i < before.len() ==> (#[trigger] after[i]).id == before[i].id
            && after[i].first_seen == before[i].first_seen && after[i].last_seen
            >= before[i].last_seen
}

/// A found node index is in range.
proof fn lemma_node_index_range(nodes: Seq<NodeView>, id: Seq<char>)
    ensures
        node_index(nodes, id) matches Some(j) ==> 0 <= j < nodes.len(),
    decreases nodes.len(),
{
    if nodes.len() > 0 && nodes[0].id != id {
        lemma_node_index_range(nodes.skip(1), id);
    }
}

/// An upsert refines the entry list and keeps it well-formed.
proof fn lemma_update_node_refines(nodes: Seq<NodeView>, id: Seq<char>, moniker: Seq<char>, now: u64)
    requires
        nodes_wf(nodes),
    ensures
        nodes_refine(nodes, spec_update_node(nodes, id, moniker, now)),
        nodes_wf(spec_update_node(nodes, id, moniker, now)),
{
    lemma_node_index_range(nodes, id);
}

/// A sighting refines the entry list and keeps it well-formed.
proof fn lemma_touch_node_refines(nodes: Seq<NodeView>, id: Seq<char>, now: u64)
    requires
        nodes_wf(nodes),
    ensures
        nodes_refine(nodes, spec_touch_node(nodes, id, now)),
        nodes_wf(spec_touch_node(nodes, id, now)),
{
    lemma_node_index_range(nodes, id);
}

/// Applying any messages refines the entry list and keeps it well-formed.
proof fn lemma_apply_messages_refines(d: NetDataView, msgs: Seq<MessageView>, now: u64)
    requires
        nodes_wf(d.nodes),
    ensures
        nodes_refine(d.nodes, spec_apply_messages(d, msgs, now).nodes),
        nodes_wf(spec_apply_messages(d, msgs, now).nodes),
    decreases msgs.len(),
{
    if msgs.len() > 0 {
        let d1 = spec_apply_message(d, msgs[0], now);
        match msgs[0] {
            MessageView::Node(n) => {
                lemma_update_node_refines(d.nodes, n.id, n.moniker, now);
            },
            _ => {
            },
        }
        lemma_apply_messages_refines(d1, msgs.skip(1), now);
    }
}

/// Node book-keeping: handling an envelope never evicts a node entry,
/// never changes an entry's identity or first-seen stamp, and never
/// decreases a last-seen stamp; and each entry keeps
/// `first_seen <= last_seen` throughout.
pub proof fn lemma_node_stamps_monotone(v: NetworkView, env: EnvelopeView, now: u64)
    requires
        nodes_wf(v.nodes),
    ensures
        nodes_wf(spec_handle_message(v, env, now).nodes),
        nodes_refine(v.nodes, spec_handle_message(v, env, now).nodes),
{
    if env.network == v.id {
        let d = spec_apply_messages(net_data(v), env.msg, now);
        lemma_apply_messages_refines(net_data(v), env.msg, now);
        lemma_touch_node_refines(d.nodes, env.node, now);
    }
}

/// Pager suppression: when one page is emitted at `t1` and a later attempt
/// at `t2` emits again, at least the cooldown interval lies between them.
pub proof fn lemma_page_suppression(
    page1: Seq<Seq<char>>,
    last1: Option<u64>,
    t1: u64,
    page2: Seq<Seq<char>>,
    t2: u64,
)
    requires
        spec_page_emits(page1, last1, t1),
        spec_page_emits(page2, Some(t1), t2),
        t1 <= t2,
    ensures
        t2 - t1 >= PAGE_INTERVAL_MS,
{
}

/// View of a network state snapshot.
pub struct StateView {
    /// Node entries
    pub nodes: Seq<NodeView>,

    /// Peer list
    pub peers: Seq<PeerView>,

    /// Chain status
    pub chain: Option<ChainStatusView>,

    /// Validator info
    pub validators: Option<ValidatorInfoView>,
}

/// Snapshot of current Tendermint network state.
#[derive(Debug)]
pub struct State {
    /// Node entries
    pub nodes: Vec<Node>,

    /// Peer list
    pub peers: Vec<Peer>,

    /// Chain status
    pub chain: Option<ChainStatus>,

    /// Validator info
    pub validators: Option<ValidatorInfo>,
}

impl View for State {
    type V = StateView;

    open spec fn view(&self) -> StateView {
        StateView {
            nodes: self.nodes.deep_view(),
            peers: self.peers.deep_view(),
            chain: match self.chain {
                Some(c) => Some(c@),
                None => None,
            },
            validators: match self.validators {
                Some(v) => Some(v@),
                None => None,
            },
        }
    }
}

/// The node entry inserted before the first entry whose ID exceeds its
/// own: insertion that keeps an ID-sorted list ID-sorted.
pub open spec fn node_insert_sorted(ns: Seq<NodeView>, x: NodeView) -> Seq<NodeView>
    decreases ns.len(),
{
    if ns.len() == 0 {
        seq![x]
    } else if spec_str_le(ns[0].id, x.id) {
        seq![ns[0]] + node_insert_sorted(ns.skip(1), x)
    } else {
        seq![x] + ns
    }
}

/// Node entries gathered into ID order, one sorted insertion at a time.
pub open spec fn node_sort_fold(acc: Seq<NodeView>, ns: Seq<NodeView>) -> Seq<NodeView>
    decreases ns.len(),
{
    if ns.len() == 0 {
        acc
    } else {
        node_sort_fold(node_insert_sorted(acc, ns[0]), ns.skip(1))
    }
}

/// The node entries in ID order, the way a key-sorted map iterates.
pub open spec fn node_sort(ns: Seq<NodeView>) -> Seq<NodeView> {
    node_sort_fold(Seq::empty(), ns)
}

/// The entries' IDs are in nondecreasing lexicographic order.
pub open spec fn nodes_sorted(ns: Seq<NodeView>) -> bool {
    forall|i: int, j: int|
        0 <= i < j < ns.len() ==> spec_str_le((#[trigger] ns[i]).id, (#[trigger] ns[j]).id)
}

/// Sorted insertion keeps the IDs sorted.
proof fn lemma_node_insert_sorted_sorted(ns: Seq<NodeView>, x: NodeView)
    requires
        nodes_sorted(ns),
    ensures
        nodes_sorted(node_insert_sorted(ns, x)),
    decreases ns.len(),
{
    let ins = node_insert_sorted(ns, x);
    if ns.len() == 0 {
    } else if spec_str_le(ns[0].id, x.id) {
        let rest = ns.skip(1);
        assert forall|i: int, j: int|
            0 <= i < j < rest.len() implies spec_str_le(
            (#[trigger] rest[i]).id,
            (#[trigger] rest[j]).id,
        ) by {
            assert(rest[i] == ns[i + 1]);
            assert(rest[j] == ns[j + 1]);
        }
        lemma_node_insert_sorted_sorted(rest, x);
        let rec = node_insert_sorted(rest, x);
        assert(ins =~= seq![ns[0]] + rec);
        assert(rec.len() > 0);
        if rest.len() == 0 {
            assert(rec[0] == x);
        } else if spec_str_le(rest[0].id, x.id) {
            assert(rec[0] == rest[0]);
            assert(rest[0] == ns[1]);
        } else {
            assert(rec[0] == x);
        }
        assert(spec_str_le(ns[0].id, rec[0].id));
        assert forall|i: int, j: int|
            0 <= i < j < ins.len() implies spec_str_le(
            (#[trigger] ins[i]).id,
            (#[trigger] ins[j]).id,
        ) by {
            if i == 0 {
                assert(ins[j] == rec[j - 1]);
                if j - 1 > 0 {
                    assert(spec_str_le(rec[0].id, rec[j - 1].id));
                    lemma_str_le_trans(ns[0].id, rec[0].id, rec[j - 1].id);
                }
            } else {
                assert(ins[i] == rec[i - 1]);
                assert(ins[j] == rec[j - 1]);
            }
        }
    } else {
        lemma_str_le_total(ns[0].id, x.id);
        assert(ins =~= seq![x] + ns);
        assert forall|i: int, j: int|
            0 <= i < j < ins.len() implies spec_str_le(
            (#[trigger] ins[i]).id,
            (#[trigger] ins[j]).id,
        ) by {
            if i == 0 {
                assert(ins[j] == ns[j - 1]);
                if j - 1 > 0 {
                    assert(spec_str_le(ns[0].id, ns[j - 1].id));
                    lemma_str_le_trans(x.id, ns[0].id, ns[j - 1].id);
                }
            } else {
                assert(ins[i] == ns[i - 1]);
                assert(ins[j] == ns[j - 1]);
            }
        }
    }
}

/// Gathering keeps the IDs sorted.
proof fn lemma_node_sort_fold_sorted(acc: Seq<NodeView>, ns: Seq<NodeView>)
    requires
        nodes_sorted(acc),
    ensures
        nodes_sorted(node_sort_fold(acc, ns)),
    decreases ns.len(),
{
    if ns.len() > 0 {
        lemma_node_insert_sorted_sorted(acc, ns[0]);
        lemma_node_sort_fold_sorted(node_insert_sorted(acc, ns[0]), ns.skip(1));
    }
}

/// The snapshot's node list is in ID order.
pub proof fn lemma_node_sort_sorted(ns: Seq<NodeView>)
    ensures
        nodes_sorted(node_sort(ns)),
{
    lemma_node_sort_fold_sorted(Seq::empty(), ns);
}

/// Sorted insertion places the entry exactly at the first position whose
/// ID exceeds the new one.
proof fn lemma_node_insert_at(ns: Seq<NodeView>, x: NodeView, j: int)
    requires
        0 <= j <= ns.len(),
        forall|i: int| 0 <= i < j ==> spec_str_le((#[trigger] ns[i]).id, x.id),
        j < ns.len() ==> !spec_str_le(ns[j].id, x.id),
    ensures
        node_insert_sorted(ns, x) =~= ns.take(j) + seq![x] + ns.skip(j),
    decreases j,
{
    if j == 0 {
        assert(ns.take(0) =~= Seq::<NodeView>::empty());
        assert(ns.skip(0) =~= ns);
    } else {
        assert(spec_str_le(ns[0].id, x.id));
        let rest = ns.skip(1);
        assert forall|i: int| 0 <= i < j - 1 implies spec_str_le(
            (#[trigger] rest[i]).id,
            x.id,
        ) by {
            assert(rest[i] == ns[i + 1]);
        }
        if j - 1 < rest.len() {
            assert(rest[j - 1] == ns[j]);
        }
        lemma_node_insert_at(rest, x, j - 1);
        assert(rest.take(j - 1) =~= ns.subrange(1, j));
        assert(rest.skip(j - 1) =~= ns.skip(j));
        assert(node_insert_sorted(ns, x) =~= seq![ns[0]] + node_insert_sorted(rest, x));
        assert(node_insert_sorted(ns, x) =~= ns.take(j) + seq![x] + ns.skip(j));
    }
}

impl State {
    /// Snapshot a network.
    fn new(network: &Network) -> (r: State)
        ensures
            r@.nodes == node_sort(network@.nodes),
            r@.peers == network@.peers,
            r@.chain == network@.chain,
            r@.validators == network@.validators,
    {
        let ghost gnodes = network@.nodes;
        let mut nodes: Vec<Node> = Vec::new();
        let n = network.nodes.len();
        let mut i: usize = 0;
        proof {
            assert(gnodes.skip(0) =~= gnodes);
            assert(nodes.deep_view() =~= Seq::<NodeView>::empty());
        }
        while i < n
            invariant
                i <= n,
                n == network.nodes@.len(),
                gnodes == network@.nodes,
                gnodes.len() == n,
                node_sort(gnodes) == node_sort_fold(nodes.deep_view(), gnodes.skip(i as int)),
            decreases n - i,
        {
            proof {
                assert(gnodes.skip(i as int)[0] == gnodes[i as int]);
                assert(gnodes.skip(i as int).skip(1) =~= gnodes.skip(i as int + 1));
            }
            let entry = network.nodes[i].clone();
            proof {
                assert(entry@ == gnodes[i as int]);
            }
            let ghost before = nodes.deep_view();
            let mut j: usize = 0;
            while j < nodes.len() && str_le(nodes[j].id.as_str(), entry.id.as_str())
                invariant
                    j <= nodes@.len(),
                    nodes.deep_view() == before,
                    entry@ == gnodes[i as int],
                    i < n,
                    gnodes.len() == n,
                    forall|t: int| 0 <= t < j ==> spec_str_le((#[trigger] before[t]).id, entry@.id),
                decreases nodes@.len() - j,
            {
                j = j + 1;
            }
            proof {
                lemma_node_insert_at(before, gnodes[i as int], j as int);
            }
            let ghost entries_before = nodes@;
            nodes.insert(j, entry);
            proof {
                entries_before.insert_ensures(j as int, nodes@[j as int]);
                assert forall|t: int|
                    0 <= t < nodes.deep_view().len() implies #[trigger] nodes.deep_view()[t] == (
                before.take(j as int) + seq![gnodes[i as int]] + before.skip(j as int))[t] by {
                    if t < j {
                        assert(nodes@[t] == entries_before[t]);
                    } else if t == j {
                        assert(nodes@[t] == nodes@[t]);
                    } else {
                        assert(nodes@[t] == entries_before[t - 1]);
                    }
                }
                assert(nodes.deep_view() =~= node_insert_sorted(before, gnodes[i as int]));
            }
            i = i + 1;
        }
        proof {
            assert(gnodes.skip(n as int) =~= Seq::<NodeView>::empty());
        }
        State {
            nodes,
            peers: clone_peers(&network.peers),
            chain: match &network.chain {
                Some(c) => Some(c.clone()),
                None => None,
            },
            validators: match &network.validators {
                Some(v) => Some(v.clone()),
                None => None,
            },
        }
    }
}

} // verus!
