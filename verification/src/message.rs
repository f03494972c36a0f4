//! Message types (sent to collector)

use crate::events::{IbcEvent, IbcEventView};
use crate::monitor::net_info::{Peer, PeerView};
use crate::monitor::status::{
    ChainStatus, ChainStatusView, NodeInfo, NodeInfoView, ValidatorInfo, ValidatorInfoView,
};
use vstd::prelude::*;

verus! {

/// View of a message.
pub enum MessageView {
    /// Chain synchronization status for a node
    Chain(ChainStatusView),

    /// Node information
    Node(NodeInfoView),

    /// Validator information
    Validator(ValidatorInfoView),

    /// Peer connections
    Peers(Seq<PeerView>),

    /// A typed IBC event
    EventIBC(IbcEventView),
}

/// Every event reported to the collector is a sequence of messages
#[derive(Debug)]
pub enum Message {
    /// Chain synchronization status for a node
    Chain(Box<ChainStatus>),

    /// Node information
    Node(Box<NodeInfo>),

    /// Validator information
    Validator(Box<ValidatorInfo>),

    /// Peer connections
    Peers(Vec<Peer>),

    /// A typed IBC event
    EventIBC(IbcEvent),
}

impl View for Message {
    type V = MessageView;

    open spec fn view(&self) -> MessageView {
        match self {
            Message::Chain(c) => MessageView::Chain(c@),
            Message::Node(n) => MessageView::Node(n@),
            Message::Validator(v) => MessageView::Validator(v@),
            Message::Peers(ps) => MessageView::Peers(ps.deep_view()),
            Message::EventIBC(e) => MessageView::EventIBC(e@),
        }
    }
}

impl DeepView for Message {
    type V = MessageView;

    open spec fn deep_view(&self) -> MessageView {
        self.view()
    }
}

/// View of an envelope.
pub struct EnvelopeView {
    /// Chain ID reporting in
    pub network: Seq<char>,

    /// Node ID reporting in
    pub node: Seq<char>,

    /// Timestamp when this envelope was created, as RFC 3339 text
    pub ts: Seq<char>,

    /// Messages inside of the envelope
    pub msg: Seq<MessageView>,
}

/// Message envelope - contains information about the node events are
/// originating from.
#[derive(Debug)]
pub struct Envelope {
    /// Chain ID reporting in
    pub network: String,

    /// Node ID reporting in
    pub node: String,

    /// Timestamp when this envelope was created, as RFC 3339 text
    pub ts: String,

    /// Messages inside of the envelope
    pub msg: Vec<Message>,
}

impl View for Envelope {
    type V = EnvelopeView;

    open spec fn view(&self) -> EnvelopeView {
        EnvelopeView {
            network: self.network@,
            node: self.node@,
            ts: self.ts@,
            msg: self.msg.deep_view(),
        }
    }
}

impl DeepView for Envelope {
    type V = EnvelopeView;

    open spec fn deep_view(&self) -> EnvelopeView {
        self.view()
    }
}

impl Envelope {
    /// Create a new message envelope from the given messages, stamped with
    /// the caller's clock text. An envelope with no messages is not
    /// constructed.
    pub fn new(network: String, node_id: String, ts: String, msg: Vec<Message>) -> (r: Option<
        Envelope,
    >)
        ensures
            msg@.len() == 0 ==> r is None,
            msg@.len() > 0 ==> (r matches Some(e) && e@ == (EnvelopeView {
                network: network@,
                node: node_id@,
                ts: ts@,
                msg: msg.deep_view(),
            })),
    {
        if msg.len() == 0 {
            None
        } else {
            Some(Envelope { network, node: node_id, ts, msg })
        }
    }
}

} // verus!
