//! Structural JSON codec for the wire types.
//!
//! The collector's wire format is JSON; its shape — which keys, which
//! kinds of value — is this system's own contract, so it is stated here
//! over a structural JSON tree, and decoding is proved to invert encoding
//! for every message variant and for state snapshots. The embedding
//! binary only moves between this tree and JSON text.
//!
//! One deliberate difference from a textual address encoding: peer
//! addresses are written structurally (`tcp`/`unix` objects), so that the
//! codec stays invertible without re-parsing address text.

use crate::events::{spec_classify, Attributes, IbcEvent, IbcEventKind, IbcEventView};
use crate::message::{EnvelopeView, Message, MessageView};
use crate::monitor::net_info::{ConnectionStatus, PeerView};
use crate::monitor::status::{
    ChainStatus, ChainStatusView, NodeInfo, NodeInfoView, ValidatorInfo, ValidatorInfoView,
};
use crate::net::{Address, AddressView};
use crate::network::tendermint::{NodeView, StateView};
use vstd::prelude::*;

verus! {

/// View of a JSON value.
#[verifier::ext_equal]
pub enum JsonVal {
    /// `null`
    Null,
    /// A boolean
    Bool(bool),
    /// A non-negative integer
    UInt(u64),
    /// A signed integer
    Int(i64),
    /// A string
    Str(Seq<char>),
    /// An array
    Arr(Seq<JsonVal>),
    /// An object: keyed members in order
    Obj(Seq<(Seq<char>, JsonVal)>),
}

/// A structural JSON value.
#[derive(Debug)]
pub enum JsonValue {
    /// `null`
    Null,
    /// A boolean
    Bool(bool),
    /// A non-negative integer
    UInt(u64),
    /// A signed integer
    Int(i64),
    /// A string
    Str(String),
    /// An array
    Arr(Box<JsonList>),
    /// An object: keyed members in order
    Obj(Box<JsonMembers>),
}

/// The elements of a JSON array.
#[derive(Debug)]
pub enum JsonList {
    /// No more elements
    Nil,
    /// One element and the rest
    Cons(JsonValue, Box<JsonList>),
}

/// The members of a JSON object.
#[derive(Debug)]
pub enum JsonMembers {
    /// No more members
    Nil,
    /// One keyed member and the rest
    Cons(String, JsonValue, Box<JsonMembers>),
}

/// The mathematical value a structural JSON value denotes.
pub open spec fn json_view(v: JsonValue) -> JsonVal
    decreases v,
{
    match v {
        JsonValue::Null => JsonVal::Null,
        JsonValue::Bool(b) => JsonVal::Bool(b),
        JsonValue::UInt(n) => JsonVal::UInt(n),
        JsonValue::Int(n) => JsonVal::Int(n),
        JsonValue::Str(s) => JsonVal::Str(s@),
        JsonValue::Arr(items) => JsonVal::Arr(json_list_view(*items)),
        JsonValue::Obj(members) => JsonVal::Obj(json_members_view(*members)),
    }
}

/// The element sequence a JSON array denotes.
pub open spec fn json_list_view(l: JsonList) -> Seq<JsonVal>
    decreases l,
{
    match l {
        JsonList::Nil => Seq::empty(),
        JsonList::Cons(v, rest) => seq![json_view(v)] + json_list_view(*rest),
    }
}

/// The member sequence a JSON object denotes.
pub open spec fn json_members_view(m: JsonMembers) -> Seq<(Seq<char>, JsonVal)>
    decreases m,
{
    match m {
        JsonMembers::Nil => Seq::empty(),
        JsonMembers::Cons(k, v, rest) => seq![(k@, json_view(v))] + json_members_view(*rest),
    }
}

impl View for JsonValue {
    type V = JsonVal;

    open spec fn view(&self) -> JsonVal {
        json_view(*self)
    }
}

/// The value of the first member with key `k`, if the object has one.
pub open spec fn obj_get(members: Seq<(Seq<char>, JsonVal)>, k: Seq<char>) -> Option<JsonVal>
    decreases members.len(),
{
    if members.len() == 0 {
        None
    } else if members[0].0 == k {
        Some(members[0].1)
    } else {
        obj_get(members.skip(1), k)
    }
}

// ------------------------------------------------------------------
// Encoding: each wire type as its JSON shape.
// ------------------------------------------------------------------
/// A chain status as JSON: the five status fields.
pub open spec fn enc_chain(c: ChainStatusView) -> JsonVal {
    JsonVal::Obj(
        seq![
            ("latest_block_hash"@, JsonVal::Str(c.latest_block_hash)),
            ("latest_app_hash"@, JsonVal::Str(c.latest_app_hash)),
            ("latest_block_height"@, JsonVal::UInt(c.latest_block_height)),
            ("latest_block_time"@, JsonVal::Str(c.latest_block_time)),
            ("catching_up"@, JsonVal::Bool(c.catching_up)),
        ],
    )
}

/// Node information as JSON.
pub open spec fn enc_node_info(n: NodeInfoView) -> JsonVal {
    JsonVal::Obj(
        seq![
            ("id"@, JsonVal::Str(n.id)),
            ("moniker"@, JsonVal::Str(n.moniker)),
            ("listen_addr"@, JsonVal::Str(n.listen_addr)),
            ("network"@, JsonVal::Str(n.network)),
            ("version"@, JsonVal::Str(n.version)),
        ],
    )
}

/// Validator information as JSON.
pub open spec fn enc_validator(v: ValidatorInfoView) -> JsonVal {
    JsonVal::Obj(
        seq![
            ("address"@, JsonVal::Str(v.address)),
            ("voting_power"@, JsonVal::UInt(v.voting_power)),
            ("proposer_priority"@, JsonVal::Int(v.proposer_priority)),
        ],
    )
}

/// An address as JSON: a `tcp` or `unix` object.
pub open spec fn enc_address(a: AddressView) -> JsonVal {
    match a {
        AddressView::Tcp { peer_id, host, port } => JsonVal::Obj(
            seq![
                (
                    "tcp"@,
                    JsonVal::Obj(
                        seq![
                            (
                                "peer_id"@,
                                match peer_id {
                                    Some(id) => JsonVal::Str(id),
                                    None => JsonVal::Null,
                                },
                            ),
                            ("host"@, JsonVal::Str(host)),
                            ("port"@, JsonVal::UInt(port as u64)),
                        ],
                    ),
                ),
            ],
        ),
        AddressView::Unix { path } => JsonVal::Obj(
            seq![("unix"@, JsonVal::Obj(seq![("path"@, JsonVal::Str(path))]))],
        ),
    }
}

/// A connection status as JSON text.
pub open spec fn enc_connection(c: ConnectionStatus) -> JsonVal {
    match c {
        ConnectionStatus::Out => JsonVal::Str("out"@),
        ConnectionStatus::In => JsonVal::Str("in"@),
        ConnectionStatus::Disconnected => JsonVal::Str("none"@),
    }
}

/// A peer as JSON.
pub open spec fn enc_peer(p: PeerView) -> JsonVal {
    JsonVal::Obj(
        seq![
            ("addr"@, enc_address(p.addr)),
            ("connection"@, enc_connection(p.connection)),
            ("persistent"@, JsonVal::Bool(p.persistent)),
            ("private"@, JsonVal::Bool(p.private)),
        ],
    )
}

/// A peer list as a JSON array.
pub open spec fn enc_peers(ps: Seq<PeerView>) -> Seq<JsonVal> {
    Seq::new(ps.len(), |i: int| enc_peer(ps[i]))
}

/// The type string of an event kind; classifying it yields the kind back.
pub open spec fn enc_kind_text(k: IbcEventKind) -> Seq<char> {
    match k {
        IbcEventKind::CreateClient => "create_client"@,
        IbcEventKind::UpdateClient => "update_client"@,
        IbcEventKind::ClientMisbehavior => "client_misbehaviour"@,
        IbcEventKind::OpenInitConnection => "connection_open_init"@,
        IbcEventKind::OpenTryConnection => "connection_open_try"@,
        IbcEventKind::OpenAckConnection => "connection_open_ack"@,
        IbcEventKind::OpenConfirmConnection => "connection_open_confirm"@,
        IbcEventKind::SendPacketChannel => "send_packet"@,
        IbcEventKind::RecievePacketChannel => "recv_packet"@,
        IbcEventKind::OpaquePacket => "opaque_packet"@,
        IbcEventKind::PacketTransfer => "transfer"@,
    }
}

/// The values of one attribute as a JSON array of strings.
pub open spec fn enc_attr_values(vs: Seq<Seq<char>>) -> Seq<JsonVal> {
    Seq::new(vs.len(), |i: int| JsonVal::Str(vs[i]))
}

/// An attribute bag as JSON object members.
pub open spec fn enc_attributes(bag: Seq<(Seq<char>, Seq<Seq<char>>)>) -> Seq<
    (Seq<char>, JsonVal),
> {
    Seq::new(bag.len(), |i: int| (bag[i].0, JsonVal::Arr(enc_attr_values(bag[i].1))))
}

/// An IBC event as JSON: its type string and its attribute bag.
pub open spec fn enc_event(e: IbcEventView) -> JsonVal {
    JsonVal::Obj(
        seq![
            ("type"@, JsonVal::Str(enc_kind_text(e.kind))),
            ("attributes"@, JsonVal::Obj(enc_attributes(e.attributes))),
        ],
    )
}

/// A message as JSON: an object with the variant's single tag.
pub open spec fn enc_message(m: MessageView) -> JsonVal {
    match m {
        MessageView::Chain(c) => JsonVal::Obj(seq![("chain"@, enc_chain(c))]),
        MessageView::Node(n) => JsonVal::Obj(seq![("node"@, enc_node_info(n))]),
        MessageView::Validator(v) => JsonVal::Obj(seq![("validator"@, enc_validator(v))]),
        MessageView::Peers(ps) => JsonVal::Obj(seq![("peers"@, JsonVal::Arr(enc_peers(ps)))]),
        MessageView::EventIBC(e) => JsonVal::Obj(seq![("event_ibc"@, enc_event(e))]),
    }
}

/// A message list as a JSON array.
pub open spec fn enc_messages(ms: Seq<MessageView>) -> Seq<JsonVal> {
    Seq::new(ms.len(), |i: int| enc_message(ms[i]))
}

/// An envelope as JSON.
pub open spec fn enc_envelope(e: EnvelopeView) -> JsonVal {
    JsonVal::Obj(
        seq![
            ("network"@, JsonVal::Str(e.network)),
            ("node"@, JsonVal::Str(e.node)),
            ("ts"@, JsonVal::Str(e.ts)),
            ("msg"@, JsonVal::Arr(enc_messages(e.msg))),
        ],
    )
}

/// A node entry of a state snapshot as JSON.
pub open spec fn enc_node_entry(n: NodeView) -> JsonVal {
    JsonVal::Obj(
        seq![
            ("id"@, JsonVal::Str(n.id)),
            ("moniker"@, JsonVal::Str(n.moniker)),
            ("first_seen"@, JsonVal::UInt(n.first_seen)),
            ("last_seen"@, JsonVal::UInt(n.last_seen)),
        ],
    )
}

/// The node entries of a state snapshot as a JSON array.
pub open spec fn enc_node_entries(ns: Seq<NodeView>) -> Seq<JsonVal> {
    Seq::new(ns.len(), |i: int| enc_node_entry(ns[i]))
}

/// A state snapshot as JSON.
pub open spec fn enc_state(s: StateView) -> JsonVal {
    JsonVal::Obj(
        seq![
            ("nodes"@, JsonVal::Arr(enc_node_entries(s.nodes))),
            ("peers"@, JsonVal::Arr(enc_peers(s.peers))),
            (
                "chain"@,
                match s.chain {
                    Some(c) => enc_chain(c),
                    None => JsonVal::Null,
                },
            ),
            (
                "validators"@,
                match s.validators {
                    Some(v) => enc_validator(v),
                    None => JsonVal::Null,
                },
            ),
        ],
    )
}

// ------------------------------------------------------------------
// Decoding: the inverse shape readings, lenient about member order and
// extra members, strict about each member's kind.
// ------------------------------------------------------------------
/// Read a chain status back.
pub open spec fn dec_chain(j: JsonVal) -> Option<ChainStatusView> {
    match j {
        JsonVal::Obj(ms) => match (
            obj_get(ms, "latest_block_hash"@),
            obj_get(ms, "latest_app_hash"@),
            obj_get(ms, "latest_block_height"@),
            obj_get(ms, "latest_block_time"@),
            obj_get(ms, "catching_up"@),
        ) {
            (
                Some(JsonVal::Str(h)),
                Some(JsonVal::Str(a)),
                Some(JsonVal::UInt(ht)),
                Some(JsonVal::Str(t)),
                Some(JsonVal::Bool(c)),
            ) => Some(
                ChainStatusView {
                    latest_block_hash: h,
                    latest_app_hash: a,
                    latest_block_height: ht,
                    latest_block_time: t,
                    catching_up: c,
                },
            ),
            _ => None,
        },
        _ => None,
    }
}

/// Read node information back.
pub open spec fn dec_node_info(j: JsonVal) -> Option<NodeInfoView> {
    match j {
        JsonVal::Obj(ms) => match (
            obj_get(ms, "id"@),
            obj_get(ms, "moniker"@),
            obj_get(ms, "listen_addr"@),
            obj_get(ms, "network"@),
            obj_get(ms, "version"@),
        ) {
            (
                Some(JsonVal::Str(id)),
                Some(JsonVal::Str(moniker)),
                Some(JsonVal::Str(listen_addr)),
                Some(JsonVal::Str(network)),
                Some(JsonVal::Str(version)),
            ) => Some(NodeInfoView { id, moniker, listen_addr, network, version }),
            _ => None,
        },
        _ => None,
    }
}

/// Read validator information back.
pub open spec fn dec_validator(j: JsonVal) -> Option<ValidatorInfoView> {
    match j {
        JsonVal::Obj(ms) => match (
            obj_get(ms, "address"@),
            obj_get(ms, "voting_power"@),
            obj_get(ms, "proposer_priority"@),
        ) {
            (Some(JsonVal::Str(a)), Some(JsonVal::UInt(vp)), Some(JsonVal::Int(pp))) => Some(
                ValidatorInfoView { address: a, voting_power: vp, proposer_priority: pp },
            ),
            _ => None,
        },
        _ => None,
    }
}

/// Read an address back.
pub open spec fn dec_address(j: JsonVal) -> Option<AddressView> {
    match j {
        JsonVal::Obj(ms) => match obj_get(ms, "tcp"@) {
            Some(JsonVal::Obj(tms)) => match (
                obj_get(tms, "peer_id"@),
                obj_get(tms, "host"@),
                obj_get(tms, "port"@),
            ) {
                (Some(pid), Some(JsonVal::Str(host)), Some(JsonVal::UInt(port))) => if port
                    <= u16::MAX as u64 {
                    match pid {
                        JsonVal::Null => Some(
                            AddressView::Tcp { peer_id: None, host, port: port as u16 },
                        ),
                        JsonVal::Str(id) => Some(
                            AddressView::Tcp { peer_id: Some(id), host, port: port as u16 },
                        ),
                        _ => None,
                    }
                } else {
                    None
                },
                _ => None,
            },
            _ => match obj_get(ms, "unix"@) {
                Some(JsonVal::Obj(ums)) => match obj_get(ums, "path"@) {
                    Some(JsonVal::Str(path)) => Some(AddressView::Unix { path }),
                    _ => None,
                },
                _ => None,
            },
        },
        _ => None,
    }
}

/// Read a connection status back.
pub open spec fn dec_connection(j: JsonVal) -> Option<ConnectionStatus> {
    match j {
        JsonVal::Str(s) => if s == "out"@ {
            Some(ConnectionStatus::Out)
        } else if s == "in"@ {
            Some(ConnectionStatus::In)
        } else if s == "none"@ {
            Some(ConnectionStatus::Disconnected)
        } else {
            None
        },
        _ => None,
    }
}

/// Read a peer back.
pub open spec fn dec_peer(j: JsonVal) -> Option<PeerView> {
    match j {
        JsonVal::Obj(ms) => match (
            obj_get(ms, "addr"@),
            obj_get(ms, "connection"@),
            obj_get(ms, "persistent"@),
            obj_get(ms, "private"@),
        ) {
            (Some(aj), Some(cj), Some(JsonVal::Bool(pe)), Some(JsonVal::Bool(pr))) => match (
                dec_address(aj),
                dec_connection(cj),
            ) {
                (Some(addr), Some(connection)) => Some(
                    PeerView { addr, connection, persistent: pe, private: pr },
                ),
                _ => None,
            },
            _ => None,
        },
        _ => None,
    }
}

/// Read a peer list back.
pub open spec fn dec_peers(js: Seq<JsonVal>) -> Option<Seq<PeerView>>
    decreases js.len(),
{
    if js.len() == 0 {
        Some(Seq::empty())
    } else {
        match (dec_peer(js[0]), dec_peers(js.skip(1))) {
            (Some(p), Some(rest)) => Some(seq![p] + rest),
            _ => None,
        }
    }
}

/// Read one attribute's values back.
pub open spec fn dec_attr_values(js: Seq<JsonVal>) -> Option<Seq<Seq<char>>>
    decreases js.len(),
{
    if js.len() == 0 {
        Some(Seq::empty())
    } else {
        match js[0] {
            JsonVal::Str(s) => match dec_attr_values(js.skip(1)) {
                Some(rest) => Some(seq![s] + rest),
                None => None,
            },
            _ => None,
        }
    }
}

/// Read an attribute bag back.
pub open spec fn dec_attributes(ms: Seq<(Seq<char>, JsonVal)>) -> Option<
    Seq<(Seq<char>, Seq<Seq<char>>)>,
>
    decreases ms.len(),
{
    if ms.len() == 0 {
        Some(Seq::empty())
    } else {
        match ms[0].1 {
            JsonVal::Arr(vs) => match (dec_attr_values(vs), dec_attributes(ms.skip(1))) {
                (Some(values), Some(rest)) => Some(seq![(ms[0].0, values)] + rest),
                _ => None,
            },
            _ => None,
        }
    }
}

/// Read an IBC event back.
pub open spec fn dec_event(j: JsonVal) -> Option<IbcEventView> {
    match j {
        JsonVal::Obj(ms) => match (obj_get(ms, "type"@), obj_get(ms, "attributes"@)) {
            (Some(JsonVal::Str(t)), Some(JsonVal::Obj(ams))) => match (
                spec_classify(t),
                dec_attributes(ams),
            ) {
                (Some(kind), Some(attributes)) => Some(IbcEventView { kind, attributes }),
                _ => None,
            },
            _ => None,
        },
        _ => None,
    }
}

/// Read a message back: an object with exactly its variant tag.
pub open spec fn dec_message(j: JsonVal) -> Option<MessageView> {
    match j {
        JsonVal::Obj(ms) => if ms.len() == 1 {
            if ms[0].0 == "chain"@ {
                match dec_chain(ms[0].1) {
                    Some(c) => Some(MessageView::Chain(c)),
                    None => None,
                }
            } else if ms[0].0 == "node"@ {
                match dec_node_info(ms[0].1) {
                    Some(n) => Some(MessageView::Node(n)),
                    None => None,
                }
            } else if ms[0].0 == "validator"@ {
                match dec_validator(ms[0].1) {
                    Some(v) => Some(MessageView::Validator(v)),
                    None => None,
                }
            } else if ms[0].0 == "peers"@ {
                match ms[0].1 {
                    JsonVal::Arr(js) => match dec_peers(js) {
                        Some(ps) => Some(MessageView::Peers(ps)),
                        None => None,
                    },
                    _ => None,
                }
            } else if ms[0].0 == "event_ibc"@ {
                match dec_event(ms[0].1) {
                    Some(e) => Some(MessageView::EventIBC(e)),
                    None => None,
                }
            } else {
                None
            }
        } else {
            None
        },
        _ => None,
    }
}

/// Read a message list back.
pub open spec fn dec_messages(js: Seq<JsonVal>) -> Option<Seq<MessageView>>
    decreases js.len(),
{
    if js.len() == 0 {
        Some(Seq::empty())
    } else {
        match (dec_message(js[0]), dec_messages(js.skip(1))) {
            (Some(m), Some(rest)) => Some(seq![m] + rest),
            _ => None,
        }
    }
}

/// Read an envelope back.
pub open spec fn dec_envelope(j: JsonVal) -> Option<EnvelopeView> {
    match j {
        JsonVal::Obj(ms) => match (
            obj_get(ms, "network"@),
            obj_get(ms, "node"@),
            obj_get(ms, "ts"@),
            obj_get(ms, "msg"@),
        ) {
            (
                Some(JsonVal::Str(network)),
                Some(JsonVal::Str(node)),
                Some(JsonVal::Str(ts)),
                Some(JsonVal::Arr(js)),
            ) => match dec_messages(js) {
                Some(msg) => Some(EnvelopeView { network, node, ts, msg }),
                None => None,
            },
            _ => None,
        },
        _ => None,
    }
}

/// Read a node entry back.
pub open spec fn dec_node_entry(j: JsonVal) -> Option<NodeView> {
    match j {
        JsonVal::Obj(ms) => match (
            obj_get(ms, "id"@),
            obj_get(ms, "moniker"@),
            obj_get(ms, "first_seen"@),
            obj_get(ms, "last_seen"@),
        ) {
            (
                Some(JsonVal::Str(id)),
                Some(JsonVal::Str(moniker)),
                Some(JsonVal::UInt(first_seen)),
                Some(JsonVal::UInt(last_seen)),
            ) => Some(NodeView { id, moniker, first_seen, last_seen }),
            _ => None,
        },
        _ => None,
    }
}

/// Read a node entry list back.
pub open spec fn dec_node_entries(js: Seq<JsonVal>) -> Option<Seq<NodeView>>
    decreases js.len(),
{
    if js.len() == 0 {
        Some(Seq::empty())
    } else {
        match (dec_node_entry(js[0]), dec_node_entries(js.skip(1))) {
            (Some(n), Some(rest)) => Some(seq![n] + rest),
            _ => None,
        }
    }
}

/// Read a state snapshot back.
pub open spec fn dec_state(j: JsonVal) -> Option<StateView> {
    match j {
        JsonVal::Obj(ms) => match (
            obj_get(ms, "nodes"@),
            obj_get(ms, "peers"@),
            obj_get(ms, "chain"@),
            obj_get(ms, "validators"@),
        ) {
            (Some(JsonVal::Arr(njs)), Some(JsonVal::Arr(pjs)), Some(cj), Some(vj)) => match (
                dec_node_entries(njs),
                dec_peers(pjs),
            ) {
                (Some(nodes), Some(peers)) => {
                    let chain = match cj {
                        JsonVal::Null => Some(None),
                        _ => match dec_chain(cj) {
                            Some(c) => Some(Some(c)),
                            None => None,
                        },
                    };
                    let validators = match vj {
                        JsonVal::Null => Some(None),
                        _ => match dec_validator(vj) {
                            Some(v) => Some(Some(v)),
                            None => None,
                        },
                    };
                    match (chain, validators) {
                        (Some(c), Some(v)) => Some(
                            StateView { nodes, peers, chain: c, validators: v },
                        ),
                        _ => None,
                    }
                },
                _ => None,
            },
            _ => None,
        },
        _ => None,
    }
}

// ------------------------------------------------------------------
// Executable encoding: building the tree the specification describes.
// ------------------------------------------------------------------
/// Prepend one member to an object.
fn members_cons(key: &str, value: JsonValue, rest: JsonMembers) -> (r: JsonMembers)
    ensures
        json_members_view(r) =~= seq![(key@, json_view(value))] + json_members_view(rest),
{
    JsonMembers::Cons(key.to_owned(), value, Box::new(rest))
}

/// Prepend one element to an array.
fn list_cons(value: JsonValue, rest: JsonList) -> (r: JsonList)
    ensures
        json_list_view(r) =~= seq![json_view(value)] + json_list_view(rest),
{
    JsonList::Cons(value, Box::new(rest))
}

/// Encode a chain status.
pub fn encode_chain(c: &ChainStatus) -> (r: JsonValue)
    ensures
        json_view(r) == enc_chain(c@),
{
    let m = members_cons(
        "latest_block_hash",
        JsonValue::Str(c.latest_block_hash.clone()),
        members_cons(
            "latest_app_hash",
            JsonValue::Str(c.latest_app_hash.clone()),
            members_cons(
                "latest_block_height",
                JsonValue::UInt(c.latest_block_height),
                members_cons(
                    "latest_block_time",
                    JsonValue::Str(c.latest_block_time.clone()),
                    members_cons(
                        "catching_up",
                        JsonValue::Bool(c.catching_up),
                        JsonMembers::Nil,
                    ),
                ),
            ),
        ),
    );
    let r = JsonValue::Obj(Box::new(m));
    proof {
        assert(json_members_view(m) =~= enc_chain(c@)->Obj_0);
        assert(json_view(r) == enc_chain(c@));
    }
    r
}

/// Encode node information.
pub fn encode_node_info(n: &NodeInfo) -> (r: JsonValue)
    ensures
        json_view(r) == enc_node_info(n@),
{
    let m = members_cons(
        "id",
        JsonValue::Str(n.id.clone()),
        members_cons(
            "moniker",
            JsonValue::Str(n.moniker.clone()),
            members_cons(
                "listen_addr",
                JsonValue::Str(n.listen_addr.clone()),
                members_cons(
                    "network",
                    JsonValue::Str(n.network.clone()),
                    members_cons(
                        "version",
                        JsonValue::Str(n.version.clone()),
                        JsonMembers::Nil,
                    ),
                ),
            ),
        ),
    );
    let r = JsonValue::Obj(Box::new(m));
    proof {
        assert(json_members_view(m) =~= enc_node_info(n@)->Obj_0);
        assert(json_view(r) == enc_node_info(n@));
    }
    r
}

/// Encode validator information.
pub fn encode_validator(v: &ValidatorInfo) -> (r: JsonValue)
    ensures
        json_view(r) == enc_validator(v@),
{
    let m = members_cons(
        "address",
        JsonValue::Str(v.address.clone()),
        members_cons(
            "voting_power",
            JsonValue::UInt(v.voting_power),
            members_cons(
                "proposer_priority",
                JsonValue::Int(v.proposer_priority),
                JsonMembers::Nil,
            ),
        ),
    );
    let r = JsonValue::Obj(Box::new(m));
    proof {
        assert(json_members_view(m) =~= enc_validator(v@)->Obj_0);
        assert(json_view(r) == enc_validator(v@));
    }
    r
}

/// Encode an address.
pub fn encode_address(a: &Address) -> (r: JsonValue)
    ensures
        json_view(r) == enc_address(a@),
{
    match a {
        Address::Tcp { peer_id, host, port } => {
            let pid: JsonValue = match peer_id {
                Some(id) => JsonValue::Str(id.clone()),
                None => JsonValue::Null,
            };
            let tm = members_cons(
                "peer_id",
                pid,
                members_cons(
                    "host",
                    JsonValue::Str(host.clone()),
                    members_cons("port", JsonValue::UInt(*port as u64), JsonMembers::Nil),
                ),
            );
            let m = members_cons("tcp", JsonValue::Obj(Box::new(tm)), JsonMembers::Nil);
            let r = JsonValue::Obj(Box::new(m));
            proof {
                assert(enc_address(a@) is Obj);
                let ems = enc_address(a@)->Obj_0;
                assert(ems[0].1 is Obj);
                assert(json_members_view(tm) =~= ems[0].1->Obj_0);
                assert(ems[0].1 == JsonVal::Obj(json_members_view(tm)));
                assert(json_members_view(m) =~= ems);
                assert(json_view(r) == enc_address(a@));
            }
            r
        },
        Address::Unix { path } => {
            let um = members_cons("path", JsonValue::Str(path.clone()), JsonMembers::Nil);
            let m = members_cons("unix", JsonValue::Obj(Box::new(um)), JsonMembers::Nil);
            let r = JsonValue::Obj(Box::new(m));
            proof {
                assert(enc_address(a@) is Obj);
                let ems = enc_address(a@)->Obj_0;
                assert(ems[0].1 is Obj);
                assert(json_members_view(um) =~= ems[0].1->Obj_0);
                assert(ems[0].1 == JsonVal::Obj(json_members_view(um)));
                assert(json_members_view(m) =~= ems);
                assert(json_view(r) == enc_address(a@));
            }
            r
        },
    }
}

/// Encode a connection status.
pub fn encode_connection(c: ConnectionStatus) -> (r: JsonValue)
    ensures
        json_view(r) == enc_connection(c),
{
    match c {
        ConnectionStatus::Out => JsonValue::Str("out".to_owned()),
        ConnectionStatus::In => JsonValue::Str("in".to_owned()),
        ConnectionStatus::Disconnected => JsonValue::Str("none".to_owned()),
    }
}

/// Encode a peer.
pub fn encode_peer(p: &crate::monitor::net_info::Peer) -> (r: JsonValue)
    ensures
        json_view(r) == enc_peer(p@),
{
    let m = members_cons(
        "addr",
        encode_address(&p.addr),
        members_cons(
            "connection",
            encode_connection(p.connection),
            members_cons(
                "persistent",
                JsonValue::Bool(p.persistent),
                members_cons("private", JsonValue::Bool(p.private), JsonMembers::Nil),
            ),
        ),
    );
    let r = JsonValue::Obj(Box::new(m));
    proof {
        assert(json_members_view(m) =~= enc_peer(p@)->Obj_0);
        assert(json_view(r) == enc_peer(p@));
    }
    r
}

/// Encode a peer list.
pub fn encode_peers(ps: &Vec<crate::monitor::net_info::Peer>) -> (r: JsonList)
    ensures
        json_list_view(r) =~= enc_peers(ps.deep_view()),
{
    let ghost target = enc_peers(ps.deep_view());
    let mut acc = JsonList::Nil;
    let mut i: usize = ps.len();
    proof {
        assert(target.skip(i as int) =~= Seq::<JsonVal>::empty());
        assert(json_list_view(acc) =~= Seq::<JsonVal>::empty());
    }
    while i > 0
        invariant
            i <= ps@.len(),
            target == enc_peers(ps.deep_view()),
            target.len() == ps@.len(),
            json_list_view(acc) =~= target.skip(i as int),
        decreases i,
    {
        i = i - 1;
        let encoded = encode_peer(&ps[i]);
        proof {
            assert(ps.deep_view()[i as int] == ps@[i as int]@);
            assert(target[i as int] == enc_peer(ps.deep_view()[i as int]));
        }
        acc = list_cons(encoded, acc);
        proof {
            assert(target.skip(i as int) =~= seq![target[i as int]] + target.skip(i as int + 1));
        }
    }
    proof {
        assert(target.skip(0) =~= target);
    }
    acc
}

/// The type string of an event kind.
pub fn encode_kind(k: IbcEventKind) -> (r: String)
    ensures
        r@ == enc_kind_text(k),
{
    match k {
        IbcEventKind::CreateClient => "create_client".to_owned(),
        IbcEventKind::UpdateClient => "update_client".to_owned(),
        IbcEventKind::ClientMisbehavior => "client_misbehaviour".to_owned(),
        IbcEventKind::OpenInitConnection => "connection_open_init".to_owned(),
        IbcEventKind::OpenTryConnection => "connection_open_try".to_owned(),
        IbcEventKind::OpenAckConnection => "connection_open_ack".to_owned(),
        IbcEventKind::OpenConfirmConnection => "connection_open_confirm".to_owned(),
        IbcEventKind::SendPacketChannel => "send_packet".to_owned(),
        IbcEventKind::RecievePacketChannel => "recv_packet".to_owned(),
        IbcEventKind::OpaquePacket => "opaque_packet".to_owned(),
        IbcEventKind::PacketTransfer => "transfer".to_owned(),
    }
}

/// Encode one attribute's values.
fn encode_attr_values(vs: &Vec<String>) -> (r: JsonList)
    ensures
        json_list_view(r) =~= enc_attr_values(vs.deep_view()),
{
    let ghost target = enc_attr_values(vs.deep_view());
    let mut acc = JsonList::Nil;
    let mut i: usize = vs.len();
    proof {
        assert(target.skip(i as int) =~= Seq::<JsonVal>::empty());
        assert(json_list_view(acc) =~= Seq::<JsonVal>::empty());
    }
    while i > 0
        invariant
            i <= vs@.len(),
            target == enc_attr_values(vs.deep_view()),
            target.len() == vs@.len(),
            json_list_view(acc) =~= target.skip(i as int),
        decreases i,
    {
        i = i - 1;
        proof {
            assert(vs.deep_view()[i as int] == vs@[i as int]@);
            assert(target[i as int] == JsonVal::Str(vs.deep_view()[i as int]));
        }
        acc = list_cons(JsonValue::Str(vs[i].clone()), acc);
        proof {
            assert(target.skip(i as int) =~= seq![target[i as int]] + target.skip(i as int + 1));
        }
    }
    proof {
        assert(target.skip(0) =~= target);
    }
    acc
}

/// Encode an attribute bag.
fn encode_attributes(bag: &Attributes) -> (r: JsonMembers)
    ensures
        json_members_view(r) =~= enc_attributes(bag@),
{
    let ghost target = enc_attributes(bag@);
    let mut acc = JsonMembers::Nil;
    let mut i: usize = bag.entries.len();
    proof {
        assert(target.skip(i as int) =~= Seq::<(Seq<char>, JsonVal)>::empty());
        assert(json_members_view(acc) =~= Seq::<(Seq<char>, JsonVal)>::empty());
    }
    while i > 0
        invariant
            i <= bag.entries@.len(),
            target == enc_attributes(bag@),
            target.len() == bag.entries@.len(),
            json_members_view(acc) =~= target.skip(i as int),
        decreases i,
    {
        i = i - 1;
        let values = encode_attr_values(&bag.entries[i].1);
        proof {
            assert(bag@[i as int] == (
                bag.entries@[i as int].0@,
                Seq::new(
                    bag.entries@[i as int].1@.len(),
                    |j: int| bag.entries@[i as int].1@[j]@,
                ),
            ));
            assert(bag.entries@[i as int].1.deep_view() =~= bag@[i as int].1);
            assert(target[i as int] == (bag@[i as int].0, JsonVal::Arr(
                enc_attr_values(bag@[i as int].1),
            )));
        }
        acc = members_cons(
            bag.entries[i].0.as_str(),
            JsonValue::Arr(Box::new(values)),
            acc,
        );
        proof {
            assert(target.skip(i as int) =~= seq![target[i as int]] + target.skip(i as int + 1));
        }
    }
    proof {
        assert(target.skip(0) =~= target);
    }
    acc
}

/// Encode an IBC event.
pub fn encode_event(e: &IbcEvent) -> (r: JsonValue)
    ensures
        json_view(r) == enc_event(e@),
{
    let attributes = encode_attributes(&e.attributes);
    let m = members_cons(
        "type",
        JsonValue::Str(encode_kind(e.kind)),
        members_cons(
            "attributes",
            JsonValue::Obj(Box::new(attributes)),
            JsonMembers::Nil,
        ),
    );
    let r = JsonValue::Obj(Box::new(m));
    proof {
        assert(enc_event(e@) is Obj);
        let ems = enc_event(e@)->Obj_0;
        assert(ems[1].1 is Obj);
        assert(ems[1].1 == JsonVal::Obj(json_members_view(attributes)));
        assert(json_members_view(m) =~= ems);
        assert(json_view(r) == enc_event(e@));
    }
    r
}

/// Encode one message.
pub fn encode_message(msg: &Message) -> (r: JsonValue)
    ensures
        json_view(r) == enc_message(msg@),
{
    match msg {
        Message::Chain(c) => {
            let m = members_cons("chain", encode_chain(c), JsonMembers::Nil);
            let r = JsonValue::Obj(Box::new(m));
            proof {
                assert(json_members_view(m) =~= enc_message(msg@)->Obj_0);
                assert(json_view(r) == enc_message(msg@));
            }
            r
        },
        Message::Node(n) => {
            let m = members_cons("node", encode_node_info(n), JsonMembers::Nil);
            let r = JsonValue::Obj(Box::new(m));
            proof {
                assert(json_members_view(m) =~= enc_message(msg@)->Obj_0);
                assert(json_view(r) == enc_message(msg@));
            }
            r
        },
        Message::Validator(v) => {
            let m = members_cons("validator", encode_validator(v), JsonMembers::Nil);
            let r = JsonValue::Obj(Box::new(m));
            proof {
                assert(json_members_view(m) =~= enc_message(msg@)->Obj_0);
                assert(json_view(r) == enc_message(msg@));
            }
            r
        },
        Message::Peers(ps) => {
            let list = encode_peers(ps);
            let m = members_cons("peers", JsonValue::Arr(Box::new(list)), JsonMembers::Nil);
            let r = JsonValue::Obj(Box::new(m));
            proof {
                assert(json_members_view(m) =~= enc_message(msg@)->Obj_0);
                assert(json_view(r) == enc_message(msg@));
            }
            r
        },
        Message::EventIBC(e) => {
            let m = members_cons("event_ibc", encode_event(e), JsonMembers::Nil);
            let r = JsonValue::Obj(Box::new(m));
            proof {
                assert(json_members_view(m) =~= enc_message(msg@)->Obj_0);
                assert(json_view(r) == enc_message(msg@));
            }
            r
        },
    }
}

/// Encode a message list.
pub fn encode_messages(ms: &Vec<Message>) -> (r: JsonList)
    ensures
        json_list_view(r) =~= enc_messages(ms.deep_view()),
{
    let ghost target = enc_messages(ms.deep_view());
    let mut acc = JsonList::Nil;
    let mut i: usize = ms.len();
    proof {
        assert(target.skip(i as int) =~= Seq::<JsonVal>::empty());
        assert(json_list_view(acc) =~= Seq::<JsonVal>::empty());
    }
    while i > 0
        invariant
            i <= ms@.len(),
            target == enc_messages(ms.deep_view()),
            target.len() == ms@.len(),
            json_list_view(acc) =~= target.skip(i as int),
        decreases i,
    {
        i = i - 1;
        let encoded = encode_message(&ms[i]);
        proof {
            assert(ms.deep_view()[i as int] == ms@[i as int]@);
            assert(target[i as int] == enc_message(ms.deep_view()[i as int]));
        }
        acc = list_cons(encoded, acc);
        proof {
            assert(target.skip(i as int) =~= seq![target[i as int]] + target.skip(i as int + 1));
        }
    }
    proof {
        assert(target.skip(0) =~= target);
    }
    acc
}

/// Encode an envelope as its JSON tree.
pub fn encode_envelope(e: &crate::message::Envelope) -> (r: JsonValue)
    ensures
        json_view(r) == enc_envelope(e@),
{
    let messages = encode_messages(&e.msg);
    let m = members_cons(
        "network",
        JsonValue::Str(e.network.clone()),
        members_cons(
            "node",
            JsonValue::Str(e.node.clone()),
            members_cons(
                "ts",
                JsonValue::Str(e.ts.clone()),
                members_cons(
                    "msg",
                    JsonValue::Arr(Box::new(messages)),
                    JsonMembers::Nil,
                ),
            ),
        ),
    );
    let r = JsonValue::Obj(Box::new(m));
    proof {
        assert(enc_envelope(e@) is Obj);
        let ems = enc_envelope(e@)->Obj_0;
        assert(ems[3].1 == JsonVal::Arr(json_list_view(messages)));
        assert(json_members_view(m) =~= ems);
        assert(json_view(r) == enc_envelope(e@));
    }
    r
}

// ------------------------------------------------------------------
// Executable decoding: reading the tree back, exactly as the
// specification reads it.
// ------------------------------------------------------------------
/// The value of the first member with the given key.
fn members_get<'a>(m: &'a JsonMembers, k: &str) -> (r: Option<&'a JsonValue>)
    ensures
        match r {
            Some(v) => obj_get(json_members_view(*m), k@) == Some(json_view(*v)),
            None => obj_get(json_members_view(*m), k@) is None,
        },
    decreases *m,
{
    match m {
        JsonMembers::Nil => None,
        JsonMembers::Cons(key, value, rest) => {
            proof {
                assert(json_members_view(*m)[0] == (key@, json_view(*value)));
                assert(json_members_view(*m).skip(1) =~= json_members_view(**rest));
            }
            if crate::text::str_eq(key.as_str(), k) {
                Some(value)
            } else {
                members_get(rest, k)
            }
        },
    }
}

/// Decode a chain status.
pub fn decode_chain(v: &JsonValue) -> (r: Option<ChainStatus>)
    ensures
        match r {
            Some(c) => dec_chain(json_view(*v)) == Some(c@),
            None => dec_chain(json_view(*v)) is None,
        },
{
    let members = match v {
        JsonValue::Obj(m) => &**m,
        _ => {
            return None;
        },
    };
    let latest_block_hash = match members_get(members, "latest_block_hash") {
        Some(JsonValue::Str(s)) => s.clone(),
        _ => {
            return None;
        },
    };
    let latest_app_hash = match members_get(members, "latest_app_hash") {
        Some(JsonValue::Str(s)) => s.clone(),
        _ => {
            return None;
        },
    };
    let latest_block_height = match members_get(members, "latest_block_height") {
        Some(JsonValue::UInt(n)) => *n,
        _ => {
            return None;
        },
    };
    let latest_block_time = match members_get(members, "latest_block_time") {
        Some(JsonValue::Str(s)) => s.clone(),
        _ => {
            return None;
        },
    };
    let catching_up = match members_get(members, "catching_up") {
        Some(JsonValue::Bool(b)) => *b,
        _ => {
            return None;
        },
    };
    Some(
        ChainStatus {
            latest_block_hash,
            latest_app_hash,
            latest_block_height,
            latest_block_time,
            catching_up,
        },
    )
}

/// Decode node information.
pub fn decode_node_info(v: &JsonValue) -> (r: Option<NodeInfo>)
    ensures
        match r {
            Some(n) => dec_node_info(json_view(*v)) == Some(n@),
            None => dec_node_info(json_view(*v)) is None,
        },
{
    let members = match v {
        JsonValue::Obj(m) => &**m,
        _ => {
            return None;
        },
    };
    let id = match members_get(members, "id") {
        Some(JsonValue::Str(s)) => s.clone(),
        _ => {
            return None;
        },
    };
    let moniker = match members_get(members, "moniker") {
        Some(JsonValue::Str(s)) => s.clone(),
        _ => {
            return None;
        },
    };
    let listen_addr = match members_get(members, "listen_addr") {
        Some(JsonValue::Str(s)) => s.clone(),
        _ => {
            return None;
        },
    };
    let network = match members_get(members, "network") {
        Some(JsonValue::Str(s)) => s.clone(),
        _ => {
            return None;
        },
    };
    let version = match members_get(members, "version") {
        Some(JsonValue::Str(s)) => s.clone(),
        _ => {
            return None;
        },
    };
    Some(NodeInfo { id, moniker, listen_addr, network, version })
}

/// Decode validator information.
pub fn decode_validator(v: &JsonValue) -> (r: Option<ValidatorInfo>)
    ensures
        match r {
            Some(info) => dec_validator(json_view(*v)) == Some(info@),
            None => dec_validator(json_view(*v)) is None,
        },
{
    let members = match v {
        JsonValue::Obj(m) => &**m,
        _ => {
            return None;
        },
    };
    let address = match members_get(members, "address") {
        Some(JsonValue::Str(s)) => s.clone(),
        _ => {
            return None;
        },
    };
    let voting_power = match members_get(members, "voting_power") {
        Some(JsonValue::UInt(n)) => *n,
        _ => {
            return None;
        },
    };
    let proposer_priority = match members_get(members, "proposer_priority") {
        Some(JsonValue::Int(n)) => *n,
        _ => {
            return None;
        },
    };
    Some(ValidatorInfo { address, voting_power, proposer_priority })
}

/// Decode an address.
pub fn decode_address(v: &JsonValue) -> (r: Option<Address>)
    ensures
        match r {
            Some(a) => dec_address(json_view(*v)) == Some(a@),
            None => dec_address(json_view(*v)) is None,
        },
{
    let members = match v {
        JsonValue::Obj(m) => &**m,
        _ => {
            return None;
        },
    };
    match members_get(members, "tcp") {
        Some(JsonValue::Obj(tm)) => {
            let pid = match members_get(tm, "peer_id") {
                Some(p) => p,
                _ => {
                    return None;
                },
            };
            let host = match members_get(tm, "host") {
                Some(JsonValue::Str(s)) => s.clone(),
                _ => {
                    return None;
                },
            };
            let port64 = match members_get(tm, "port") {
                Some(JsonValue::UInt(n)) => *n,
                _ => {
                    return None;
                },
            };
            if port64 > u16::MAX as u64 {
                return None;
            }
            let port = port64 as u16;
            match pid {
                JsonValue::Null => Some(Address::Tcp { peer_id: None, host, port }),
                JsonValue::Str(id) => Some(
                    Address::Tcp { peer_id: Some(id.clone()), host, port },
                ),
                _ => None,
            }
        },
        _ => {
            match members_get(members, "unix") {
                Some(JsonValue::Obj(um)) => {
                    match members_get(um, "path") {
                        Some(JsonValue::Str(path)) => Some(
                            Address::Unix { path: path.clone() },
                        ),
                        _ => None,
                    }
                },
                _ => None,
            }
        },
    }
}

/// Decode a connection status.
pub fn decode_connection(v: &JsonValue) -> (r: Option<ConnectionStatus>)
    ensures
        match r {
            Some(c) => dec_connection(json_view(*v)) == Some(c),
            None => dec_connection(json_view(*v)) is None,
        },
{
    match v {
        JsonValue::Str(s) => {
            if crate::text::str_eq(s.as_str(), "out") {
                Some(ConnectionStatus::Out)
            } else if crate::text::str_eq(s.as_str(), "in") {
                Some(ConnectionStatus::In)
            } else if crate::text::str_eq(s.as_str(), "none") {
                Some(ConnectionStatus::Disconnected)
            } else {
                None
            }
        },
        _ => None,
    }
}

/// Decode a peer.
pub fn decode_peer(v: &JsonValue) -> (r: Option<crate::monitor::net_info::Peer>)
    ensures
        match r {
            Some(p) => dec_peer(json_view(*v)) == Some(p@),
            None => dec_peer(json_view(*v)) is None,
        },
{
    let members = match v {
        JsonValue::Obj(m) => &**m,
        _ => {
            return None;
        },
    };
    let addr_json = match members_get(members, "addr") {
        Some(a) => a,
        None => {
            return None;
        },
    };
    let connection_json = match members_get(members, "connection") {
        Some(c) => c,
        None => {
            return None;
        },
    };
    let persistent = match members_get(members, "persistent") {
        Some(JsonValue::Bool(b)) => *b,
        _ => {
            return None;
        },
    };
    let private = match members_get(members, "private") {
        Some(JsonValue::Bool(b)) => *b,
        _ => {
            return None;
        },
    };
    let addr = match decode_address(addr_json) {
        Some(a) => a,
        None => {
            return None;
        },
    };
    let connection = match decode_connection(connection_json) {
        Some(c) => c,
        None => {
            return None;
        },
    };
    Some(crate::monitor::net_info::Peer { addr, connection, persistent, private })
}

/// Decode a peer array.
fn decode_peers_list(l: &JsonList) -> (r: Option<Vec<crate::monitor::net_info::Peer>>)
    ensures
        match r {
            Some(ps) => dec_peers(json_list_view(*l)) matches Some(s) && ps.deep_view() == s,
            None => dec_peers(json_list_view(*l)) is None,
        },
    decreases *l,
{
    match l {
        JsonList::Nil => {
            let out: Vec<crate::monitor::net_info::Peer> = Vec::new();
            proof {
                assert(out.deep_view() =~= Seq::<PeerView>::empty());
            }
            Some(out)
        },
        JsonList::Cons(v, rest) => {
            proof {
                assert(json_list_view(*l)[0] == json_view(*v));
                assert(json_list_view(*l).skip(1) =~= json_list_view(**rest));
            }
            let p = match decode_peer(v) {
                Some(p) => p,
                None => {
                    return None;
                },
            };
            let mut ps = match decode_peers_list(rest) {
                Some(ps) => ps,
                None => {
                    return None;
                },
            };
            let ghost tail = ps.deep_view();
            ps.insert(0, p);
            proof {
                assert(ps.deep_view() =~= seq![p@] + tail);
            }
            Some(ps)
        },
    }
}

/// Decode one attribute's values.
fn decode_attr_values(l: &JsonList) -> (r: Option<Vec<String>>)
    ensures
        match r {
            Some(vs) => dec_attr_values(json_list_view(*l)) matches Some(s) && vs.deep_view()
                == s,
            None => dec_attr_values(json_list_view(*l)) is None,
        },
    decreases *l,
{
    match l {
        JsonList::Nil => {
            let out: Vec<String> = Vec::new();
            proof {
                assert(out.deep_view() =~= Seq::<Seq<char>>::empty());
            }
            Some(out)
        },
        JsonList::Cons(v, rest) => {
            proof {
                assert(json_list_view(*l)[0] == json_view(*v));
                assert(json_list_view(*l).skip(1) =~= json_list_view(**rest));
            }
            let value = match v {
                JsonValue::Str(s) => s.clone(),
                _ => {
                    return None;
                },
            };
            let mut vs = match decode_attr_values(rest) {
                Some(vs) => vs,
                None => {
                    return None;
                },
            };
            let ghost tail = vs.deep_view();
            vs.insert(0, value);
            proof {
                assert(vs.deep_view() =~= seq![vs@[0]@] + tail);
            }
            Some(vs)
        },
    }
}

/// Decode an attribute bag.
fn decode_attributes(m: &JsonMembers) -> (r: Option<Attributes>)
    ensures
        match r {
            Some(bag) => dec_attributes(json_members_view(*m)) == Some(bag@),
            None => dec_attributes(json_members_view(*m)) is None,
        },
    decreases *m,
{
    match m {
        JsonMembers::Nil => {
            let bag = Attributes::new();
            Some(bag)
        },
        JsonMembers::Cons(key, value, rest) => {
            proof {
                assert(json_members_view(*m)[0] == (key@, json_view(*value)));
                assert(json_members_view(*m).skip(1) =~= json_members_view(**rest));
            }
            let list = match value {
                JsonValue::Arr(l) => &**l,
                _ => {
                    return None;
                },
            };
            let values = match decode_attr_values(list) {
                Some(vs) => vs,
                None => {
                    return None;
                },
            };
            let mut bag = match decode_attributes(rest) {
                Some(bag) => bag,
                None => {
                    return None;
                },
            };
            let ghost tail = bag@;
            let ghost gvalues = values.deep_view();
            let ghost prev_entries = bag.entries@;
            bag.entries.insert(0, (key.clone(), values));
            proof {
                assert(bag@.len() == tail.len() + 1);
                assert(bag@[0].0 == key@);
                assert(bag@[0].1 =~= gvalues);
                assert(bag@[0] == (key@, gvalues));
                assert forall|j: int| 1 <= j < bag@.len() implies #[trigger] bag@[j] == tail[j
                    - 1] by {
                    assert(bag.entries@[j] == prev_entries[j - 1]);
                    assert(bag@[j].0 == tail[j - 1].0);
                    assert(bag@[j].1 =~= tail[j - 1].1);
                    assert(bag@[j] == (bag@[j].0, bag@[j].1));
                    assert(tail[j - 1] == (tail[j - 1].0, tail[j - 1].1));
                }
                assert(bag@ =~= seq![(key@, gvalues)] + tail);
            }
            Some(bag)
        },
    }
}

/// Decode an IBC event.
pub fn decode_event(v: &JsonValue) -> (r: Option<IbcEvent>)
    ensures
        match r {
            Some(e) => dec_event(json_view(*v)) == Some(e@),
            None => dec_event(json_view(*v)) is None,
        },
{
    let members = match v {
        JsonValue::Obj(m) => &**m,
        _ => {
            return None;
        },
    };
    let type_str = match members_get(members, "type") {
        Some(JsonValue::Str(s)) => s.clone(),
        _ => {
            return None;
        },
    };
    let attr_members = match members_get(members, "attributes") {
        Some(JsonValue::Obj(am)) => &**am,
        _ => {
            return None;
        },
    };
    let kind = match IbcEventKind::classify(type_str.as_str()) {
        Some(kind) => kind,
        None => {
            return None;
        },
    };
    let attributes = match decode_attributes(attr_members) {
        Some(bag) => bag,
        None => {
            return None;
        },
    };
    Some(IbcEvent { kind, attributes })
}

/// Decode one message.
pub fn decode_message(v: &JsonValue) -> (r: Option<Message>)
    ensures
        match r {
            Some(m) => dec_message(json_view(*v)) == Some(m@),
            None => dec_message(json_view(*v)) is None,
        },
{
    let members = match v {
        JsonValue::Obj(m) => &**m,
        _ => {
            return None;
        },
    };
    let (key, value) = match members {
        JsonMembers::Cons(key, value, rest) => {
            match &**rest {
                JsonMembers::Nil => {
                    proof {
                        assert(json_members_view(*members).skip(1) =~= json_members_view(
                            **rest,
                        ));
                        assert(json_members_view(*members).len() == 1);
                        assert(json_members_view(*members)[0] == (key@, json_view(*value)));
                    }
                    (key, value)
                },
                _ => {
                    proof {
                        assert(json_members_view(*members).skip(1) =~= json_members_view(
                            **rest,
                        ));
                        assert(json_members_view(*members).len() != 1);
                    }
                    return None;
                },
            }
        },
        JsonMembers::Nil => {
            return None;
        },
    };
    if crate::text::str_eq(key.as_str(), "chain") {
        match decode_chain(value) {
            Some(c) => Some(Message::Chain(Box::new(c))),
            None => None,
        }
    } else if crate::text::str_eq(key.as_str(), "node") {
        match decode_node_info(value) {
            Some(n) => Some(Message::Node(Box::new(n))),
            None => None,
        }
    } else if crate::text::str_eq(key.as_str(), "validator") {
        match decode_validator(value) {
            Some(info) => Some(Message::Validator(Box::new(info))),
            None => None,
        }
    } else if crate::text::str_eq(key.as_str(), "peers") {
        let list = match value {
            JsonValue::Arr(l) => &**l,
            _ => {
                return None;
            },
        };
        match decode_peers_list(list) {
            Some(ps) => Some(Message::Peers(ps)),
            None => None,
        }
    } else if crate::text::str_eq(key.as_str(), "event_ibc") {
        match decode_event(value) {
            Some(e) => Some(Message::EventIBC(e)),
            None => None,
        }
    } else {
        None
    }
}

/// Decode a message array.
fn decode_messages_list(l: &JsonList) -> (r: Option<Vec<Message>>)
    ensures
        match r {
            Some(ms) => dec_messages(json_list_view(*l)) matches Some(s) && ms.deep_view() == s,
            None => dec_messages(json_list_view(*l)) is None,
        },
    decreases *l,
{
    match l {
        JsonList::Nil => {
            let out: Vec<Message> = Vec::new();
            proof {
                assert(out.deep_view() =~= Seq::<MessageView>::empty());
            }
            Some(out)
        },
        JsonList::Cons(v, rest) => {
            proof {
                assert(json_list_view(*l)[0] == json_view(*v));
                assert(json_list_view(*l).skip(1) =~= json_list_view(**rest));
            }
            let m = match decode_message(v) {
                Some(m) => m,
                None => {
                    return None;
                },
            };
            let mut ms = match decode_messages_list(rest) {
                Some(ms) => ms,
                None => {
                    return None;
                },
            };
            let ghost tail = ms.deep_view();
            ms.insert(0, m);
            proof {
                assert(ms.deep_view() =~= seq![ms@[0]@] + tail);
            }
            Some(ms)
        },
    }
}

/// Decode an envelope from its JSON tree.
pub fn decode_envelope(v: &JsonValue) -> (r: Option<crate::message::Envelope>)
    ensures
        match r {
            Some(e) => dec_envelope(json_view(*v)) == Some(e@),
            None => dec_envelope(json_view(*v)) is None,
        },
{
    let members = match v {
        JsonValue::Obj(m) => &**m,
        _ => {
            return None;
        },
    };
    let network = match members_get(members, "network") {
        Some(JsonValue::Str(s)) => s.clone(),
        _ => {
            return None;
        },
    };
    let node = match members_get(members, "node") {
        Some(JsonValue::Str(s)) => s.clone(),
        _ => {
            return None;
        },
    };
    let ts = match members_get(members, "ts") {
        Some(JsonValue::Str(s)) => s.clone(),
        _ => {
            return None;
        },
    };
    let list = match members_get(members, "msg") {
        Some(JsonValue::Arr(l)) => &**l,
        _ => {
            return None;
        },
    };
    let msg = match decode_messages_list(list) {
        Some(ms) => ms,
        None => {
            return None;
        },
    };
    Some(crate::message::Envelope { network, node, ts, msg })
}

/// Encode a node entry.
pub fn encode_node_entry(n: &crate::network::tendermint::Node) -> (r: JsonValue)
    ensures
        json_view(r) == enc_node_entry(n@),
{
    let m = members_cons(
        "id",
        JsonValue::Str(n.id.clone()),
        members_cons(
            "moniker",
            JsonValue::Str(n.moniker.clone()),
            members_cons(
                "first_seen",
                JsonValue::UInt(n.first_seen),
                members_cons("last_seen", JsonValue::UInt(n.last_seen), JsonMembers::Nil),
            ),
        ),
    );
    let r = JsonValue::Obj(Box::new(m));
    proof {
        assert(json_members_view(m) =~= enc_node_entry(n@)->Obj_0);
        assert(json_view(r) == enc_node_entry(n@));
    }
    r
}

/// Encode a node entry list.
fn encode_node_entries(ns: &Vec<crate::network::tendermint::Node>) -> (r: JsonList)
    ensures
        json_list_view(r) =~= enc_node_entries(ns.deep_view()),
{
    let ghost target = enc_node_entries(ns.deep_view());
    let mut acc = JsonList::Nil;
    let mut i: usize = ns.len();
    proof {
        assert(target.skip(i as int) =~= Seq::<JsonVal>::empty());
        assert(json_list_view(acc) =~= Seq::<JsonVal>::empty());
    }
    while i > 0
        invariant
            i <= ns@.len(),
            target == enc_node_entries(ns.deep_view()),
            target.len() == ns@.len(),
            json_list_view(acc) =~= target.skip(i as int),
        decreases i,
    {
        i = i - 1;
        let encoded = encode_node_entry(&ns[i]);
        proof {
            assert(ns.deep_view()[i as int] == ns@[i as int]@);
            assert(target[i as int] == enc_node_entry(ns.deep_view()[i as int]));
        }
        acc = list_cons(encoded, acc);
        proof {
            assert(target.skip(i as int) =~= seq![target[i as int]] + target.skip(i as int + 1));
        }
    }
    proof {
        assert(target.skip(0) =~= target);
    }
    acc
}

/// Encode a state snapshot as its JSON tree.
pub fn encode_state(s: &crate::network::tendermint::State) -> (r: JsonValue)
    ensures
        json_view(r) == enc_state(s@),
{
    let nodes = encode_node_entries(&s.nodes);
    let peers = encode_peers(&s.peers);
    let chain: JsonValue = match &s.chain {
        Some(c) => encode_chain(c),
        None => JsonValue::Null,
    };
    let validators: JsonValue = match &s.validators {
        Some(v) => encode_validator(v),
        None => JsonValue::Null,
    };
    let m = members_cons(
        "nodes",
        JsonValue::Arr(Box::new(nodes)),
        members_cons(
            "peers",
            JsonValue::Arr(Box::new(peers)),
            members_cons("chain", chain, members_cons("validators", validators, JsonMembers::Nil)),
        ),
    );
    let r = JsonValue::Obj(Box::new(m));
    proof {
        assert(enc_state(s@) is Obj);
        let ems = enc_state(s@)->Obj_0;
        assert(ems[0].1 == JsonVal::Arr(json_list_view(nodes)));
        assert(ems[1].1 == JsonVal::Arr(json_list_view(peers)));
        assert(json_members_view(m) =~= ems);
        assert(json_view(r) == enc_state(s@));
    }
    r
}

/// Decode a node entry.
pub fn decode_node_entry(v: &JsonValue) -> (r: Option<crate::network::tendermint::Node>)
    ensures
        match r {
            Some(n) => dec_node_entry(json_view(*v)) == Some(n@),
            None => dec_node_entry(json_view(*v)) is None,
        },
{
    let members = match v {
        JsonValue::Obj(m) => &**m,
        _ => {
            return None;
        },
    };
    let id = match members_get(members, "id") {
        Some(JsonValue::Str(s)) => s.clone(),
        _ => {
            return None;
        },
    };
    let moniker = match members_get(members, "moniker") {
        Some(JsonValue::Str(s)) => s.clone(),
        _ => {
            return None;
        },
    };
    let first_seen = match members_get(members, "first_seen") {
        Some(JsonValue::UInt(n)) => *n,
        _ => {
            return None;
        },
    };
    let last_seen = match members_get(members, "last_seen") {
        Some(JsonValue::UInt(n)) => *n,
        _ => {
            return None;
        },
    };
    Some(crate::network::tendermint::Node { id, moniker, first_seen, last_seen })
}

/// Decode a node entry array.
fn decode_node_entries_list(l: &JsonList) -> (r: Option<
    Vec<crate::network::tendermint::Node>,
>)
    ensures
        match r {
            Some(ns) => dec_node_entries(json_list_view(*l)) matches Some(s) && ns.deep_view()
                == s,
            None => dec_node_entries(json_list_view(*l)) is None,
        },
    decreases *l,
{
    match l {
        JsonList::Nil => {
            let out: Vec<crate::network::tendermint::Node> = Vec::new();
            proof {
                assert(out.deep_view() =~= Seq::<NodeView>::empty());
            }
            Some(out)
        },
        JsonList::Cons(v, rest) => {
            proof {
                assert(json_list_view(*l)[0] == json_view(*v));
                assert(json_list_view(*l).skip(1) =~= json_list_view(**rest));
            }
            let n = match decode_node_entry(v) {
                Some(n) => n,
                None => {
                    return None;
                },
            };
            let mut ns = match decode_node_entries_list(rest) {
                Some(ns) => ns,
                None => {
                    return None;
                },
            };
            let ghost tail = ns.deep_view();
            ns.insert(0, n);
            proof {
                assert(ns.deep_view() =~= seq![ns@[0]@] + tail);
            }
            Some(ns)
        },
    }
}

/// Decode a state snapshot from its JSON tree.
pub fn decode_state(v: &JsonValue) -> (r: Option<crate::network::tendermint::State>)
    ensures
        match r {
            Some(s) => dec_state(json_view(*v)) == Some(s@),
            None => dec_state(json_view(*v)) is None,
        },
{
    let members = match v {
        JsonValue::Obj(m) => &**m,
        _ => {
            return None;
        },
    };
    let node_list = match members_get(members, "nodes") {
        Some(JsonValue::Arr(l)) => &**l,
        _ => {
            return None;
        },
    };
    let peer_list = match members_get(members, "peers") {
        Some(JsonValue::Arr(l)) => &**l,
        _ => {
            return None;
        },
    };
    let chain_json = match members_get(members, "chain") {
        Some(c) => c,
        None => {
            return None;
        },
    };
    let validators_json = match members_get(members, "validators") {
        Some(vj) => vj,
        None => {
            return None;
        },
    };
    let nodes = match decode_node_entries_list(node_list) {
        Some(ns) => ns,
        None => {
            return None;
        },
    };
    let peers = match decode_peers_list(peer_list) {
        Some(ps) => ps,
        None => {
            return None;
        },
    };
    let chain: Option<ChainStatus> = match chain_json {
        JsonValue::Null => None,
        _ => match decode_chain(chain_json) {
            Some(c) => Some(c),
            None => {
                return None;
            },
        },
    };
    let validators: Option<ValidatorInfo> = match validators_json {
        JsonValue::Null => None,
        _ => match decode_validator(validators_json) {
            Some(info) => Some(info),
            None => {
                return None;
            },
        },
    };
    Some(crate::network::tendermint::State { nodes, peers, chain, validators })
}

// ------------------------------------------------------------------
// Round trips: decoding inverts encoding, for every variant.
// ------------------------------------------------------------------
/// When the keys before position `p` all differ from the key at `p`,
/// lookup of that key finds exactly the member at `p`.
proof fn lemma_obj_get_at(ms: Seq<(Seq<char>, JsonVal)>, p: int)
    requires
        0 <= p < ms.len(),
        forall|q: int| 0 <= q < p ==> (#[trigger] ms[q]).0 != ms[p].0,
    ensures
        obj_get(ms, ms[p].0) == Some(ms[p].1),
    decreases p,
{
    if p == 0 {
    } else {
        assert(ms[0].0 != ms[p].0);
        assert(ms.skip(1)[p - 1] == ms[p]);
        assert forall|q: int|
            0 <= q < p - 1 implies (#[trigger] ms.skip(1)[q]).0 != ms.skip(1)[p - 1].0 by {
            assert(ms.skip(1)[q] == ms[q + 1]);
        }
        lemma_obj_get_at(ms.skip(1), p - 1);
    }
}

/// A chain status survives the JSON round trip.
pub proof fn lemma_chain_round_trip(c: ChainStatusView)
    ensures
        dec_chain(enc_chain(c)) == Some(c),
{
    reveal_strlit("latest_block_hash");
    reveal_strlit("latest_app_hash");
    reveal_strlit("latest_block_height");
    reveal_strlit("latest_block_time");
    reveal_strlit("catching_up");
    let ms = seq![
        ("latest_block_hash"@, JsonVal::Str(c.latest_block_hash)),
        ("latest_app_hash"@, JsonVal::Str(c.latest_app_hash)),
        ("latest_block_height"@, JsonVal::UInt(c.latest_block_height)),
        ("latest_block_time"@, JsonVal::Str(c.latest_block_time)),
        ("catching_up"@, JsonVal::Bool(c.catching_up)),
    ];
    assert(enc_chain(c) == JsonVal::Obj(ms));
    assert("latest_block_hash"@.len() == 17);
    assert("latest_app_hash"@.len() == 15);
    assert("latest_block_height"@.len() == 19);
    assert("latest_block_time"@.len() == 17);
    assert("catching_up"@.len() == 11);
    assert("latest_block_hash"@[13] != "latest_block_time"@[13]);
    assert(ms[0].0 != ms[1].0);
    assert(ms[0].0 != ms[2].0);
    assert(ms[1].0 != ms[2].0);
    assert(ms[0].0 != ms[3].0);
    assert(ms[1].0 != ms[3].0);
    assert(ms[2].0 != ms[3].0);
    assert(ms[0].0 != ms[4].0);
    assert(ms[1].0 != ms[4].0);
    assert(ms[2].0 != ms[4].0);
    assert(ms[3].0 != ms[4].0);
    lemma_obj_get_at(ms, 0);
    lemma_obj_get_at(ms, 1);
    lemma_obj_get_at(ms, 2);
    lemma_obj_get_at(ms, 3);
    lemma_obj_get_at(ms, 4);
    assert(dec_chain(enc_chain(c)) == Some(c));
}

/// Node information survives the JSON round trip.
pub proof fn lemma_node_info_round_trip(n: NodeInfoView)
    ensures
        dec_node_info(enc_node_info(n)) == Some(n),
{
    reveal_strlit("id");
    reveal_strlit("moniker");
    reveal_strlit("listen_addr");
    reveal_strlit("network");
    reveal_strlit("version");
    let ms = seq![
        ("id"@, JsonVal::Str(n.id)),
        ("moniker"@, JsonVal::Str(n.moniker)),
        ("listen_addr"@, JsonVal::Str(n.listen_addr)),
        ("network"@, JsonVal::Str(n.network)),
        ("version"@, JsonVal::Str(n.version)),
    ];
    assert(enc_node_info(n) == JsonVal::Obj(ms));
    assert("id"@.len() == 2);
    assert("moniker"@.len() == 7);
    assert("listen_addr"@.len() == 11);
    assert("network"@.len() == 7);
    assert("version"@.len() == 7);
    assert("moniker"@[0] != "network"@[0]);
    assert("moniker"@[0] != "version"@[0]);
    assert("network"@[0] != "version"@[0]);
    assert(ms[0].0 != ms[1].0);
    assert(ms[0].0 != ms[2].0);
    assert(ms[1].0 != ms[2].0);
    assert(ms[0].0 != ms[3].0);
    assert(ms[1].0 != ms[3].0);
    assert(ms[2].0 != ms[3].0);
    assert(ms[0].0 != ms[4].0);
    assert(ms[1].0 != ms[4].0);
    assert(ms[2].0 != ms[4].0);
    assert(ms[3].0 != ms[4].0);
    lemma_obj_get_at(ms, 0);
    lemma_obj_get_at(ms, 1);
    lemma_obj_get_at(ms, 2);
    lemma_obj_get_at(ms, 3);
    lemma_obj_get_at(ms, 4);
    assert(dec_node_info(enc_node_info(n)) == Some(n));
}

/// Validator information survives the JSON round trip.
pub proof fn lemma_validator_round_trip(v: ValidatorInfoView)
    ensures
        dec_validator(enc_validator(v)) == Some(v),
{
    reveal_strlit("address");
    reveal_strlit("voting_power");
    reveal_strlit("proposer_priority");
    let ms = seq![
        ("address"@, JsonVal::Str(v.address)),
        ("voting_power"@, JsonVal::UInt(v.voting_power)),
        ("proposer_priority"@, JsonVal::Int(v.proposer_priority)),
    ];
    assert(enc_validator(v) == JsonVal::Obj(ms));
    assert("address"@.len() == 7);
    assert("voting_power"@.len() == 12);
    assert("proposer_priority"@.len() == 17);
    assert(ms[0].0 != ms[1].0);
    assert(ms[0].0 != ms[2].0);
    assert(ms[1].0 != ms[2].0);
    lemma_obj_get_at(ms, 0);
    lemma_obj_get_at(ms, 1);
    lemma_obj_get_at(ms, 2);
    assert(dec_validator(enc_validator(v)) == Some(v));
}

/// An address survives the JSON round trip.
pub proof fn lemma_address_round_trip(a: AddressView)
    ensures
        dec_address(enc_address(a)) == Some(a),
{
    reveal_strlit("tcp");
    reveal_strlit("unix");
    reveal_strlit("peer_id");
    reveal_strlit("host");
    reveal_strlit("port");
    reveal_strlit("path");
    match a {
        AddressView::Tcp { peer_id, host, port } => {
            let pid = match peer_id {
                Some(id) => JsonVal::Str(id),
                None => JsonVal::Null,
            };
            let tms = seq![
                ("peer_id"@, pid),
                ("host"@, JsonVal::Str(host)),
                ("port"@, JsonVal::UInt(port as u64)),
            ];
            let ms = seq![("tcp"@, JsonVal::Obj(tms))];
            assert(a == (AddressView::Tcp { peer_id, host, port }));
            match peer_id {
                Some(id) => {
                    assert(pid == JsonVal::Str(id));
                    assert(enc_address(a) is Obj);
                    let ems = enc_address(a)->Obj_0;
                    assert(ems.len() == 1);
                    assert(ems[0].0 == "tcp"@);
                    assert(ems[0].1 is Obj);
                    assert(ems[0].1->Obj_0 =~= tms);
                    assert(ems[0].1 == JsonVal::Obj(tms));
                    assert(ems =~= ms);
                    assert(enc_address(a) == JsonVal::Obj(ms));
                },
                None => {
                    assert(pid == JsonVal::Null);
                    assert(enc_address(a) is Obj);
                    let ems = enc_address(a)->Obj_0;
                    assert(ems.len() == 1);
                    assert(ems[0].0 == "tcp"@);
                    assert(ems[0].1 is Obj);
                    assert(ems[0].1->Obj_0 =~= tms);
                    assert(ems[0].1 == JsonVal::Obj(tms));
                    assert(ems =~= ms);
                    assert(enc_address(a) == JsonVal::Obj(ms));
                },
            }
            assert("peer_id"@.len() == 7);
            assert("host"@.len() == 4);
            assert("port"@.len() == 4);
            assert("host"@[0] != "port"@[0]);
            assert(tms[0].0 != tms[1].0);
            assert(tms[0].0 != tms[2].0);
            assert(tms[1].0 != tms[2].0);
            lemma_obj_get_at(ms, 0);
            lemma_obj_get_at(tms, 0);
            lemma_obj_get_at(tms, 1);
            lemma_obj_get_at(tms, 2);
            assert(dec_address(enc_address(a)) == Some(a));
        },
        AddressView::Unix { path } => {
            let ums = seq![("path"@, JsonVal::Str(path))];
            let ms = seq![("unix"@, JsonVal::Obj(ums))];
            assert(enc_address(a) is Obj);
            let ems = enc_address(a)->Obj_0;
            assert(ems.len() == 1);
            assert(ems[0].0 == "unix"@);
            assert(ems[0].1 is Obj);
            assert(ems[0].1->Obj_0 =~= ums);
            assert(ems[0].1 == JsonVal::Obj(ums));
            assert(ems =~= ms);
            assert(enc_address(a) == JsonVal::Obj(ms));
            assert("unix"@.len() == 4);
            assert("tcp"@.len() == 3);
            assert(ms[0].0 != "tcp"@);
            assert(ms.skip(1) =~= Seq::<(Seq<char>, JsonVal)>::empty());
            assert(obj_get(ms.skip(1), "tcp"@) is None);
            assert(obj_get(ms, "tcp"@) is None);
            lemma_obj_get_at(ms, 0);
            lemma_obj_get_at(ums, 0);
            assert(dec_address(enc_address(a)) == Some(a));
        },
    }
}

/// A connection status survives the JSON round trip.
pub proof fn lemma_connection_round_trip(c: ConnectionStatus)
    ensures
        dec_connection(enc_connection(c)) == Some(c),
{
    reveal_strlit("out");
    reveal_strlit("in");
    reveal_strlit("none");
    assert("out"@.len() == 3);
    assert("in"@.len() == 2);
    assert("in"@ != "out"@);
    assert("none"@ != "out"@);
    assert("none"@ != "in"@);
    match c {
        ConnectionStatus::Out => {
            assert(dec_connection(enc_connection(c)) == Some(c));
        },
        ConnectionStatus::In => {
            assert(dec_connection(enc_connection(c)) == Some(c));
        },
        ConnectionStatus::Disconnected => {
            assert(dec_connection(enc_connection(c)) == Some(c));
        },
    }
}

/// A peer survives the JSON round trip.
pub proof fn lemma_peer_round_trip(p: PeerView)
    ensures
        dec_peer(enc_peer(p)) == Some(p),
{
    reveal_strlit("addr");
    reveal_strlit("connection");
    reveal_strlit("persistent");
    reveal_strlit("private");
    lemma_address_round_trip(p.addr);
    lemma_connection_round_trip(p.connection);
    let ms = seq![
        ("addr"@, enc_address(p.addr)),
        ("connection"@, enc_connection(p.connection)),
        ("persistent"@, JsonVal::Bool(p.persistent)),
        ("private"@, JsonVal::Bool(p.private)),
    ];
    assert(enc_peer(p) == JsonVal::Obj(ms));
    assert("addr"@.len() == 4);
    assert("connection"@.len() == 10);
    assert("persistent"@.len() == 10);
    assert("private"@.len() == 7);
    assert("connection"@[0] != "persistent"@[0]);
    assert(ms[0].0 != ms[1].0);
    assert(ms[0].0 != ms[2].0);
    assert(ms[1].0 != ms[2].0);
    assert(ms[0].0 != ms[3].0);
    assert(ms[1].0 != ms[3].0);
    assert(ms[2].0 != ms[3].0);
    lemma_obj_get_at(ms, 0);
    lemma_obj_get_at(ms, 1);
    lemma_obj_get_at(ms, 2);
    lemma_obj_get_at(ms, 3);
    assert(dec_peer(enc_peer(p)) == Some(p));
}

/// A peer list survives the JSON round trip.
pub proof fn lemma_peers_round_trip(ps: Seq<PeerView>)
    ensures
        dec_peers(enc_peers(ps)) == Some(ps),
    decreases ps.len(),
{
    if ps.len() == 0 {
        assert(enc_peers(ps) =~= Seq::<JsonVal>::empty());
        assert(ps =~= Seq::<PeerView>::empty());
    } else {
        lemma_peer_round_trip(ps[0]);
        lemma_peers_round_trip(ps.skip(1));
        assert(enc_peers(ps).skip(1) =~= enc_peers(ps.skip(1)));
        assert(seq![ps[0]] + ps.skip(1) =~= ps);
    }
}

/// Classifying a kind's type string yields the kind back.
pub proof fn lemma_kind_round_trip(k: IbcEventKind)
    ensures
        spec_classify(enc_kind_text(k)) == Some(k),
{
    reveal_strlit("create_client");
    reveal_strlit("update_client");
    reveal_strlit("client_misbehaviour");
    reveal_strlit("connection_open_init");
    reveal_strlit("connection_open_try");
    reveal_strlit("connection_open_ack");
    reveal_strlit("connection_open_confirm");
    reveal_strlit("send_packet");
    reveal_strlit("recv_packet");
    reveal_strlit("opaque_packet");
    reveal_strlit("transfer");
    assert("create_client"@.len() == 13);
    assert("update_client"@.len() == 13);
    assert("client_misbehaviour"@.len() == 19);
    assert("connection_open_init"@.len() == 20);
    assert("connection_open_try"@.len() == 19);
    assert("connection_open_ack"@.len() == 19);
    assert("connection_open_confirm"@.len() == 23);
    assert("send_packet"@.len() == 11);
    assert("recv_packet"@.len() == 11);
    assert("opaque_packet"@.len() == 13);
    assert("transfer"@.len() == 8);
    assert("create_client"@[0] != "update_client"@[0]);
    assert("client_misbehaviour"@[1] != "connection_open_try"@[1]);
    assert("client_misbehaviour"@[1] != "connection_open_ack"@[1]);
    assert("connection_open_try"@[16] != "connection_open_ack"@[16]);
    assert("send_packet"@[0] != "recv_packet"@[0]);
    assert("create_client"@[0] != "opaque_packet"@[0]);
    assert("update_client"@[0] != "opaque_packet"@[0]);
    match k {
        IbcEventKind::CreateClient => {
            assert(spec_classify(enc_kind_text(k)) == Some(k));
        },
        IbcEventKind::UpdateClient => {
            assert(spec_classify(enc_kind_text(k)) == Some(k));
        },
        IbcEventKind::ClientMisbehavior => {
            assert(spec_classify(enc_kind_text(k)) == Some(k));
        },
        IbcEventKind::OpenInitConnection => {
            assert(spec_classify(enc_kind_text(k)) == Some(k));
        },
        IbcEventKind::OpenTryConnection => {
            assert(spec_classify(enc_kind_text(k)) == Some(k));
        },
        IbcEventKind::OpenAckConnection => {
            assert(spec_classify(enc_kind_text(k)) == Some(k));
        },
        IbcEventKind::OpenConfirmConnection => {
            assert(spec_classify(enc_kind_text(k)) == Some(k));
        },
        IbcEventKind::SendPacketChannel => {
            assert(spec_classify(enc_kind_text(k)) == Some(k));
        },
        IbcEventKind::RecievePacketChannel => {
            assert(spec_classify(enc_kind_text(k)) == Some(k));
        },
        IbcEventKind::OpaquePacket => {
            assert(spec_classify(enc_kind_text(k)) == Some(k));
        },
        IbcEventKind::PacketTransfer => {
            assert(spec_classify(enc_kind_text(k)) == Some(k));
        },
    }
}

/// One attribute's values survive the JSON round trip.
pub proof fn lemma_attr_values_round_trip(vs: Seq<Seq<char>>)
    ensures
        dec_attr_values(enc_attr_values(vs)) == Some(vs),
    decreases vs.len(),
{
    if vs.len() == 0 {
        assert(enc_attr_values(vs) =~= Seq::<JsonVal>::empty());
        assert(vs =~= Seq::<Seq<char>>::empty());
    } else {
        lemma_attr_values_round_trip(vs.skip(1));
        assert(enc_attr_values(vs).skip(1) =~= enc_attr_values(vs.skip(1)));
        assert(seq![vs[0]] + vs.skip(1) =~= vs);
    }
}

/// An attribute bag survives the JSON round trip.
pub proof fn lemma_attributes_round_trip(bag: Seq<(Seq<char>, Seq<Seq<char>>)>)
    ensures
        dec_attributes(enc_attributes(bag)) == Some(bag),
    decreases bag.len(),
{
    if bag.len() == 0 {
        assert(enc_attributes(bag) =~= Seq::<(Seq<char>, JsonVal)>::empty());
        assert(bag =~= Seq::<(Seq<char>, Seq<Seq<char>>)>::empty());
    } else {
        lemma_attr_values_round_trip(bag[0].1);
        lemma_attributes_round_trip(bag.skip(1));
        assert(enc_attributes(bag).skip(1) =~= enc_attributes(bag.skip(1)));
        assert(seq![(bag[0].0, bag[0].1)] + bag.skip(1) =~= bag);
        assert(bag[0] == (bag[0].0, bag[0].1));
    }
}

/// An IBC event survives the JSON round trip.
pub proof fn lemma_event_round_trip(e: IbcEventView)
    ensures
        dec_event(enc_event(e)) == Some(e),
{
    reveal_strlit("type");
    reveal_strlit("attributes");
    lemma_kind_round_trip(e.kind);
    lemma_attributes_round_trip(e.attributes);
    let ms = seq![
        ("type"@, JsonVal::Str(enc_kind_text(e.kind))),
        ("attributes"@, JsonVal::Obj(enc_attributes(e.attributes))),
    ];
    assert(enc_event(e) == JsonVal::Obj(ms));
    assert("type"@.len() == 4);
    assert("attributes"@.len() == 10);
    assert(ms[0].0 != ms[1].0);
    lemma_obj_get_at(ms, 0);
    lemma_obj_get_at(ms, 1);
    assert(dec_event(enc_event(e)) == Some(e));
}

/// A message of any variant survives the JSON round trip.
pub proof fn lemma_message_round_trip(m: MessageView)
    ensures
        dec_message(enc_message(m)) == Some(m),
{
    reveal_strlit("chain");
    reveal_strlit("node");
    reveal_strlit("validator");
    reveal_strlit("peers");
    reveal_strlit("event_ibc");
    assert("chain"@.len() == 5);
    assert("node"@.len() == 4);
    assert("validator"@.len() == 9);
    assert("peers"@.len() == 5);
    assert("event_ibc"@.len() == 9);
    assert("chain"@[0] != "peers"@[0]);
    assert("validator"@[0] != "event_ibc"@[0]);
    match m {
        MessageView::Chain(c) => {
            lemma_chain_round_trip(c);
            assert(dec_message(enc_message(m)) == Some(m));
        },
        MessageView::Node(n) => {
            lemma_node_info_round_trip(n);
            assert(dec_message(enc_message(m)) == Some(m));
        },
        MessageView::Validator(v) => {
            lemma_validator_round_trip(v);
            assert(dec_message(enc_message(m)) == Some(m));
        },
        MessageView::Peers(ps) => {
            lemma_peers_round_trip(ps);
            assert(dec_message(enc_message(m)) == Some(m));
        },
        MessageView::EventIBC(e) => {
            lemma_event_round_trip(e);
            assert(dec_message(enc_message(m)) == Some(m));
        },
    }
}

/// A message list survives the JSON round trip.
pub proof fn lemma_messages_round_trip(ms: Seq<MessageView>)
    ensures
        dec_messages(enc_messages(ms)) == Some(ms),
    decreases ms.len(),
{
    if ms.len() == 0 {
        assert(enc_messages(ms) =~= Seq::<JsonVal>::empty());
        assert(ms =~= Seq::<MessageView>::empty());
    } else {
        lemma_message_round_trip(ms[0]);
        lemma_messages_round_trip(ms.skip(1));
        assert(enc_messages(ms).skip(1) =~= enc_messages(ms.skip(1)));
        assert(seq![ms[0]] + ms.skip(1) =~= ms);
    }
}

/// Every envelope — whatever mix of message variants it carries —
/// survives serialization to JSON and back unchanged.
pub proof fn lemma_envelope_round_trip(e: EnvelopeView)
    ensures
        dec_envelope(enc_envelope(e)) == Some(e),
{
    reveal_strlit("network");
    reveal_strlit("node");
    reveal_strlit("ts");
    reveal_strlit("msg");
    lemma_messages_round_trip(e.msg);
    let ms = seq![
        ("network"@, JsonVal::Str(e.network)),
        ("node"@, JsonVal::Str(e.node)),
        ("ts"@, JsonVal::Str(e.ts)),
        ("msg"@, JsonVal::Arr(enc_messages(e.msg))),
    ];
    assert(enc_envelope(e) == JsonVal::Obj(ms));
    assert("network"@.len() == 7);
    assert("node"@.len() == 4);
    assert("ts"@.len() == 2);
    assert("msg"@.len() == 3);
    assert(ms[0].0 != ms[1].0);
    assert(ms[0].0 != ms[2].0);
    assert(ms[1].0 != ms[2].0);
    assert(ms[0].0 != ms[3].0);
    assert(ms[1].0 != ms[3].0);
    assert(ms[2].0 != ms[3].0);
    lemma_obj_get_at(ms, 0);
    lemma_obj_get_at(ms, 1);
    lemma_obj_get_at(ms, 2);
    lemma_obj_get_at(ms, 3);
    assert(dec_envelope(enc_envelope(e)) == Some(e));
}

/// A node entry survives the JSON round trip.
pub proof fn lemma_node_entry_round_trip(n: NodeView)
    ensures
        dec_node_entry(enc_node_entry(n)) == Some(n),
{
    reveal_strlit("id");
    reveal_strlit("moniker");
    reveal_strlit("first_seen");
    reveal_strlit("last_seen");
    let ms = seq![
        ("id"@, JsonVal::Str(n.id)),
        ("moniker"@, JsonVal::Str(n.moniker)),
        ("first_seen"@, JsonVal::UInt(n.first_seen)),
        ("last_seen"@, JsonVal::UInt(n.last_seen)),
    ];
    assert(enc_node_entry(n) == JsonVal::Obj(ms));
    assert("id"@.len() == 2);
    assert("moniker"@.len() == 7);
    assert("first_seen"@.len() == 10);
    assert("last_seen"@.len() == 9);
    assert(ms[0].0 != ms[1].0);
    assert(ms[0].0 != ms[2].0);
    assert(ms[1].0 != ms[2].0);
    assert(ms[0].0 != ms[3].0);
    assert(ms[1].0 != ms[3].0);
    assert(ms[2].0 != ms[3].0);
    lemma_obj_get_at(ms, 0);
    lemma_obj_get_at(ms, 1);
    lemma_obj_get_at(ms, 2);
    lemma_obj_get_at(ms, 3);
    assert(dec_node_entry(enc_node_entry(n)) == Some(n));
}

/// A node entry list survives the JSON round trip.
pub proof fn lemma_node_entries_round_trip(ns: Seq<NodeView>)
    ensures
        dec_node_entries(enc_node_entries(ns)) == Some(ns),
    decreases ns.len(),
{
    if ns.len() == 0 {
        assert(enc_node_entries(ns) =~= Seq::<JsonVal>::empty());
        assert(ns =~= Seq::<NodeView>::empty());
    } else {
        lemma_node_entry_round_trip(ns[0]);
        lemma_node_entries_round_trip(ns.skip(1));
        assert(enc_node_entries(ns).skip(1) =~= enc_node_entries(ns.skip(1)));
        assert(seq![ns[0]] + ns.skip(1) =~= ns);
    }
}

/// Every state snapshot survives serialization to JSON and back
/// unchanged.
pub proof fn lemma_state_round_trip(s: StateView)
    ensures
        dec_state(enc_state(s)) == Some(s),
{
    reveal_strlit("nodes");
    reveal_strlit("peers");
    reveal_strlit("chain");
    reveal_strlit("validators");
    lemma_node_entries_round_trip(s.nodes);
    lemma_peers_round_trip(s.peers);
    match s.chain {
        Some(c) => {
            lemma_chain_round_trip(c);
        },
        None => {
        },
    }
    match s.validators {
        Some(v) => {
            lemma_validator_round_trip(v);
        },
        None => {
        },
    }
    let ms = seq![
        ("nodes"@, JsonVal::Arr(enc_node_entries(s.nodes))),
        ("peers"@, JsonVal::Arr(enc_peers(s.peers))),
        (
            "chain"@,
            match s.chain {
                Some(c) => enc_chain(c),
                None => JsonVal::Null,
            },
        ),
        (
            "validators"@,
            match s.validators {
                Some(v) => enc_validator(v),
                None => JsonVal::Null,
            },
        ),
    ];
    assert(enc_state(s) == JsonVal::Obj(ms));
    assert("nodes"@.len() == 5);
    assert("peers"@.len() == 5);
    assert("chain"@.len() == 5);
    assert("validators"@.len() == 10);
    assert("nodes"@[0] != "peers"@[0]);
    assert("nodes"@[0] != "chain"@[0]);
    assert("peers"@[0] != "chain"@[0]);
    assert(ms[0].0 != ms[1].0);
    assert(ms[0].0 != ms[2].0);
    assert(ms[1].0 != ms[2].0);
    assert(ms[0].0 != ms[3].0);
    assert(ms[1].0 != ms[3].0);
    assert(ms[2].0 != ms[3].0);
    lemma_obj_get_at(ms, 0);
    lemma_obj_get_at(ms, 1);
    lemma_obj_get_at(ms, 2);
    lemma_obj_get_at(ms, 3);
    assert(dec_state(enc_state(s)) == Some(s));
}

} // verus!
