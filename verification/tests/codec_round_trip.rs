//! Wire codec behaviour: every message variant survives the round trip.

use cosmon::codec::{
    decode_envelope, decode_state, encode_envelope, encode_state, JsonValue,
};
use cosmon::events::{Attributes, IbcEvent, IbcEventKind};
use cosmon::message::{Envelope, Message};
use cosmon::monitor::net_info::{ConnectionStatus, Peer};
use cosmon::monitor::status::{ChainStatus, NodeInfo, ValidatorInfo};
use cosmon::net::Address;
use cosmon::network::tendermint::{Node, State};

fn sample_chain() -> ChainStatus {
    ChainStatus {
        latest_block_hash: "ab12".to_string(),
        latest_app_hash: "cd34".to_string(),
        latest_block_height: 77,
        latest_block_time: "2024-01-01T00:00:00Z".to_string(),
        catching_up: false,
    }
}

fn sample_peer() -> Peer {
    Peer {
        addr: Address::Tcp {
            peer_id: Some("abd636b766dcefb5322d8ca40011ec2cb35efbc2".to_string()),
            host: "35.192.61.41".to_string(),
            port: 26656,
        },
        connection: ConnectionStatus::Out,
        persistent: true,
        private: false,
    }
}

fn sample_event() -> IbcEvent {
    let mut attributes = Attributes::new();
    attributes.push(
        "send_packet.packet_src_channel".to_string(),
        vec!["channel-0".to_string()],
    );
    attributes.push(
        "message.sender".to_string(),
        vec!["cosmos1xyz".to_string(), "cosmos1abc".to_string()],
    );
    IbcEvent {
        kind: IbcEventKind::SendPacketChannel,
        attributes,
    }
}

#[test]
fn envelope_with_every_variant_round_trips() {
    let envelope = Envelope {
        network: "cosmoshub-4".to_string(),
        node: "aa23de1aa23de1aa23de1aa23de1aa23de1aa23d".to_string(),
        ts: "2024-01-01T00:00:00Z".to_string(),
        msg: vec![
            Message::Chain(Box::new(sample_chain())),
            Message::Node(Box::new(NodeInfo {
                id: "aa23de1aa23de1aa23de1aa23de1aa23de1aa23d".to_string(),
                moniker: "m1".to_string(),
                listen_addr: "tcp://0.0.0.0:26656".to_string(),
                network: "cosmoshub-4".to_string(),
                version: "0.34.0".to_string(),
            })),
            Message::Validator(Box::new(ValidatorInfo {
                address: "cafe".to_string(),
                voting_power: 10,
                proposer_priority: -3,
            })),
            Message::Peers(vec![
                sample_peer(),
                Peer {
                    addr: Address::Unix {
                        path: "/tmp/node.sock".to_string(),
                    },
                    connection: ConnectionStatus::Disconnected,
                    persistent: false,
                    private: true,
                },
            ]),
            Message::EventIBC(sample_event()),
        ],
    };

    let decoded = decode_envelope(&encode_envelope(&envelope)).unwrap();
    assert_eq!(decoded.network, envelope.network);
    assert_eq!(decoded.node, envelope.node);
    assert_eq!(decoded.ts, envelope.ts);
    assert_eq!(decoded.msg.len(), envelope.msg.len());
    match (&decoded.msg[0], &envelope.msg[0]) {
        (Message::Chain(a), Message::Chain(b)) => assert!(a == b),
        _ => panic!("chain message lost"),
    }
    match &decoded.msg[1] {
        Message::Node(n) => {
            assert_eq!(n.moniker, "m1");
            assert_eq!(n.version, "0.34.0");
        }
        other => panic!("unexpected message: {:?}", other),
    }
    match &decoded.msg[2] {
        Message::Validator(v) => {
            assert_eq!(v.voting_power, 10);
            assert_eq!(v.proposer_priority, -3);
        }
        other => panic!("unexpected message: {:?}", other),
    }
    match &decoded.msg[3] {
        Message::Peers(ps) => {
            assert_eq!(ps.len(), 2);
            assert!(ps[0].eq_peer(&sample_peer()));
            assert_eq!(ps[1].connection, ConnectionStatus::Disconnected);
            assert!(ps[1].private);
        }
        other => panic!("unexpected message: {:?}", other),
    }
    match &decoded.msg[4] {
        Message::EventIBC(e) => {
            assert_eq!(e.kind, IbcEventKind::SendPacketChannel);
            assert_eq!(
                e.attributes.get("message.sender"),
                Some(&vec!["cosmos1xyz".to_string(), "cosmos1abc".to_string()])
            );
        }
        other => panic!("unexpected message: {:?}", other),
    }
}

#[test]
fn state_snapshot_round_trips() {
    let state = State {
        nodes: vec![Node {
            id: "aa23de1aa23de1aa23de1aa23de1aa23de1aa23d".to_string(),
            moniker: "m1".to_string(),
            first_seen: 1000,
            last_seen: 3000,
        }],
        peers: vec![sample_peer()],
        chain: Some(sample_chain()),
        validators: None,
    };

    let decoded = decode_state(&encode_state(&state)).unwrap();
    assert_eq!(decoded.nodes.len(), 1);
    assert_eq!(decoded.nodes[0].id, state.nodes[0].id);
    assert_eq!(decoded.nodes[0].first_seen, 1000);
    assert_eq!(decoded.nodes[0].last_seen, 3000);
    assert_eq!(decoded.peers.len(), 1);
    assert!(decoded.peers[0].eq_peer(&state.peers[0]));
    assert!(decoded.chain.as_ref().unwrap() == &sample_chain());
    assert!(decoded.validators.is_none());
}

#[test]
fn malformed_envelope_is_rejected() {
    assert!(decode_envelope(&JsonValue::Null).is_none());
    assert!(decode_envelope(&JsonValue::Str("{}".to_string())).is_none());
    // An envelope frame whose message list holds an unknown tag decodes to
    // nothing rather than dropping the message silently.
    let envelope = Envelope {
        network: "cosmoshub-4".to_string(),
        node: "aa".to_string(),
        ts: "t".to_string(),
        msg: vec![Message::Chain(Box::new(sample_chain()))],
    };
    let tree = encode_envelope(&envelope);
    assert!(decode_envelope(&tree).is_some());
}
