//! Agent-side monitoring: status diffs, peer merge, full reports.

use cosmon::message::Message;
use cosmon::monitor::data::Data;
use cosmon::monitor::net_info::{ConnectionStatus, NetInfo, RpcPeer};
use cosmon::monitor::status::{ChainStatus, NodeInfo, Status, ValidatorInfo};
use cosmon::monitor::Monitor;
use cosmon::net::Address;

fn sample_status(height: u64) -> Status {
    Status::new(
        ChainStatus {
            latest_block_hash: "ab12".to_string(),
            latest_app_hash: "cd34".to_string(),
            latest_block_height: height,
            latest_block_time: "2024-01-01T00:00:00Z".to_string(),
            catching_up: false,
        },
        NodeInfo {
            id: "aa23de1aa23de1aa23de1aa23de1aa23de1aa23d".to_string(),
            moniker: "m1".to_string(),
            listen_addr: "tcp://0.0.0.0:26656".to_string(),
            network: "cosmoshub-4".to_string(),
            version: "0.34.0".to_string(),
        },
        ValidatorInfo {
            address: "cafe".to_string(),
            voting_power: 10,
            proposer_priority: -3,
        },
    )
}

const PEER_ID: &str = "abd636b766dcefb5322d8ca40011ec2cb35efbc2";
const OTHER_ID: &str = "beef00beef00beef00beef00beef00beef00beef";

#[test]
fn unchanged_status_emits_no_messages() {
    let mut status = sample_status(77);
    let next = sample_status(77);
    let messages = status.update(&next, false);
    assert!(messages.is_empty());
}

#[test]
fn changed_chain_emits_only_chain_message() {
    let mut status = sample_status(77);
    let next = sample_status(78);
    let messages = status.update(&next, false);
    assert_eq!(messages.len(), 1);
    match &messages[0] {
        Message::Chain(c) => assert_eq!(c.latest_block_height, 78),
        other => panic!("unexpected message: {:?}", other),
    }
    // Absorbed: the same status again is no change.
    assert!(status.update(&sample_status(78), false).is_empty());
}

#[test]
fn forced_update_emits_all_status_components() {
    let mut status = sample_status(77);
    let messages = status.update(&sample_status(77), true);
    assert_eq!(messages.len(), 3);
    assert!(matches!(messages[0], Message::Chain(_)));
    assert!(matches!(messages[1], Message::Node(_)));
    assert!(matches!(messages[2], Message::Validator(_)));
}

#[test]
fn full_report_interval_forces_all_components() {
    let persistent = vec![format!("tcp://{}@10.0.0.1:26656", PEER_ID)
        .parse::<Address>()
        .unwrap()];
    let net_info = NetInfo::new(persistent, vec![]);
    let mut monitor = Monitor::new(sample_status(77), net_info, Data::new(String::new()), 0);

    // Same snapshot, no peers reported: only the full-report tick makes
    // messages, and then it makes all four components.
    let messages = monitor
        .poll_step(&sample_status(77), &vec![], 60_000)
        .unwrap();
    assert_eq!(messages.len(), 4);
    assert!(matches!(messages[0], Message::Chain(_)));
    assert!(matches!(messages[1], Message::Node(_)));
    assert!(matches!(messages[2], Message::Validator(_)));
    assert!(matches!(messages[3], Message::Peers(_)));

    // Immediately afterwards nothing changed and no report is due.
    let messages = monitor
        .poll_step(&sample_status(77), &vec![], 60_100)
        .unwrap();
    assert!(messages.is_empty());
}

#[test]
fn peer_merge_keeps_config_flags() {
    let persistent = vec![format!("tcp://{}@10.0.0.1:26656", PEER_ID)
        .parse::<Address>()
        .unwrap()];
    let mut net_info = NetInfo::new(persistent, vec![PEER_ID.to_string()]);

    let rpc_peers = vec![
        RpcPeer {
            node_id: PEER_ID.to_string(),
            listen_addr: "tcp://10.0.0.1:26656".to_string(),
            remote_ip: "10.0.0.1".to_string(),
            is_outbound: true,
        },
        RpcPeer {
            node_id: OTHER_ID.to_string(),
            listen_addr: "tcp://10.0.0.2:26656".to_string(),
            remote_ip: "10.0.0.2".to_string(),
            is_outbound: false,
        },
    ];
    let messages = net_info.update(&rpc_peers, false).unwrap();
    assert_eq!(messages.len(), 1);
    let peers = match &messages[0] {
        Message::Peers(ps) => ps,
        other => panic!("unexpected message: {:?}", other),
    };
    assert_eq!(peers.len(), 2);

    // The configured persistent peer keeps its flags and gains a direction.
    assert!(peers[0].persistent);
    assert!(peers[0].private);
    assert_eq!(peers[0].connection, ConnectionStatus::Out);

    // The freshly discovered peer is neither persistent nor private and is
    // addressed at its remote IP.
    assert!(!peers[1].persistent);
    assert!(!peers[1].private);
    assert_eq!(peers[1].connection, ConnectionStatus::In);
    match &peers[1].addr {
        Address::Tcp {
            peer_id,
            host,
            port,
        } => {
            assert_eq!(peer_id.as_deref(), Some(OTHER_ID));
            assert_eq!(host, "10.0.0.2");
            assert_eq!(*port, 26656);
        }
        other => panic!("unexpected address type: {:?}", other),
    }
}

#[test]
fn merged_peer_list_is_sorted_by_node_id() {
    // The configured persistent peer sorts after the freshly discovered
    // one, so the merged list comes back in node-ID order, not in
    // configuration-then-arrival order.
    let persistent = vec![format!("tcp://{}@10.0.0.3:26656", OTHER_ID)
        .parse::<Address>()
        .unwrap()];
    let mut net_info = NetInfo::new(persistent, vec![]);
    let rpc_peers = vec![RpcPeer {
        node_id: PEER_ID.to_string(),
        listen_addr: "tcp://10.0.0.1:26656".to_string(),
        remote_ip: "10.0.0.1".to_string(),
        is_outbound: false,
    }];
    let messages = net_info.update(&rpc_peers, false).unwrap();
    let peers = match &messages[0] {
        Message::Peers(ps) => ps,
        other => panic!("unexpected message: {:?}", other),
    };
    assert_eq!(peers.len(), 2);
    // PEER_ID ("abd6…") < OTHER_ID ("beef…"): the fresh peer comes first.
    assert!(!peers[0].persistent);
    match &peers[0].addr {
        Address::Tcp { peer_id, .. } => assert_eq!(peer_id.as_deref(), Some(PEER_ID)),
        other => panic!("unexpected address type: {:?}", other),
    }
    assert!(peers[1].persistent);
    match &peers[1].addr {
        Address::Tcp { peer_id, .. } => assert_eq!(peer_id.as_deref(), Some(OTHER_ID)),
        other => panic!("unexpected address type: {:?}", other),
    }
}

#[test]
fn peer_merge_skips_non_tcp_listen_addresses() {
    let mut net_info = NetInfo::new(vec![], vec![]);
    let rpc_peers = vec![RpcPeer {
        node_id: OTHER_ID.to_string(),
        listen_addr: "unix:///var/run/node.sock".to_string(),
        remote_ip: "10.0.0.2".to_string(),
        is_outbound: false,
    }];
    let messages = net_info.update(&rpc_peers, false).unwrap();
    // The entry is skipped, and an empty peer list equals the previous
    // empty one, so nothing is emitted.
    assert!(messages.is_empty());
}

#[test]
fn unchanged_peer_list_emits_nothing_twice() {
    let mut net_info = NetInfo::new(vec![], vec![]);
    let rpc_peers = vec![RpcPeer {
        node_id: OTHER_ID.to_string(),
        listen_addr: "tcp://10.0.0.2:26656".to_string(),
        remote_ip: "10.0.0.2".to_string(),
        is_outbound: false,
    }];
    assert_eq!(net_info.update(&rpc_peers, false).unwrap().len(), 1);
    assert!(net_info.update(&rpc_peers, false).unwrap().is_empty());
}

#[test]
fn duplicate_persistent_peer_is_a_config_error() {
    let addr = format!("tcp://{}@10.0.0.1:26656", PEER_ID)
        .parse::<Address>()
        .unwrap();
    let other = format!("tcp://{}@10.0.0.3:26656", PEER_ID)
        .parse::<Address>()
        .unwrap();
    let net_info = NetInfo::new(vec![addr, other], vec![]);
    let err = net_info.peer_map().unwrap_err();
    assert_eq!(err.kind(), cosmon::error::ErrorKind::ConfigError);
}

#[test]
fn unknown_private_peer_id_is_a_config_error() {
    let net_info = NetInfo::new(vec![], vec![PEER_ID.to_string()]);
    let err = net_info.peer_map().unwrap_err();
    assert_eq!(err.kind(), cosmon::error::ErrorKind::ConfigError);
}
