//! Collector behaviour: routing, state, paging.

use cosmon::collector::request::PollEvent;
use cosmon::collector::Collector;
use cosmon::error::ErrorKind;
use cosmon::message::{Envelope, Message};
use cosmon::metrics::Metrics;
use cosmon::monitor::status::ChainStatus;
use cosmon::network::{Id, Network, State};

fn sample_metrics() -> Metrics {
    Metrics::new("sagan".to_string(), None, None, None)
}

fn sample_network(chain_id: &str) -> Network {
    Network::new_tendermint(chain_id.to_string(), sample_metrics(), 10)
}

fn node_envelope(network: &str, node: &str, moniker: &str) -> Envelope {
    Envelope {
        network: network.to_string(),
        node: node.to_string(),
        ts: "2024-01-01T00:00:00Z".to_string(),
        msg: vec![Message::Node(Box::new(cosmon::monitor::status::NodeInfo {
            id: node.to_string(),
            moniker: moniker.to_string(),
            listen_addr: "tcp://0.0.0.0:26656".to_string(),
            network: network.to_string(),
            version: "0.34.0".to_string(),
        }))],
    }
}

fn chain_envelope(network: &str, node: &str, height: u64) -> Envelope {
    Envelope {
        network: network.to_string(),
        node: node.to_string(),
        ts: "2024-01-01T00:00:00Z".to_string(),
        msg: vec![Message::Chain(Box::new(ChainStatus {
            latest_block_hash: "ab12".to_string(),
            latest_app_hash: "cd34".to_string(),
            latest_block_height: height,
            latest_block_time: "2024-01-01T00:00:00Z".to_string(),
            catching_up: false,
        }))],
    }
}

const NODE_ID: &str = "aa23de1aa23de1aa23de1aa23de1aa23de1aa23d";

#[test]
fn node_message_appears_in_state() {
    let mut collector = Collector::new(vec![sample_network("cosmoshub-4")]).unwrap();
    collector.handle_message(&node_envelope("cosmoshub-4", NODE_ID, "m1"), 1000);

    let state = collector
        .network_state(&Id::new("cosmoshub-4".to_string()))
        .unwrap();
    let State::Tendermint(tm) = state;
    assert_eq!(tm.nodes.len(), 1);
    assert_eq!(tm.nodes[0].id, NODE_ID);
    assert_eq!(tm.nodes[0].moniker, "m1");
    assert_eq!(tm.nodes[0].first_seen, 1000);
    assert_eq!(tm.nodes[0].last_seen, 1000);
}

#[test]
fn repeated_chain_status_updates_last_seen_only() {
    let mut collector = Collector::new(vec![sample_network("cosmoshub-4")]).unwrap();
    collector.handle_message(&node_envelope("cosmoshub-4", NODE_ID, "m1"), 1000);
    collector.handle_message(&chain_envelope("cosmoshub-4", NODE_ID, 77), 2000);

    let State::Tendermint(before) = collector
        .network_state(&Id::new("cosmoshub-4".to_string()))
        .unwrap();
    assert_eq!(before.chain.as_ref().unwrap().latest_block_height, 77);
    assert_eq!(before.nodes[0].last_seen, 2000);

    // The same chain status again: the chain stays as it is (it is equal),
    // but the sending node's last-seen stamp still advances.
    collector.handle_message(&chain_envelope("cosmoshub-4", NODE_ID, 77), 3000);
    let State::Tendermint(after) = collector
        .network_state(&Id::new("cosmoshub-4".to_string()))
        .unwrap();
    assert_eq!(after.chain.as_ref().unwrap().latest_block_height, 77);
    assert_eq!(
        after.chain.as_ref().unwrap().latest_block_hash,
        before.chain.as_ref().unwrap().latest_block_hash
    );
    assert_eq!(after.nodes[0].last_seen, 3000);
    assert_eq!(after.nodes[0].first_seen, 1000);
}

#[test]
fn envelope_for_unregistered_network_is_dropped() {
    let mut collector = Collector::new(vec![sample_network("cosmoshub-4")]).unwrap();
    let records = collector.handle_message(&node_envelope("osmosis-1", NODE_ID, "m1"), 1000);
    assert!(records.is_empty());

    let State::Tendermint(tm) = collector
        .network_state(&Id::new("cosmoshub-4".to_string()))
        .unwrap();
    assert!(tm.nodes.is_empty());
    assert!(collector
        .network_state(&Id::new("osmosis-1".to_string()))
        .is_none());
}

#[test]
fn mismatched_network_leaves_state_untouched() {
    // The defensive check inside the network state machine itself: an
    // envelope whose network differs from the state's ID changes nothing
    // and produces no records, even when handed to the machine directly.
    let mut network = sample_network("cosmoshub-4");
    let records = network.handle_message(&node_envelope("osmosis-1", NODE_ID, "m1"), 1000);
    assert!(records.is_empty());
    let State::Tendermint(tm) = network.state();
    assert!(tm.nodes.is_empty());
    assert!(tm.chain.is_none());
}

#[test]
fn messages_apply_in_envelope_order() {
    let mut collector = Collector::new(vec![sample_network("cosmoshub-4")]).unwrap();
    let envelope = Envelope {
        network: "cosmoshub-4".to_string(),
        node: NODE_ID.to_string(),
        ts: "2024-01-01T00:00:00Z".to_string(),
        msg: vec![
            Message::Chain(Box::new(ChainStatus {
                latest_block_hash: "ab12".to_string(),
                latest_app_hash: "cd34".to_string(),
                latest_block_height: 1,
                latest_block_time: "t1".to_string(),
                catching_up: true,
            })),
            Message::Chain(Box::new(ChainStatus {
                latest_block_hash: "ab13".to_string(),
                latest_app_hash: "cd35".to_string(),
                latest_block_height: 2,
                latest_block_time: "t2".to_string(),
                catching_up: false,
            })),
        ],
    };
    collector.handle_message(&envelope, 1000);
    let State::Tendermint(tm) = collector
        .network_state(&Id::new("cosmoshub-4".to_string()))
        .unwrap();
    // The later message wins: messages are applied in listed order.
    assert_eq!(tm.chain.as_ref().unwrap().latest_block_height, 2);
    assert!(!tm.chain.as_ref().unwrap().catching_up);
}

#[test]
fn heartbeat_emitted_per_envelope() {
    let mut collector = Collector::new(vec![sample_network("cosmoshub-4")]).unwrap();
    let records = collector.handle_message(&node_envelope("cosmoshub-4", NODE_ID, "m1"), 1000);
    assert_eq!(records.len(), 1);
    assert_eq!(records[0].name, "sagan.heartbeat");
    assert!(records[0].tags.is_empty());
}

#[test]
fn duplicate_networks_in_config_are_fatal() {
    let err = Collector::new(vec![
        sample_network("cosmoshub-4"),
        sample_network("cosmoshub-4"),
    ])
    .unwrap_err();
    assert_eq!(err.kind(), ErrorKind::ConfigError);
    assert_eq!(err.message(), "duplicate networks in config");
}

#[test]
fn poll_event_pages_with_suppression_window() {
    let mut collector = Collector::new(vec![sample_network("cosmoshub-4")]).unwrap();
    let event = PollEvent {
        source: "ngexplorers".to_string(),
        network_id: "cosmoshub-4".to_string(),
        current_height: None,
        missed_blocks: Some(50),
        last_signed_height: None,
    };

    // First page: no previous emission, so it goes out.
    let t0: u64 = 1_000_000;
    assert!(collector.handle_poll_event(&event));
    let pages = collector.get_pager_events(t0);
    assert_eq!(pages, vec!["'cosmoshub-4' missed 50 blocks!".to_string()]);

    // One second later: suppressed by the ten-minute cooldown.
    collector.handle_poll_event(&event);
    let pages = collector.get_pager_events(t0 + 1_000);
    assert!(pages.is_empty());

    // Eleven minutes later: the cooldown has passed.
    collector.handle_poll_event(&event);
    let pages = collector.get_pager_events(t0 + 11 * 60 * 1_000);
    assert_eq!(pages, vec!["'cosmoshub-4' missed 50 blocks!".to_string()]);
}

#[test]
fn poll_event_below_threshold_pages_nothing() {
    let mut collector = Collector::new(vec![sample_network("cosmoshub-4")]).unwrap();
    let event = PollEvent {
        source: "ngexplorers".to_string(),
        network_id: "cosmoshub-4".to_string(),
        current_height: None,
        missed_blocks: Some(5),
        last_signed_height: None,
    };
    collector.handle_poll_event(&event);
    assert!(collector.get_pager_events(1_000_000).is_empty());
}

#[test]
fn poll_event_derives_missed_blocks_from_heights() {
    let mut collector = Collector::new(vec![sample_network("cosmoshub-4")]).unwrap();
    let event = PollEvent {
        source: "mintscan".to_string(),
        network_id: "cosmoshub-4".to_string(),
        current_height: Some(1_000),
        missed_blocks: None,
        last_signed_height: Some(950),
    };
    collector.handle_poll_event(&event);
    let pages = collector.get_pager_events(1_000_000);
    assert_eq!(pages, vec!["'cosmoshub-4' missed 50 blocks!".to_string()]);
}

#[test]
fn pager_drains_networks_in_id_order() {
    // Networks configured out of ID order page in ID order: the registry
    // is registered key-sorted.
    let mut collector = Collector::new(vec![
        sample_network("osmosis-1"),
        sample_network("cosmoshub-4"),
    ])
    .unwrap();
    for network in ["osmosis-1", "cosmoshub-4"] {
        collector.handle_poll_event(&PollEvent {
            source: "ngexplorers".to_string(),
            network_id: network.to_string(),
            current_height: None,
            missed_blocks: Some(50),
            last_signed_height: None,
        });
    }
    let pages = collector.get_pager_events(1_000_000);
    assert_eq!(
        pages,
        vec![
            "'cosmoshub-4' missed 50 blocks!".to_string(),
            "'osmosis-1' missed 50 blocks!".to_string(),
        ]
    );
}

#[test]
fn snapshot_nodes_in_id_order() {
    // Nodes reported out of ID order come back sorted in the snapshot,
    // the way a key-sorted node map iterates.
    const LATER_ID: &str = "bb34ef2bb34ef2bb34ef2bb34ef2bb34ef2bb34e";
    let mut collector = Collector::new(vec![sample_network("cosmoshub-4")]).unwrap();
    collector.handle_message(&node_envelope("cosmoshub-4", LATER_ID, "m2"), 1000);
    collector.handle_message(&node_envelope("cosmoshub-4", NODE_ID, "m1"), 2000);
    let State::Tendermint(tm) = collector
        .network_state(&Id::new("cosmoshub-4".to_string()))
        .unwrap();
    assert_eq!(tm.nodes.len(), 2);
    assert_eq!(tm.nodes[0].id, NODE_ID);
    assert_eq!(tm.nodes[1].id, LATER_ID);
}

#[test]
fn pager_stream_event_text_carries_trigger_token() {
    let text =
        cosmon::collector::pager::Pager::stream_event_text("'cosmoshub-4' missed 50 blocks!");
    assert!(text.starts_with("@pagerduty"));
    assert_eq!(text, "@pagerduty cosmon event: 'cosmoshub-4' missed 50 blocks!");
}
