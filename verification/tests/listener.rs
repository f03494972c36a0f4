//! Listener state machine and event reporter behaviour.

use cosmon::event_monitor::{
    EventMonitor, EventReporter, ListenerAction, ListenerEvent, ListenerPhase,
};
use cosmon::events::{Attributes, IbcEvent, IbcEventKind};
use cosmon::message::Message;

#[test]
fn reconnect_reestablishes_all_subscriptions() {
    let queries = vec!["tm.event='Tx'".to_string(), "tm.event='NewBlock'".to_string()];
    let mut listener = EventMonitor::new("tcp://127.0.0.1:26657".to_string(), queries.clone());
    assert_eq!(listener.phase, ListenerPhase::Connecting);

    assert_eq!(listener.step(ListenerEvent::Connected), ListenerAction::Subscribe);
    assert_eq!(listener.step(ListenerEvent::Subscribed), ListenerAction::Read);
    assert_eq!(listener.subscriptions, queries);

    // Two full disconnect/reconnect cycles.
    for _ in 0..2 {
        assert_eq!(
            listener.step(ListenerEvent::TransportError),
            ListenerAction::SleepThenConnect
        );
        assert!(listener.subscriptions.is_empty());
        assert_eq!(listener.step(ListenerEvent::Connected), ListenerAction::Subscribe);
        assert_eq!(listener.step(ListenerEvent::Subscribed), ListenerAction::Read);
        assert_eq!(listener.subscriptions, queries);
    }
    assert_eq!(listener.phase, ListenerPhase::Streaming);
}

#[test]
fn failed_dial_keeps_reconnecting() {
    let mut listener = EventMonitor::new("tcp://127.0.0.1:26657".to_string(), vec![]);
    assert_eq!(
        listener.step(ListenerEvent::ConnectFailed),
        ListenerAction::Connect
    );
    listener.step(ListenerEvent::Connected);
    listener.step(ListenerEvent::Subscribed);
    listener.step(ListenerEvent::TransportError);
    assert_eq!(
        listener.step(ListenerEvent::ConnectFailed),
        ListenerAction::SleepThenConnect
    );
}

#[test]
fn failed_subscription_backs_off_and_reconnects() {
    let mut listener = EventMonitor::new("tcp://127.0.0.1:26657".to_string(), vec![]);
    listener.step(ListenerEvent::Connected);
    assert_eq!(
        listener.step(ListenerEvent::SubscribeFailed),
        ListenerAction::SleepThenConnect
    );
    assert_eq!(listener.phase, ListenerPhase::Reconnecting);
    assert!(listener.subscriptions.is_empty());
}

#[test]
fn reporter_builds_one_envelope_per_event() {
    let reporter = EventReporter::new(
        "cosmoshub-4".to_string(),
        "aa23de1aa23de1aa23de1aa23de1aa23de1aa23d".to_string(),
        cosmon::config::agent::CollectorAddr::Http(cosmon::config::agent::HttpConfig {
            uri: "http://127.0.0.1:7322".to_string(),
        }),
    );
    let events = vec![
        IbcEvent {
            kind: IbcEventKind::SendPacketChannel,
            attributes: Attributes::new(),
        },
        IbcEvent {
            kind: IbcEventKind::CreateClient,
            attributes: Attributes::new(),
        },
    ];
    let envelopes = reporter.batch_envelopes(events, "2024-01-01T00:00:00Z");
    assert_eq!(envelopes.len(), 2);
    for envelope in &envelopes {
        assert_eq!(envelope.network, "cosmoshub-4");
        assert_eq!(envelope.node, "aa23de1aa23de1aa23de1aa23de1aa23de1aa23d");
        assert_eq!(envelope.msg.len(), 1);
    }
    match &envelopes[0].msg[0] {
        Message::EventIBC(e) => assert_eq!(e.kind, IbcEventKind::SendPacketChannel),
        other => panic!("unexpected message: {:?}", other),
    }
}

#[test]
fn report_url_format() {
    assert_eq!(
        EventReporter::report_url("127.0.0.1", 7322),
        "http://127.0.0.1:7322/collector"
    );
}

#[test]
fn empty_envelope_is_not_constructed() {
    assert!(cosmon::message::Envelope::new(
        "cosmoshub-4".to_string(),
        "aa".to_string(),
        "2024-01-01T00:00:00Z".to_string(),
        vec![],
    )
    .is_none());
}
