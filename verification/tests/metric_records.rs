//! Metric record translation: names, tags, sentinels, substitution.

use cosmon::events::{Attributes, IbcEvent, IbcEventKind};
use cosmon::metrics::{Metrics, TeamTable};

fn attrs(entries: &[(&str, &[&str])]) -> Attributes {
    let mut bag = Attributes::new();
    for (key, values) in entries {
        bag.push(
            key.to_string(),
            values.iter().map(|v| v.to_string()).collect(),
        );
    }
    bag
}

fn table(entries: &[(&str, &str)]) -> TeamTable {
    let mut t = TeamTable::new();
    for (key, team) in entries {
        t.push(key.to_string(), team.to_string());
    }
    t
}

#[test]
fn send_packet_event_substitutes_channel_team() {
    let metrics = Metrics::new(
        "sagan".to_string(),
        Some(table(&[("channel-0", "teamA")])),
        None,
        None,
    );
    let event = IbcEvent {
        kind: IbcEventKind::SendPacketChannel,
        attributes: attrs(&[
            ("send_packet.packet_src_channel", &["channel-0"]),
            ("send_packet.packet_src_port", &["transfer"]),
            ("send_packet.packet_dst_channel", &["channel-1"]),
            ("send_packet.packet_dst_port", &["transfer"]),
            ("message.sender", &["cosmos1xyz"]),
        ]),
    };
    let record = metrics.packet_send_event("cosmoshub-4", &event);
    assert_eq!(record.name, "sagan.packet_send");
    assert_eq!(
        record.tags,
        vec![
            ("chain".to_string(), "cosmoshub-4".to_string()),
            ("sender".to_string(), "cosmos1xyz".to_string()),
            ("src_channel".to_string(), "teamA".to_string()),
            ("src_port".to_string(), "transfer".to_string()),
            ("dst_channel".to_string(), "channel-1".to_string()),
            ("dst_port".to_string(), "transfer".to_string()),
        ]
    );
}

#[test]
fn missing_attributes_fall_back_to_sentinels() {
    let metrics = Metrics::new("sagan".to_string(), None, None, None);
    let event = IbcEvent {
        kind: IbcEventKind::RecievePacketChannel,
        attributes: Attributes::new(),
    };
    let record = metrics.packet_recieve_event("cosmoshub-4", &event);
    assert_eq!(record.name, "sagan.packet_recieve");
    assert_eq!(
        record.tags,
        vec![
            ("chain".to_string(), "cosmoshub-4".to_string()),
            ("sender".to_string(), "sender_missing".to_string()),
            (
                "src_channel".to_string(),
                "packet_src_channel_missing".to_string()
            ),
            (
                "src_port".to_string(),
                "packet_src_port_missing".to_string()
            ),
            (
                "dst_channel".to_string(),
                "packet_dst_channel_missing".to_string()
            ),
            (
                "dst_port".to_string(),
                "packet_dst_port_missing".to_string()
            ),
        ]
    );
}

#[test]
fn sender_scans_all_values_for_a_team() {
    let metrics = Metrics::new(
        "sagan".to_string(),
        None,
        Some(table(&[("cosmos1team", "teamB")])),
        None,
    );
    let event = IbcEvent {
        kind: IbcEventKind::CreateClient,
        attributes: attrs(&[("message.sender", &["cosmos1other", "cosmos1team"])]),
    };
    let record = metrics.create_client_event("cosmoshub-4", &event);
    assert_eq!(record.name, "sagan.create_client");
    assert_eq!(record.tags[1], ("sender".to_string(), "teamB".to_string()));
}

#[test]
fn sender_without_team_uses_first_value() {
    let metrics = Metrics::new(
        "sagan".to_string(),
        None,
        Some(table(&[("cosmos1nomatch", "teamB")])),
        None,
    );
    let event = IbcEvent {
        kind: IbcEventKind::ClientMisbehavior,
        attributes: attrs(&[("message.sender", &["cosmos1first", "cosmos1second"])]),
    };
    let record = metrics.client_misbehaviour_event("cosmoshub-4", &event);
    assert_eq!(record.name, "sagan.client_misbehaviour");
    assert_eq!(
        record.tags[1],
        ("sender".to_string(), "cosmos1first".to_string())
    );
}

#[test]
fn update_client_substitutes_client_id() {
    let metrics = Metrics::new(
        "sagan".to_string(),
        None,
        None,
        Some(table(&[("07-tendermint-1", "teamC")])),
    );
    let event = IbcEvent {
        kind: IbcEventKind::UpdateClient,
        attributes: attrs(&[
            ("client_id", &["07-tendermint-1"]),
            ("message.sender", &["cosmos1xyz"]),
        ]),
    };
    let record = metrics.update_client_event("cosmoshub-4", &event);
    assert_eq!(record.name, "sagan.client_update");
    assert_eq!(
        record.tags,
        vec![
            ("chain".to_string(), "cosmoshub-4".to_string()),
            ("sender".to_string(), "cosmos1xyz".to_string()),
            ("client_id".to_string(), "teamC".to_string()),
        ]
    );
}

#[test]
fn metric_names_per_event_kind() {
    let metrics = Metrics::new("sagan".to_string(), None, None, None);
    let cases: &[(IbcEventKind, &str)] = &[
        (IbcEventKind::SendPacketChannel, "sagan.packet_send"),
        (IbcEventKind::RecievePacketChannel, "sagan.packet_recieve"),
        (IbcEventKind::OpaquePacket, "sagan.packet_recv_opaque"),
        (IbcEventKind::PacketTransfer, "sagan.ics20_transfer"),
        (IbcEventKind::CreateClient, "sagan.create_client"),
        (IbcEventKind::UpdateClient, "sagan.client_update"),
        (IbcEventKind::ClientMisbehavior, "sagan.client_misbehaviour"),
        (IbcEventKind::OpenInitConnection, "sagan.openinit"),
        (IbcEventKind::OpenTryConnection, "sagan.opentry"),
        (IbcEventKind::OpenAckConnection, "sagan.openack_event"),
        (IbcEventKind::OpenConfirmConnection, "sagan.openconfirm"),
    ];
    for (kind, expected) in cases {
        let event = IbcEvent {
            kind: *kind,
            attributes: Attributes::new(),
        };
        let record = metrics.event_record("cosmoshub-4", &event);
        assert_eq!(&record.name, expected);
    }
}

#[test]
fn event_classification_by_type_string() {
    assert_eq!(
        IbcEventKind::classify("send_packet"),
        Some(IbcEventKind::SendPacketChannel)
    );
    assert_eq!(
        IbcEventKind::classify("create_client"),
        Some(IbcEventKind::CreateClient)
    );
    assert_eq!(
        IbcEventKind::classify("connection_open_confirm"),
        Some(IbcEventKind::OpenConfirmConnection)
    );
    assert_eq!(IbcEventKind::classify("unheard_of"), None);
    assert!(IbcEvent::from_raw("no_such_event", Attributes::new()).is_none());
}

#[test]
fn start_and_heartbeat_metric_names() {
    let metrics = Metrics::new("sagan".to_string(), None, None, None);
    assert_eq!(metrics.start_metric_name(), "sagan.collector.start");
    assert_eq!(metrics.heartbeat_metric_name(), "sagan.heartbeat");
}
