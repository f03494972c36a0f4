//! Text helpers and configuration parsing.

use cosmon::collector::poller::ngexplorers::{count_missed, Block};
use cosmon::config::tendermint::{split_commas, Timeout};
use cosmon::text::{parse_u64, rfc3339_from_unix, str_eq, str_le, u64_to_string, MAX_RFC3339_SECS};

#[test]
fn decimal_formatting() {
    assert_eq!(u64_to_string(0), "0");
    assert_eq!(u64_to_string(7), "7");
    assert_eq!(u64_to_string(12345), "12345");
    assert_eq!(u64_to_string(u64::MAX), "18446744073709551615");
}

#[test]
fn decimal_parsing() {
    assert_eq!(parse_u64("0"), Some(0));
    assert_eq!(parse_u64("12345"), Some(12345));
    assert_eq!(parse_u64("18446744073709551615"), Some(u64::MAX));
    assert_eq!(parse_u64("18446744073709551616"), None);
    assert_eq!(parse_u64(""), None);
    assert_eq!(parse_u64("12a"), None);
}

#[test]
fn string_equality() {
    assert!(str_eq("abc", "abc"));
    assert!(!str_eq("abc", "abd"));
    assert!(!str_eq("abc", "abcd"));
}

#[test]
fn rfc3339_formatting() {
    assert_eq!(rfc3339_from_unix(0), "1970-01-01T00:00:00Z");
    assert_eq!(rfc3339_from_unix(1), "1970-01-01T00:00:01Z");
    assert_eq!(rfc3339_from_unix(1_704_067_200), "2024-01-01T00:00:00Z");
    // A leap day, and the second before the next year.
    assert_eq!(rfc3339_from_unix(951_782_400), "2000-02-29T00:00:00Z");
    assert_eq!(rfc3339_from_unix(978_307_199), "2000-12-31T23:59:59Z");
    // The last second the four-digit format can carry.
    assert_eq!(rfc3339_from_unix(MAX_RFC3339_SECS), "9999-12-31T23:59:59Z");
}

#[test]
fn string_order_is_lexicographic() {
    assert!(str_le("abd6", "beef"));
    assert!(!str_le("beef", "abd6"));
    assert!(str_le("abc", "abcd"));
    assert!(str_le("abc", "abc"));
}

#[test]
fn timeout_parsing() {
    assert_eq!(Timeout::parse("300ms").unwrap().as_millis(), 300);
    assert_eq!(Timeout::parse("5s").unwrap().as_millis(), 5000);
    assert_eq!(Timeout::parse("10s").unwrap().as_millis(), 10000);
    assert!(Timeout::parse("5").is_err());
    assert!(Timeout::parse("ms").is_err());
    assert!(Timeout::parse("xs").is_err());
    assert!(Timeout::parse("").is_err());
}

#[test]
fn comma_separated_lists() {
    assert!(split_commas("").is_empty());
    assert_eq!(split_commas("a"), vec!["a".to_string()]);
    assert_eq!(
        split_commas("a,b,c"),
        vec!["a".to_string(), "b".to_string(), "c".to_string()]
    );
    assert_eq!(split_commas("a,,c"), vec![
        "a".to_string(),
        String::new(),
        "c".to_string()
    ]);
}

#[test]
fn team_tables_from_config() {
    let teams = vec![cosmon::config::collector::TeamConfig {
        name: "teamA".to_string(),
        address: "cosmos1xyz".to_string(),
        channel_id: "channel-0".to_string(),
        client_id: "07-tendermint-1".to_string(),
    }];
    let (addresses, channels, clients) = cosmon::config::collector::team_tables(&teams);
    assert_eq!(addresses.get("cosmos1xyz").unwrap(), "teamA");
    assert_eq!(channels.get("channel-0").unwrap(), "teamA");
    assert_eq!(clients.get("07-tendermint-1").unwrap(), "teamA");
    assert!(channels.get("channel-9").is_none());
}

#[test]
fn config_paths() {
    let node = cosmon::config::node::NodeConfig {
        home: "/home/tendermint".to_string(),
    };
    assert_eq!(node.config_dir(), "/home/tendermint/config");
    assert_eq!(node.config_toml_path(), "/home/tendermint/config/config.toml");
}

#[test]
fn poller_selects_exactly_the_configured_sources() {
    let networks = cosmon::config::network::Config {
        tendermint: vec![
            cosmon::config::network::tendermint::Config {
                chain_id: "cosmoshub-4".to_string(),
                validator_addr: Some("cosmosvaloper1xyz".to_string()),
                mintscan: Some(cosmon::config::network::tendermint::MintscanConfig {
                    host: "api.cosmostation.io".to_string(),
                    network: "cosmos".to_string(),
                }),
                ngexplorers: None,
                page_threshold: None,
            },
            cosmon::config::network::tendermint::Config {
                chain_id: "agoric-3".to_string(),
                validator_addr: Some("agoricvaloper1abc".to_string()),
                mintscan: None,
                ngexplorers: Some(cosmon::config::network::tendermint::NgExplorersConfig {
                    host: "agoric.api.explorers.guru".to_string(),
                }),
                page_threshold: None,
            },
            cosmon::config::network::tendermint::Config {
                chain_id: "osmosis-1".to_string(),
                validator_addr: None,
                mintscan: None,
                ngexplorers: None,
                page_threshold: None,
            },
        ],
    };
    let config = cosmon::config::collector::Config {
        listen: cosmon::config::collector::listen::Config {
            addr: [127, 0, 0, 1],
            port: 7322,
            protocol: cosmon::config::collector::listen::Protocol::Http,
        },
        networks,
        statsd: None,
        metrics_prefix: "sagan".to_string(),
        teams: vec![],
    };
    let poller = cosmon::collector::poller::Poller::new(&config).unwrap();
    assert!(poller.has_sources());
    assert_eq!(poller.mintscan.len(), 1);
    assert_eq!(poller.mintscan[0].chain_id, "cosmoshub-4");
    assert_eq!(poller.mintscan[0].host, "api.cosmostation.io");
    assert_eq!(poller.mintscan[0].network, "cosmos");
    assert_eq!(poller.ngexplorers.len(), 1);
    assert_eq!(poller.ngexplorers[0].chain_id, "agoric-3");
    assert_eq!(poller.ngexplorers[0].host, "agoric.api.explorers.guru");
    assert_eq!(
        poller.ngexplorers[0].validator_addr.as_deref(),
        Some("agoricvaloper1abc")
    );
}

#[test]
fn missed_block_counting() {
    let blocks = vec![
        Block {
            height: 100,
            signed: true,
        },
        Block {
            height: 101,
            signed: false,
        },
        Block {
            height: 102,
            signed: false,
        },
        Block {
            height: 103,
            signed: true,
        },
    ];
    assert_eq!(count_missed(&blocks), 2);
    assert_eq!(count_missed(&vec![]), 0);
}
