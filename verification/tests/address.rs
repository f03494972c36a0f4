//! Address parsing behaviour.

use cosmon::net::{parse_node_id, Address, TCP_PREFIX};

const EXAMPLE_TCP_ADDR: &str = "tcp://abd636b766dcefb5322d8ca40011ec2cb35efbc2@35.192.61.41:26656";
const EXAMPLE_TCP_ADDR_WITHOUT_ID: &str = "tcp://35.192.61.41:26656";
const EXAMPLE_UNIX_ADDR: &str = "unix:///tmp/node.sock";
const EXAMPLE_TCP_IPV6_ADDR: &str =
    "tcp://abd636b766dcefb5322d8ca40011ec2cb35efbc2@[2001:0000:3238:DFE1:0063:0000:0000:FEFB]:26656";

#[test]
fn parse_tcp_addr() {
    let tcp_addr_without_prefix = &EXAMPLE_TCP_ADDR[TCP_PREFIX.len()..];

    for tcp_addr in &[EXAMPLE_TCP_ADDR, tcp_addr_without_prefix] {
        match tcp_addr.parse::<Address>().unwrap() {
            Address::Tcp {
                peer_id,
                host,
                port,
            } => {
                assert_eq!(
                    peer_id.unwrap(),
                    parse_node_id("abd636b766dcefb5322d8ca40011ec2cb35efbc2").unwrap()
                );
                assert_eq!(host, "35.192.61.41");
                assert_eq!(port, 26656);
            }
            other => panic!("unexpected address type: {:?}", other),
        }
    }
}

#[test]
fn parse_tcp_addr_without_id() {
    let addr = EXAMPLE_TCP_ADDR_WITHOUT_ID.parse::<Address>().unwrap();
    let addr_without_prefix = EXAMPLE_TCP_ADDR_WITHOUT_ID[TCP_PREFIX.len()..]
        .parse::<Address>()
        .unwrap();
    for addr in &[addr, addr_without_prefix] {
        match addr {
            Address::Tcp {
                peer_id,
                host,
                port,
            } => {
                assert!(peer_id.is_none());
                assert_eq!(host, "35.192.61.41");
                assert_eq!(*port, 26656);
            }
            other => panic!("unexpected address type: {:?}", other),
        }
    }
}

#[test]
fn parse_unix_addr() {
    let addr = EXAMPLE_UNIX_ADDR.parse::<Address>().unwrap();
    match addr {
        Address::Unix { path } => {
            assert_eq!(path, "/tmp/node.sock");
        }
        other => panic!("unexpected address type: {:?}", other),
    }
}

#[test]
fn parse_tcp_ipv6_addr() {
    let addr = EXAMPLE_TCP_IPV6_ADDR.parse::<Address>().unwrap();
    let addr_without_prefix = EXAMPLE_TCP_IPV6_ADDR[TCP_PREFIX.len()..]
        .parse::<Address>()
        .unwrap();
    for addr in &[addr, addr_without_prefix] {
        match addr {
            Address::Tcp {
                peer_id,
                host,
                port,
            } => {
                assert_eq!(
                    peer_id.clone().unwrap(),
                    parse_node_id("abd636b766dcefb5322d8ca40011ec2cb35efbc2").unwrap()
                );
                // The URL parser strips the leading zeroes and converts to lowercase hex
                assert_eq!(host, "[2001:0:3238:dfe1:63::fefb]");
                assert_eq!(*port, 26656);
            }
            other => panic!("unexpected address type: {:?}", other),
        }
    }
}

#[test]
fn parse_rejects_unknown_scheme() {
    let err = "ftp://example.com:21".parse::<Address>().unwrap_err();
    assert_eq!(err.kind(), cosmon::error::ErrorKind::ConfigError);
}

#[test]
fn address_to_text_tcp() {
    let addr = Address::Tcp {
        peer_id: Some("abd636b766dcefb5322d8ca40011ec2cb35efbc2".to_string()),
        host: "35.192.61.41".to_string(),
        port: 26656,
    };
    assert_eq!(
        addr.to_text(),
        "tcp://abd636b766dcefb5322d8ca40011ec2cb35efbc2@35.192.61.41:26656"
    );
    let unix = Address::Unix {
        path: "/tmp/node.sock".to_string(),
    };
    assert_eq!(unix.to_text(), "unix:///tmp/node.sock");
}

#[test]
fn node_id_is_normalized_to_lowercase() {
    assert_eq!(
        parse_node_id("ABD636B766DCEFB5322D8CA40011EC2CB35EFBC2").unwrap(),
        "abd636b766dcefb5322d8ca40011ec2cb35efbc2"
    );
    assert!(parse_node_id("abd636").is_none());
    assert!(parse_node_id("zzd636b766dcefb5322d8ca40011ec2cb35efbc2").is_none());
}
