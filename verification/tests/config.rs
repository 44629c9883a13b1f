use udp_xor_relay::config::{Config, EndpointConfig, ServerConfig, SockAddr};
use udp_xor_relay::obfs::ObfsConfig;

fn endpoint(port: u16) -> EndpointConfig {
    EndpointConfig { address: SockAddr { ip: 0x7F000001, port }, buffer: 4096, timeout: 60 }
}

fn server(name: &str, key: Vec<u8>) -> ServerConfig {
    ServerConfig {
        name: name.to_string(),
        obfs: ObfsConfig { key, first: None },
        relay: endpoint(5000),
        upstream: endpoint(5001),
    }
}

#[test]
fn server_with_key_is_valid() {
    assert!(server("ok", vec![0x01]).validate());
}

#[test]
fn empty_key_is_rejected() {
    assert!(!server("bad", vec![]).validate());
}

#[test]
fn config_valid_when_all_servers_are() {
    let c = Config { servers: vec![server("a", vec![1]), server("b", vec![2, 3])] };
    assert!(c.validate());
}

#[test]
fn config_invalid_when_any_server_is() {
    let c = Config { servers: vec![server("a", vec![1]), server("b", vec![])] };
    assert!(!c.validate());
}

#[test]
fn empty_config_is_valid() {
    assert!(Config { servers: Vec::new() }.validate());
}
