use udp_xor_relay::config::{Config, EndpointConfig, ServerConfig, SockAddr};
use udp_xor_relay::obfs::ObfsConfig;
use udp_xor_relay::relay::{IngressAction, RecvAction, RecvEvent, ingress_step, recv_step};
use udp_xor_relay::session::SessionTable;

fn cfg(key: Vec<u8>, first: Option<usize>) -> ObfsConfig {
    ObfsConfig { key, first }
}

fn peer(n: u16) -> SockAddr {
    SockAddr { ip: 0x0A00002A, port: n }
}

#[test]
fn recv_data_is_relayed_transformed_to_same_peer() {
    let p = peer(7000);
    let a = recv_step(RecvEvent::Data(b"hello".to_vec()), p, &cfg(vec![0xFF], None));
    match a {
        RecvAction::Relay(bytes, to) => {
            assert_eq!(bytes, vec![0x97, 0x9A, 0x93, 0x93, 0x90]);
            assert_eq!(to, p);
        }
        RecvAction::Terminate => panic!("data must be relayed"),
    }
}

#[test]
fn recv_error_terminates_session() {
    let a = recv_step(RecvEvent::Failed, peer(1), &cfg(vec![1], None));
    assert!(matches!(a, RecvAction::Terminate));
}

#[test]
fn recv_timeout_terminates_session() {
    let a = recv_step(RecvEvent::TimedOut, peer(1), &cfg(vec![1], None));
    assert!(matches!(a, RecvAction::Terminate));
}

#[test]
fn ingress_transforms_and_sends_on_fresh_session() {
    let mut t = SessionTable::new();
    let a = ingress_step(&mut t, peer(2), vec![0x10, 0x20, 0x30, 0x40], &cfg(vec![0x01], Some(2)), true);
    match a {
        IngressAction::Send(sid, bytes) => {
            assert_eq!(sid, 0);
            assert_eq!(bytes, vec![0x11, 0x21, 0x30, 0x40]);
        }
        IngressAction::Dropped => panic!("open succeeded, datagram must be sent"),
    }
}

#[test]
fn ingress_reuses_live_session() {
    let mut t = SessionTable::new();
    let p = peer(3);
    let first = ingress_step(&mut t, p, vec![1], &cfg(vec![0xAA], None), true);
    let sid0 = match first {
        IngressAction::Send(sid, _) => sid,
        IngressAction::Dropped => panic!("unexpected drop"),
    };
    // open_ok is irrelevant while the session lives
    let second = ingress_step(&mut t, p, vec![2], &cfg(vec![0xAA], None), false);
    match second {
        IngressAction::Send(sid, bytes) => {
            assert_eq!(sid, sid0);
            assert_eq!(bytes, vec![2 ^ 0xAA]);
        }
        IngressAction::Dropped => panic!("live session must be reused"),
    }
}

#[test]
fn ingress_drops_datagram_when_open_fails() {
    let mut t = SessionTable::new();
    let a = ingress_step(&mut t, peer(4), vec![9, 9, 9], &cfg(vec![0x55], None), false);
    assert!(matches!(a, IngressAction::Dropped));
}

#[test]
fn two_servers_keep_their_own_keys_and_peers() {
    // two configured servers: traffic through one is untouched by the
    // other's key, and their session tables are independent
    let server_a = ServerConfig {
        name: "a".to_string(),
        obfs: cfg(vec![0x0F], None),
        relay: EndpointConfig { address: SockAddr { ip: 1, port: 9000 }, buffer: 2048, timeout: 30 },
        upstream: EndpointConfig { address: SockAddr { ip: 2, port: 9001 }, buffer: 2048, timeout: 30 },
    };
    let server_b = ServerConfig {
        name: "b".to_string(),
        obfs: cfg(vec![0xF0], None),
        relay: EndpointConfig { address: SockAddr { ip: 1, port: 9100 }, buffer: 2048, timeout: 30 },
        upstream: EndpointConfig { address: SockAddr { ip: 2, port: 9101 }, buffer: 2048, timeout: 30 },
    };
    let config = Config { servers: vec![server_a, server_b] };
    assert!(config.validate());

    let mut table_a = SessionTable::new();
    let mut table_b = SessionTable::new();
    let p = peer(1234);
    let sent = vec![0x00, 0xFF];
    let via_a = ingress_step(&mut table_a, p, sent.clone(), &config.servers[0].obfs, true);
    let via_b = ingress_step(&mut table_b, p, sent.clone(), &config.servers[1].obfs, true);
    match (via_a, via_b) {
        (IngressAction::Send(_, bytes_a), IngressAction::Send(_, bytes_b)) => {
            assert_eq!(bytes_a, vec![0x0F, 0xF0]);
            assert_eq!(bytes_b, vec![0xF0, 0x0F]);
        }
        _ => panic!("both servers must forward"),
    }
}
