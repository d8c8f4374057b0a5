use pistonproxy::client_packets::HandshakePacket;
use pistonproxy::config::{Config, ConfigEndpoint, ConfigSettings, LogLevel};
use pistonproxy::packet::{MinecraftPacket, MinecraftProtocolState};
use pistonproxy::proxy::{ProxySocketInfo, ProxySocketState, Reply};
use pistonproxy::socket_tracker::{admit_client, SocketTracker};
use pistonproxy::writer::CursoredVarDataWriter;

fn settings() -> ConfigSettings {
    ConfigSettings {
        cache_size: 0,
        handshake_timeout: 5000,
        client_buffer_size: 1024,
        client_packets_limit: 0,
        backend_buffer_size: 1024,
        ratelimit_window: 0,
        ratelimit: 0,
        concurrent_limit: 0,
        clients_limit: 2,
        listen: 25565,
        log: LogLevel::DEBUG,
        log_inspect_buffer_limit: 0,
    }
}

fn config() -> Config {
    Config {
        settings: settings(),
        endpoints: vec![
            ConfigEndpoint {
                hostname: "slow.test".to_string(),
                origin: Some("127.0.0.1:1".to_string()),
                motd: None,
                message: None,
            },
            ConfigEndpoint {
                hostname: "play.test".to_string(),
                origin: Some("127.0.0.1:25566".to_string()),
                motd: None,
                message: None,
            },
            ConfigEndpoint {
                hostname: "closed.test".to_string(),
                origin: None,
                motd: None,
                message: Some("Come back later".to_string()),
            },
            ConfigEndpoint { hostname: "bare.test".to_string(), origin: None, motd: None, message: None },
        ],
        blocklist: Vec::new(),
    }
}

fn handshake(host: &str, next: MinecraftProtocolState) -> Vec<u8> {
    HandshakePacket {
        protocol_version: 765,
        server_address: host.to_string(),
        server_port: 25565,
        next_state: next,
    }
    .to_packet()
    .encode()
}

fn handshake_raw(host: &str, next: i32) -> Vec<u8> {
    let mut packet = MinecraftPacket::new(0);
    packet.write_int(765);
    packet.write_string(&host.to_string());
    packet.write_u16(25565);
    packet.write_int(next);
    packet.encode()
}

fn session() -> ProxySocketInfo {
    ProxySocketInfo::new(1000, 1024, 1024)
}

#[test]
fn status_probe_and_ping_echo() {
    let config = config();
    let mut s = session();
    let step = s.on_client_chunk(&handshake("example.test", MinecraftProtocolState::STATUS), &config, 1001);
    assert!(step.replies.is_empty());
    assert_eq!(s.state, ProxySocketState::Status);
    assert_eq!(s.last_activity, 1001);

    let step = s.on_client_chunk(&[1, 0], &config, 1002);
    assert_eq!(step.replies.len(), 1);
    match &step.replies[0] {
        Reply::Status(status) => {
            assert_eq!(status.version.name, "1.20.4");
            assert_eq!(status.version.protocol, 765);
            assert_eq!(status.players.online, 0);
            assert_eq!(status.players.max, 20);
            assert_eq!(status.description.text, "Hello world");
            assert!(status.favicon.is_none());
        }
        other => panic!("unexpected reply {:?}", other),
    }
    assert_eq!(s.state, ProxySocketState::Status);

    let mut ping = MinecraftPacket::new(1);
    ping.write_long(0xCAFEBABE);
    let ping_bytes = ping.encode();
    let step = s.on_client_chunk(&ping_bytes, &config, 1003);
    assert_eq!(step.replies.len(), 1);
    match &step.replies[0] {
        Reply::Raw(bytes) => assert_eq!(bytes, &ping_bytes),
        other => panic!("unexpected reply {:?}", other),
    }
    assert_eq!(s.state, ProxySocketState::Status);
    assert!(!step.shutdown);
}

#[test]
fn status_probe_after_failed_dial() {
    let config = config();
    let mut s = session();
    let step = s.on_client_chunk(&handshake("slow.test", MinecraftProtocolState::LOGIN), &config, 1001);
    assert_eq!(step.dial.as_deref(), Some("127.0.0.1:1"));
    assert_eq!(s.state, ProxySocketState::Login);
    let step = s.on_dial_result(false, &config, 1002);
    assert!(step.replies.is_empty());
    assert_eq!(s.state, ProxySocketState::Status);
    assert_eq!(s.disconnect_on_join.as_deref(), Some("Bad Gateway"));

    let mut probe = handshake("slow.test", MinecraftProtocolState::STATUS);
    probe.extend_from_slice(&[1, 0]);
    let step = s.on_client_chunk(&probe, &config, 1003);
    assert_eq!(step.replies.len(), 1);
    match &step.replies[0] {
        Reply::Disconnect(chat) => assert_eq!(chat.text, "Bad Gateway"),
        other => panic!("unexpected reply {:?}", other),
    }
    assert_eq!(s.state, ProxySocketState::Closed);
    assert!(step.shutdown);
}

#[test]
fn login_handoff_keeps_residual_bytes() {
    let config = config();
    let mut s = session();
    let residual: Vec<u8> = (0..64u8).map(|i| i.wrapping_mul(37).wrapping_add(5)).collect();
    let mut segment = handshake("play.test", MinecraftProtocolState::LOGIN);
    segment.extend_from_slice(&residual);
    let step = s.on_client_chunk(&segment, &config, 1001);
    assert!(step.replies.is_empty());
    assert_eq!(step.dial.as_deref(), Some("127.0.0.1:25566"));

    let step = s.on_dial_result(true, &config, 1002);
    assert!(step.replies.is_empty());
    assert_eq!(s.state, ProxySocketState::Forward);
    assert_eq!(s.take_backend_bytes(), residual);

    let step = s.on_client_chunk(&[0xAA, 0xBB], &config, 1003);
    assert!(step.replies.is_empty());
    assert_eq!(s.take_backend_bytes(), vec![0xAA, 0xBB]);
    assert!(s.take_backend_bytes().is_empty());
}

#[test]
fn legacy_ping_is_consumed_silently() {
    let config = config();
    let mut s = session();
    let step = s.on_client_chunk(&[0xFE, 0x01], &config, 1001);
    assert!(step.replies.is_empty());
    assert!(!step.shutdown);
    assert_eq!(s.state, ProxySocketState::Handshake);
    assert!(s.client_buffer.is_empty());
    assert_eq!(s.last_activity, 1000);
}

#[test]
fn overflow_closes() {
    let config = config();
    let mut s = ProxySocketInfo::new(0, 16, 16);
    let chunk = vec![0x80u8; 17];
    let step = s.on_client_chunk(&chunk, &config, 1);
    assert!(step.shutdown);
    assert!(step.replies.is_empty());
    assert_eq!(s.state, ProxySocketState::Closed);

    let mut s = ProxySocketInfo::new(0, 16, 16);
    let step = s.on_client_chunk(&[0x80u8; 16], &config, 1);
    assert!(!step.shutdown);
    let step = s.on_client_chunk(&[0x80u8], &config, 2);
    assert!(step.shutdown);
    assert_eq!(s.state, ProxySocketState::Closed);
}

#[test]
fn handshake_next_state_transitions() {
    let config = config();
    for (next, state) in [
        (1, ProxySocketState::Status),
        (2, ProxySocketState::Login),
        (0, ProxySocketState::Closed),
        (3, ProxySocketState::Closed),
        (65537, ProxySocketState::Closed),
    ] {
        let mut s = session();
        let step = s.on_client_chunk(&handshake_raw("example.test", next), &config, 1001);
        if next == 2 {
            assert_eq!(s.state, ProxySocketState::Closed);
            assert_eq!(step.replies.len(), 1);
        } else {
            assert_eq!(s.state, state);
            assert!(step.replies.is_empty());
        }
    }
    let mut s = session();
    let step = s.on_client_chunk(&handshake_raw("slow.test", 2), &config, 1001);
    assert_eq!(s.state, ProxySocketState::Login);
    assert!(step.dial.is_some());
}

#[test]
fn login_without_origin_disconnects_once() {
    let config = config();
    let mut s = session();
    let step = s.on_client_chunk(&handshake("closed.test", MinecraftProtocolState::LOGIN), &config, 1001);
    assert_eq!(step.replies.len(), 1);
    match &step.replies[0] {
        Reply::Disconnect(chat) => {
            assert_eq!(chat.text, "Come back later");
            assert_eq!(chat.color.as_deref(), Some("#0ad4d9"));
        }
        other => panic!("unexpected reply {:?}", other),
    }
    assert_eq!(s.state, ProxySocketState::Closed);
    assert!(step.shutdown);
    assert!(step.dial.is_none());

    let mut s = session();
    let step = s.on_client_chunk(&handshake("bare.test", MinecraftProtocolState::LOGIN), &config, 1001);
    match &step.replies[0] {
        Reply::Disconnect(chat) => assert_eq!(chat.text, "Server configuration error"),
        other => panic!("unexpected reply {:?}", other),
    }

    let mut s = session();
    let step = s.on_client_chunk(&handshake("unknown.test", MinecraftProtocolState::LOGIN), &config, 1001);
    assert_eq!(step.replies.len(), 1);
    match &step.replies[0] {
        Reply::Disconnect(chat) => assert_eq!(chat.text, "Hello world!"),
        other => panic!("unexpected reply {:?}", other),
    }
    assert_eq!(s.state, ProxySocketState::Closed);
}

#[test]
fn forward_sends_no_replies() {
    let config = config();
    let mut s = session();
    s.on_client_chunk(&handshake("play.test", MinecraftProtocolState::LOGIN), &config, 1001);
    s.on_dial_result(true, &config, 1002);
    let status_request = vec![1u8, 0];
    let step = s.on_client_chunk(&status_request, &config, 1003);
    assert!(step.replies.is_empty());
    assert_eq!(s.state, ProxySocketState::Forward);
    assert_eq!(s.take_backend_bytes(), status_request);
}

#[test]
fn malformed_handshake_closes() {
    let config = config();
    let mut s = session();
    let step = s.on_client_chunk(&[2, 0, 0x80], &config, 1001);
    assert_eq!(s.state, ProxySocketState::Closed);
    assert!(step.shutdown);
    assert!(step.replies.is_empty());
}

#[test]
fn split_packets_across_chunks() {
    let config = config();
    let mut s = session();
    let bytes = handshake("example.test", MinecraftProtocolState::STATUS);
    let (a, b) = bytes.split_at(5);
    let step = s.on_client_chunk(a, &config, 1001);
    assert!(step.replies.is_empty());
    assert_eq!(s.state, ProxySocketState::Handshake);
    let step = s.on_client_chunk(b, &config, 1002);
    assert!(step.replies.is_empty());
    assert_eq!(s.state, ProxySocketState::Status);
}

#[test]
fn client_end_of_stream_closes() {
    let config = config();
    let mut s = session();
    let step = s.on_client_chunk(&[], &config, 1001);
    assert!(step.shutdown);
    assert_eq!(s.state, ProxySocketState::Closed);
}

#[test]
fn backend_relay() {
    let config = config();
    let mut s = session();
    s.on_client_chunk(&handshake("play.test", MinecraftProtocolState::LOGIN), &config, 1001);
    s.on_dial_result(true, &config, 1002);
    let step = s.on_backend_chunk(&[1, 2, 3], 1003);
    assert_eq!(step.output, vec![1, 2, 3]);
    assert!(!step.shutdown);
    let step = s.on_backend_chunk(&[], 1004);
    assert!(step.shutdown);
    assert_eq!(s.state, ProxySocketState::Closed);

    let mut s = ProxySocketInfo::new(0, 16, 4);
    s.on_client_chunk(&handshake("play.test", MinecraftProtocolState::LOGIN), &config, 1);
    s.on_dial_result(true, &config, 2);
    let step = s.on_backend_chunk(&[0; 5], 3);
    assert!(step.shutdown);
    assert!(step.output.is_empty());
    assert_eq!(s.state, ProxySocketState::Closed);
}

#[test]
fn handshake_timeout() {
    let config = config();
    let s = ProxySocketInfo::new(1000, 64, 64);
    assert!(!s.handshake_expired(5999, 5000));
    assert!(s.handshake_expired(6000, 5000));
    let mut s = ProxySocketInfo::new(1000, 64, 64);
    s.on_client_chunk(&handshake("example.test", MinecraftProtocolState::STATUS), &config, 1001);
    assert!(!s.handshake_expired(100_000, 5000));
}

#[test]
fn state_names() {
    assert_eq!(ProxySocketState::Forward.name(), "Forward");
    assert_eq!(ProxySocketState::Handshake.name(), "Handshake");
}

#[test]
fn tracker_add_remove() {
    let mut tracker: SocketTracker<&str> = SocketTracker::new();
    assert_eq!(tracker.add_socket("a"), 0);
    assert_eq!(tracker.add_socket("b"), 1);
    assert_eq!(tracker.add_socket("c"), 2);
    assert_eq!(tracker.size(), 3);
    tracker.remove_socket(1);
    assert_eq!(tracker.size(), 2);
    assert_eq!(tracker.sockets, vec![(0, "a"), (2, "c")]);
    tracker.remove_socket(7);
    assert_eq!(tracker.size(), 2);
    assert_eq!(tracker.add_socket("d"), 3);
}

#[test]
fn client_cap() {
    assert!(admit_client(0, 2));
    assert!(admit_client(1, 2));
    assert!(!admit_client(2, 2));
    assert!(!admit_client(0, 0));
}
