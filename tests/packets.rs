use pistonproxy::chat::ChatData;
use pistonproxy::client_packets::{HandshakePacket, PingPacket};
use pistonproxy::config::{Config, ConfigEndpoint, ConfigSettings, LogLevel};
use pistonproxy::packet::{MinecraftPacket, MinecraftProtocolState, PacketParseError};
use pistonproxy::reader::CursoredVarDataReader;
use pistonproxy::utils::bytes_as_hex;
use pistonproxy::writer::CursoredVarDataWriter;

fn chat_json(chat: &ChatData) -> String {
    let mut map = serde_json::Map::new();
    map.insert("text".to_string(), serde_json::Value::String(chat.text.clone()));
    map.insert("bold".to_string(), serde_json::Value::Bool(chat.bold));
    map.insert("italic".to_string(), serde_json::Value::Bool(chat.italic));
    map.insert("underlined".to_string(), serde_json::Value::Bool(chat.underlined));
    map.insert("strikethrough".to_string(), serde_json::Value::Bool(chat.strikethrough));
    map.insert("obfuscated".to_string(), serde_json::Value::Bool(chat.obfuscated));
    if let Some(color) = &chat.color {
        map.insert("color".to_string(), serde_json::Value::String(color.clone()));
    }
    serde_json::Value::Object(map).to_string()
}

#[test]
fn encode_and_decode_packet() {
    let msg = String::from("Hello world!");
    let sent_packet = MinecraftPacket::create_disconnect_packet(&chat_json(&ChatData::new(msg.clone())));
    let bytes = sent_packet.encode();

    let res = MinecraftPacket::parse_packet(bytes.to_vec());
    let (mut parsed_packet, _) = res.unwrap();
    assert_eq!(parsed_packet.id, sent_packet.id);
    let body = parsed_packet.read_string().unwrap();
    let chat_data: serde_json::Value = serde_json::from_str(&body).unwrap();
    assert_eq!(chat_data["text"].as_str().unwrap(), msg);
}

#[test]
fn parse_empty_buffer() {
    assert!(matches!(MinecraftPacket::parse_packet(Vec::new()), Err(PacketParseError::EmptyBuffer)));
}

#[test]
fn parse_legacy_ping() {
    let (packet, n) = MinecraftPacket::parse_packet(vec![0xFE, 0x01]).unwrap();
    assert_eq!(packet.id, 255);
    assert_eq!(packet.len, 0);
    assert!(packet.data.is_empty());
    assert_eq!(n, 2);
}

#[test]
fn parse_frame_with_trailing_bytes() {
    let (packet, n) = MinecraftPacket::parse_packet(vec![4, 0, 1, 2, 3, 99, 98]).unwrap();
    assert_eq!(packet.id, 0);
    assert_eq!(packet.data, vec![1, 2, 3]);
    assert_eq!(packet.len, 3);
    assert_eq!(n, 5);
}

#[test]
fn parse_incomplete_or_inconsistent() {
    assert!(matches!(
        MinecraftPacket::parse_packet(vec![4, 0, 1]),
        Err(PacketParseError::PacketFormatError(_))
    ));
    assert!(matches!(
        MinecraftPacket::parse_packet(vec![0x80]),
        Err(PacketParseError::PacketFormatError(_))
    ));
    assert!(matches!(
        MinecraftPacket::parse_packet(vec![3]),
        Err(PacketParseError::PacketFormatError(_))
    ));
    assert!(matches!(
        MinecraftPacket::parse_packet(vec![0, 0, 0]),
        Err(PacketParseError::PacketFormatError(_))
    ));
    assert!(matches!(
        MinecraftPacket::parse_packet(vec![0xFF, 0xFF, 0xFF, 0xFF, 0x0F, 0]),
        Err(PacketParseError::PacketFormatError(_))
    ));
}

#[test]
fn encode_exact_bytes() {
    let mut packet = MinecraftPacket::new(0);
    packet.write_u16(0x0102);
    assert_eq!(packet.encode(), vec![3, 0, 1, 2]);
    let packet = MinecraftPacket::new(-1);
    assert_eq!(packet.encode(), vec![5, 0xFF, 0xFF, 0xFF, 0xFF, 0x0F]);
}

#[test]
fn framer_round_trip() {
    for id in [0i32, 1, 127, 128, 255, -1, i32::MAX] {
        for len in [0usize, 1, 2, 127, 128, 300] {
            let mut packet = MinecraftPacket::new(id);
            for i in 0..len {
                packet.write_u16((i % 251) as u16);
            }
            let bytes = packet.encode();
            let (parsed, n) = MinecraftPacket::parse_packet(bytes.clone()).unwrap();
            assert_eq!(parsed.id, id);
            assert_eq!(parsed.data, packet.data);
            assert_eq!(n, bytes.len());
        }
    }
}

#[test]
fn framer_partial_input_is_recoverable() {
    let mut packet = MinecraftPacket::new(7);
    packet.write_string(&"some payload".to_string());
    let bytes = packet.encode();
    for k in 0..bytes.len() {
        match MinecraftPacket::parse_packet(bytes[..k].to_vec()) {
            Err(PacketParseError::EmptyBuffer) => assert_eq!(k, 0),
            Err(PacketParseError::PacketFormatError(_)) => assert!(k > 0),
            _ => panic!("prefix of length {} parsed", k),
        }
    }
}

#[test]
fn cursored_reads_advance() {
    let mut packet = MinecraftPacket::new(0);
    packet.write_int(300);
    packet.write_long(-5);
    packet.write_string(&"abc".to_string());
    packet.write_u16(25565);
    CursoredVarDataReader::reset_cursor(&mut packet);
    assert_eq!(packet.read_int(), Some(300));
    assert_eq!(packet.read_long(), Some(-5));
    assert_eq!(packet.read_string(), Some("abc".to_string()));
    assert_eq!(packet.read_u16(), Some(25565));
    assert_eq!(packet.read_u16(), None);
    assert_eq!(packet.len as usize, packet.data.len());
}

#[test]
fn handshake_round_trip() {
    let handshake = HandshakePacket {
        protocol_version: 765,
        server_address: "example.test".to_string(),
        server_port: 25565,
        next_state: MinecraftProtocolState::LOGIN,
    };
    let mut packet = handshake.to_packet();
    assert_eq!(packet.id, 0);
    let parsed = HandshakePacket::try_from(&mut packet).unwrap();
    assert_eq!(parsed.protocol_version, 765);
    assert_eq!(parsed.server_address, "example.test");
    assert_eq!(parsed.server_port, 25565);
    assert_eq!(parsed.next_state, MinecraftProtocolState::LOGIN);
}

#[test]
fn handshake_malformed_fields() {
    let cases: [(Vec<u8>, &str); 4] = [
        (vec![], "protocol_version"),
        (vec![1, 5, b'a'], "server_address"),
        (vec![1, 1, b'a', 0], "server_port"),
        (vec![1, 1, b'a', 0, 1], "next_state"),
    ];
    for (payload, field) in cases {
        let mut packet = MinecraftPacket::new(0);
        packet.data = payload.clone();
        packet.len = payload.len() as i32;
        match HandshakePacket::try_from(&mut packet) {
            Err(PacketParseError::MalformedField(name)) => assert_eq!(name, field),
            _ => panic!("expected a malformed {}", field),
        }
    }
}

#[test]
fn handshake_next_state_values() {
    for (value, state) in [
        (0, MinecraftProtocolState::HANDSHAKING),
        (1, MinecraftProtocolState::STATUS),
        (2, MinecraftProtocolState::LOGIN),
        (3, MinecraftProtocolState::PLAY),
        (4, MinecraftProtocolState::NONE),
        (65537, MinecraftProtocolState::NONE),
        (-1, MinecraftProtocolState::NONE),
    ] {
        assert_eq!(MinecraftProtocolState::from_wire(value), state);
    }
    assert_eq!(MinecraftProtocolState::STATUS.to_wire(), 1);
    assert_eq!(MinecraftProtocolState::NONE.to_wire(), 65535);
}

#[test]
fn ping_parse() {
    let mut packet = MinecraftPacket::new(1);
    packet.write_long(0xCAFEBABE);
    assert_eq!(PingPacket::try_from(&mut packet).unwrap().timestamp, 0xCAFEBABE);
    let mut empty = MinecraftPacket::new(1);
    match PingPacket::try_from(&mut empty) {
        Err(PacketParseError::MalformedField(name)) => assert_eq!(name, "timestamp"),
        _ => panic!("expected a malformed timestamp"),
    }
}

#[test]
fn disconnect_packet_payload() {
    let packet = MinecraftPacket::create_disconnect_packet(&"{\"text\":\"x\"}".to_string());
    assert_eq!(packet.id, 0);
    let mut expected = vec![12u8];
    expected.extend_from_slice(b"{\"text\":\"x\"}");
    assert_eq!(packet.data, expected);
}

#[test]
fn chat_constructors() {
    let plain = ChatData::new("hi".to_string());
    assert_eq!(plain.text, "hi");
    assert!(!plain.bold && !plain.italic && !plain.underlined && !plain.strikethrough && !plain.obfuscated);
    assert!(plain.color.is_none() && plain.extra.is_none());
    let colored = ChatData::new_colored("hi".to_string(), "#00ff00".to_string());
    assert_eq!(colored.color.as_deref(), Some("#00ff00"));
}

fn endpoint(host: &str, origin: Option<&str>) -> ConfigEndpoint {
    ConfigEndpoint {
        hostname: host.to_string(),
        origin: origin.map(|o| o.to_string()),
        motd: None,
        message: None,
    }
}

fn settings() -> ConfigSettings {
    ConfigSettings {
        cache_size: 0,
        handshake_timeout: 5000,
        client_buffer_size: 1024,
        client_packets_limit: 0,
        backend_buffer_size: 1024,
        ratelimit_window: 0,
        ratelimit: 0,
        concurrent_limit: 0,
        clients_limit: 2,
        listen: 25565,
        log: LogLevel::DEBUG,
        log_inspect_buffer_limit: 0,
    }
}

#[test]
fn find_endpoint_first_exact_match() {
    let config = Config {
        settings: settings(),
        endpoints: vec![
            endpoint("a.test", Some("1.1.1.1:1")),
            endpoint("b.test", Some("2.2.2.2:2")),
            endpoint("b.test", Some("3.3.3.3:3")),
        ],
        blocklist: Vec::new(),
    };
    let found = config.find_endpoint("b.test".to_string()).unwrap();
    assert_eq!(found.origin.as_deref(), Some("2.2.2.2:2"));
    assert!(config.find_endpoint("B.test".to_string()).is_none());
    assert!(config.find_endpoint("".to_string()).is_none());
}

#[test]
fn hex_dump() {
    assert_eq!(bytes_as_hex(&[0x00, 0xab, 0x10, 0xff]), "00 ab 10 ff");
    assert_eq!(bytes_as_hex(&[0x7]), "07");
    assert_eq!(bytes_as_hex(&[]), "");
}
