//! Typed views of the packets that clients send before the proxy relays.

use vstd::prelude::*;
use vstd::utf8::encode_utf8;

use crate::packet::{protocol_state_of, MinecraftPacket, MinecraftProtocolState, PacketParseError};
use crate::reader::CursoredVarDataReader;
use crate::wire::{
    int_at, int_bytes, lemma_bytes_len, lemma_int_round_trip, lemma_overwrite_append,
    lemma_overwrite_same, lemma_string_round_trip, lemma_u16_round_trip, long_at, string_at,
    string_bytes, u16_at, u16_bytes,
};
use crate::writer::CursoredVarDataWriter;

verus! {

/// The handshake packet: the protocol version, the virtual host and port the
/// client asked for, and the state it wants next.
#[derive(Clone, Debug)]
pub struct HandshakePacket {
    pub protocol_version: u32,
    pub server_address: String,
    pub server_port: u16,
    pub next_state: MinecraftProtocolState,
}

/// A status ping: a timestamp that the proxy echoes back.
#[derive(Clone, Copy, Debug)]
pub struct PingPacket {
    pub timestamp: i64,
}

/// The handshake fields read from a payload, in order: protocol version
/// (varint), host (string), port (big-endian 16-bit), next state (varint).
pub open spec fn handshake_fields(p: Seq<u8>) -> Option<(i32, Seq<char>, u16, i32)> {
    match int_at(p, 0) {
        None => None,
        Some((version, n1)) => match string_at(p, n1 as int) {
            None => None,
            Some((host, n2)) => match u16_at(p, n1 + n2) {
                None => None,
                Some(port) => match int_at(p, n1 + n2 + 2) {
                    None => None,
                    Some((next, n4)) => Some((version, host, port, next)),
                },
            },
        },
    }
}

/// The name of the first handshake field that cannot be read from `p`.
pub open spec fn handshake_bad_field(p: Seq<u8>) -> Seq<char> {
    match int_at(p, 0) {
        None => "protocol_version"@,
        Some((version, n1)) => match string_at(p, n1 as int) {
            None => "server_address"@,
            Some((host, n2)) => match u16_at(p, n1 + n2) {
                None => "server_port"@,
                Some(port) => "next_state"@,
            },
        },
    }
}

/// The payload of a handshake packet.
pub open spec fn handshake_bytes(version: i32, host: Seq<char>, port: u16, next: i32) -> Seq<u8> {
    int_bytes(version) + string_bytes(host) + u16_bytes(port) + int_bytes(next)
}

/// The fields written as a handshake payload read back as the same fields.
pub proof fn lemma_handshake_round_trip(version: i32, host: Seq<char>, port: u16, next: i32)
    requires
        encode_utf8(host).len() <= i32::MAX,
    ensures
        handshake_fields(handshake_bytes(version, host, port, next)) == Some(
            (version, host, port, next),
        ),
{
    let a = int_bytes(version);
    let b = string_bytes(host);
    let c = u16_bytes(port);
    let d = int_bytes(next);
    let p = handshake_bytes(version, host, port, next);
    let n1 = a.len() as int;
    let n2 = b.len() as int;
    assert(p.subrange(0, n1) =~= a);
    assert(p.subrange(n1, n1 + n2) =~= b);
    assert(p.subrange(n1 + n2, n1 + n2 + 2) =~= c);
    assert(p.subrange(n1 + n2 + 2, p.len() as int) =~= d);
    lemma_bytes_len(version, 0);
    lemma_bytes_len(next, 0);
    lemma_bytes_len(encode_utf8(host).len() as i32, 0);
    assert(int_at(p, 0) == Some((version, n1 as usize))) by {
        lemma_overwrite_same(p, 0, a);
        lemma_int_round_trip(p, 0, version);
    }
    assert(string_at(p, n1) == Some((host, n2 as usize))) by {
        lemma_overwrite_same(p, n1, b);
        lemma_string_round_trip(p, n1, host);
    }
    assert(u16_at(p, n1 + n2) == Some(port)) by {
        lemma_overwrite_same(p, n1 + n2, c);
        lemma_u16_round_trip(p, n1 + n2, port);
    }
    assert(int_at(p, n1 + n2 + 2) == Some((next, d.len() as usize))) by {
        lemma_overwrite_same(p, n1 + n2 + 2, d);
        lemma_int_round_trip(p, n1 + n2 + 2, next);
    }
}

impl HandshakePacket {
    /// Reads the handshake fields from the packet's payload, from its start.
    pub fn try_from(packet: &mut MinecraftPacket) -> (r: Result<HandshakePacket, PacketParseError>)
        requires
            old(packet).wf(),
        ensures
            final(packet).wf(),
            final(packet).id == old(packet).id,
            final(packet).data == old(packet).data,
            match handshake_fields(old(packet).data@) {
                Some((version, host, port, next)) => r matches Ok(h) && h.protocol_version
                    == version as u32 && h.server_address@ == host && h.server_port == port
                    && h.next_state == protocol_state_of(next as int),
                None => r matches Err(PacketParseError::MalformedField(f)) && f@
                    == handshake_bad_field(old(packet).data@),
            },
    {
        CursoredVarDataReader::reset_cursor(packet);
        let version = match packet.read_int() {
            Some(v) => v,
            None => {
                return Err(PacketParseError::MalformedField("protocol_version".to_string()));
            },
        };
        let address = match packet.read_string() {
            Some(v) => v,
            None => {
                return Err(PacketParseError::MalformedField("server_address".to_string()));
            },
        };
        let port = match packet.read_u16() {
            Some(v) => v,
            None => {
                return Err(PacketParseError::MalformedField("server_port".to_string()));
            },
        };
        let next = match packet.read_int() {
            Some(v) => v,
            None => {
                return Err(PacketParseError::MalformedField("next_state".to_string()));
            },
        };
        Ok(
            HandshakePacket {
                protocol_version: version as u32,
                server_address: address,
                server_port: port,
                next_state: MinecraftProtocolState::from_wire(next),
            },
        )
    }

    /// The handshake as a packet with id 0.
    pub fn to_packet(&self) -> (r: MinecraftPacket)
        requires
            encode_utf8(self.server_address@).len() + 20 <= i32::MAX,
        ensures
            r.wf(),
            r.id == 0,
            r.data@ == handshake_bytes(
                #[verifier::truncate] (self.protocol_version as i32),
                self.server_address@,
                self.server_port,
                self.next_state.to_wire_spec(),
            ),
    {
        let version = #[verifier::truncate] (self.protocol_version as i32);
        let next = self.next_state.to_wire();
        let ghost a = int_bytes(version);
        let ghost b = string_bytes(self.server_address@);
        let ghost c = u16_bytes(self.server_port);
        let ghost d = int_bytes(next);
        proof {
            lemma_bytes_len(version, 0);
            lemma_bytes_len(next, 0);
            lemma_bytes_len(encode_utf8(self.server_address@).len() as i32, 0);
            lemma_overwrite_append(Seq::empty(), a);
            lemma_overwrite_append(a, b);
            lemma_overwrite_append(a + b, c);
            lemma_overwrite_append(a + b + c, d);
            assert(Seq::<u8>::empty() + a =~= a);
        }
        let mut packet = MinecraftPacket::new(0);
        packet.write_int(version);
        packet.write_string(&self.server_address);
        packet.write_u16(self.server_port);
        packet.write_int(next);
        packet
    }
}

impl PingPacket {
    /// Reads the timestamp from the packet's payload, from its start.
    pub fn try_from(packet: &mut MinecraftPacket) -> (r: Result<PingPacket, PacketParseError>)
        requires
            old(packet).wf(),
        ensures
            final(packet).wf(),
            final(packet).id == old(packet).id,
            final(packet).data == old(packet).data,
            match long_at(old(packet).data@, 0) {
                Some((t, n)) => r matches Ok(ping) && ping.timestamp == t,
                None => r matches Err(PacketParseError::MalformedField(f)) && f@ == "timestamp"@,
            },
    {
        CursoredVarDataReader::reset_cursor(packet);
        match packet.read_long() {
            Some(t) => Ok(PingPacket { timestamp: t }),
            None => Err(PacketParseError::MalformedField("timestamp".to_string())),
        }
    }
}

} // verus!
