//! Framed packets: `length (varint) | id (varint) | payload`, with the
//! two-byte legacy ping recognised on its own.

use vstd::prelude::*;
use vstd::utf8::encode_utf8;

use crate::reader::{CursoredVarDataReader, VarDataReader};
use crate::wire::{
    i32_bits, int_at, int_bytes, lemma_i32_bits, lemma_int_at_len, lemma_long_at_len,
    lemma_pow128_bounds, lemma_var_decode_encode, lemma_var_decode_extend, lemma_var_encode_len,
    overwrite, string_bytes,
};
use crate::writer::{write_at, CursoredVarDataWriter, VarDataWriter};

verus! {

/// Packet id that stands for the legacy two-byte ping.
pub const LEGACY_PING_ID: i32 = 255;

/// A packet: its id and its payload, with a cursor for reading and writing
/// payload fields in turn.
pub struct MinecraftPacket {
    pub len: i32,
    pub id: i32,
    pub data: Vec<u8>,
    pub cursor: usize,
}

/// Why a buffer did not yield a packet or a typed view.
#[derive(Debug)]
pub enum PacketParseError {
    /// A field of a typed view could not be read; holds the field's name.
    MalformedField(String),
    /// The buffered bytes do not (yet) hold a whole consistent packet.
    PacketFormatError(String),
    /// Kept for callers that match on it; treated like `PacketFormatError`.
    LengthMismatch,
    /// There were no bytes at all.
    EmptyBuffer,
}

impl PacketParseError {
    /// Whether more input may still turn the buffer into a packet.
    pub open spec fn is_recoverable(&self) -> bool {
        !(self is MalformedField)
    }
}

/// The protocol state that a handshake asks for, as carried on the wire.
#[derive(Debug, Copy, Clone, PartialEq, Eq, Structural)]
pub enum MinecraftProtocolState {
    HANDSHAKING,
    STATUS,
    LOGIN,
    PLAY,
    NONE,
}

/// The protocol state named by a wire value; anything outside `0..=3` is `NONE`.
pub open spec fn protocol_state_of(v: int) -> MinecraftProtocolState {
    if v == 0 {
        MinecraftProtocolState::HANDSHAKING
    } else if v == 1 {
        MinecraftProtocolState::STATUS
    } else if v == 2 {
        MinecraftProtocolState::LOGIN
    } else if v == 3 {
        MinecraftProtocolState::PLAY
    } else {
        MinecraftProtocolState::NONE
    }
}

impl MinecraftProtocolState {
    /// The state named by a wire value.
    pub fn from_wire(v: i32) -> (r: MinecraftProtocolState)
        ensures
            r == protocol_state_of(v as int),
    {
        match v {
            0 => MinecraftProtocolState::HANDSHAKING,
            1 => MinecraftProtocolState::STATUS,
            2 => MinecraftProtocolState::LOGIN,
            3 => MinecraftProtocolState::PLAY,
            _ => MinecraftProtocolState::NONE,
        }
    }

    /// The wire value of the state; `NONE` is written as 65535.
    pub open spec fn to_wire_spec(self) -> i32 {
        match self {
            MinecraftProtocolState::HANDSHAKING => 0,
            MinecraftProtocolState::STATUS => 1,
            MinecraftProtocolState::LOGIN => 2,
            MinecraftProtocolState::PLAY => 3,
            MinecraftProtocolState::NONE => 65535,
        }
    }

    /// The wire value of the state; `NONE` is written as 65535.
    #[verifier::when_used_as_spec(to_wire_spec)]
    pub fn to_wire(self) -> (r: i32)
        ensures
            r == self.to_wire_spec(),
            protocol_state_of(r as int) == self,
    {
        match self {
            MinecraftProtocolState::HANDSHAKING => 0,
            MinecraftProtocolState::STATUS => 1,
            MinecraftProtocolState::LOGIN => 2,
            MinecraftProtocolState::PLAY => 3,
            MinecraftProtocolState::NONE => 65535,
        }
    }
}

/// The buffer is exactly the legacy ping `0xFE 0x01`.
pub open spec fn is_legacy_ping(buf: Seq<u8>) -> bool {
    buf.len() == 2 && buf[0] == 0xFE && buf[1] == 0x01
}

/// The packet at the front of `buf`, if it holds a whole one: its id, its
/// payload and the number of bytes it spans.
pub open spec fn frame_at(buf: Seq<u8>) -> Option<(i32, Seq<u8>, nat)> {
    if buf.len() == 0 {
        None
    } else if is_legacy_ping(buf) {
        Some((LEGACY_PING_ID, Seq::empty(), 2))
    } else {
        match int_at(buf, 0) {
            None => None,
            Some((length, length_width)) => match int_at(buf, length_width as int) {
                None => None,
                Some((id, id_width)) => {
                    if length < id_width || length_width + length > buf.len() {
                        None
                    } else {
                        Some(
                            (
                                id,
                                buf.subrange(
                                    length_width + id_width,
                                    length_width + length,
                                ),
                                (length_width + length) as nat,
                            ),
                        )
                    }
                },
            },
        }
    }
}

/// The framed form of a packet: the varint count of the bytes that follow,
/// the varint id, then the payload.
pub open spec fn frame_bytes(id: i32, payload: Seq<u8>) -> Seq<u8> {
    int_bytes((payload.len() + int_bytes(id).len()) as i32) + int_bytes(id) + payload
}

impl MinecraftPacket {
    /// `len` is the payload's length and the cursor lies within the payload.
    pub open spec fn wf(&self) -> bool {
        &&& self.len as int == self.data@.len()
        &&& self.cursor <= self.data@.len()
    }

    /// An empty packet with the given id.
    pub fn new(id: i32) -> (r: MinecraftPacket)
        ensures
            r.wf(),
            r.id == id,
            r.data@ == Seq::<u8>::empty(),
            r.cursor == 0,
    {
        MinecraftPacket { len: 0, id, data: Vec::new(), cursor: 0 }
    }

    /// Takes the packet at the front of `buf`: the packet and the number of
    /// bytes it spans, or why there is none.
    pub fn parse_packet(buf: Vec<u8>) -> (r: Result<(MinecraftPacket, usize), PacketParseError>)
        ensures
            buf@.len() == 0 ==> r matches Err(PacketParseError::EmptyBuffer),
            match frame_at(buf@) {
                Some((id, payload, n)) => r matches Ok((p, m)) && p.wf() && p.id == id
                    && p.data@ == payload && p.cursor == 0 && m == n,
                None => buf@.len() > 0 ==> r matches Err(PacketParseError::PacketFormatError(_)),
            },
    {
        let total = buf.len();
        if total == 0 {
            return Err(PacketParseError::EmptyBuffer);
        }
        if total == 2 && buf[0] == 0xFE && buf[1] == 0x01 {
            return Ok((MinecraftPacket { len: 0, id: LEGACY_PING_ID, data: Vec::new(), cursor: 0 }, 2));
        }
        match buf.read_int(0) {
            None => Err(PacketParseError::PacketFormatError("unable to read packet length".to_string())),
            Some((length, length_width)) => {
                proof {
                    lemma_int_at_len(buf@, 0);
                }
                match buf.read_int(length_width) {
                    None => Err(PacketParseError::PacketFormatError("unable to read packet id".to_string())),
                    Some((id, id_width)) => {
                        proof {
                            lemma_int_at_len(buf@, length_width as int);
                        }
                        if length < 0 || (length as usize) < id_width || (length as usize) > total
                            - length_width {
                            return Err(
                                PacketParseError::PacketFormatError(
                                    "buffer does not hold the whole packet".to_string(),
                                ),
                            );
                        }
                        let start = length_width + id_width;
                        let end = length_width + length as usize;
                        let mut data: Vec<u8> = Vec::new();
                        let mut i = start;
                        while i < end
                            invariant
                                start <= i <= end <= buf@.len(),
                                data@ == buf@.subrange(start as int, i as int),
                            decreases end - i,
                        {
                            data.push(buf[i]);
                            i = i + 1;
                            proof {
                                assert(data@ =~= buf@.subrange(start as int, i as int));
                            }
                        }
                        let packet = MinecraftPacket {
                            len: (end - start) as i32,
                            id,
                            data,
                            cursor: 0,
                        };
                        Ok((packet, end))
                    },
                }
            },
        }
    }

    /// The framed bytes of the packet.
    pub fn encode(&self) -> (r: Vec<u8>)
        requires
            self.wf(),
            self.data@.len() + int_bytes(self.id).len() <= i32::MAX,
        ensures
            r@ == frame_bytes(self.id, self.data@),
    {
        let mut out: Vec<u8> = Vec::new();
        let id_width = out.write_int(self.id, 0);
        let ghost id_bytes = int_bytes(self.id);
        let ghost length_bytes = int_bytes((self.len + id_width) as i32);
        let length_width = out.write_int(self.len + id_width as i32, 0);
        let offset = length_width + out.write_int(self.id, length_width);
        proof {
            assert(out@ =~= length_bytes + id_bytes);
        }
        write_at(&mut out, offset, self.data.as_slice());
        proof {
            assert(out@ =~= frame_bytes(self.id, self.data@));
        }
        out
    }

    /// A packet with the given id whose payload is one length-prefixed string.
    pub fn with_string(id: i32, text: &String) -> (r: MinecraftPacket)
        requires
            encode_utf8(text@).len() + 5 <= i32::MAX,
        ensures
            r.wf(),
            r.id == id,
            r.data@ == string_bytes(text@),
    {
        let mut packet = MinecraftPacket::new(id);
        packet.write_string(text);
        proof {
            assert(overwrite(Seq::empty(), 0, string_bytes(text@)) =~= string_bytes(text@));
        }
        packet
    }

    /// A disconnect packet (id 0) carrying a chat document in JSON text.
    pub fn create_disconnect_packet(chat_json: &String) -> (r: MinecraftPacket)
        requires
            encode_utf8(chat_json@).len() + 5 <= i32::MAX,
        ensures
            r.wf(),
            r.id == 0,
            r.data@ == string_bytes(chat_json@),
    {
        MinecraftPacket::with_string(0, chat_json)
    }
}


/// A packet found at the front of a buffer spans at least one byte of it.
pub proof fn lemma_frame_at_len(buf: Seq<u8>)
    ensures
        frame_at(buf) matches Some((id, payload, n)) ==> 0 < n <= buf.len() && payload.len() < n,
{
    lemma_int_at_len(buf, 0);
    if let Some((length, lw)) = int_at(buf, 0) {
        lemma_int_at_len(buf, lw as int);
    }
}

/// The varint of `i` at the front of `bytes + rest` reads back as `i`.
proof fn lemma_int_at_front(i: i32, rest: Seq<u8>)
    ensures
        1 <= int_bytes(i).len() <= 5,
        int_at(int_bytes(i) + rest, 0) == Some((i, int_bytes(i).len() as usize)),
{
    let s = int_bytes(i) + rest;
    lemma_i32_bits(i);
    lemma_pow128_bounds();
    lemma_var_encode_len(i32_bits(i), 5);
    lemma_var_decode_encode(i32_bits(i), rest, 5);
    assert(s.subrange(0, s.len() as int) =~= s);
}

/// Parsing the framed form of a packet gives back its id and payload, and
/// consumes exactly the framed bytes.
pub proof fn lemma_frame_round_trip(id: i32, payload: Seq<u8>)
    requires
        payload.len() + 5 <= i32::MAX,
    ensures
        frame_at(frame_bytes(id, payload)) == Some((id, payload, frame_bytes(id, payload).len())),
{
    let idb = int_bytes(id);
    lemma_int_at_front(id, payload);
    let length = (payload.len() + idb.len()) as i32;
    let lb = int_bytes(length);
    let f = frame_bytes(id, payload);
    assert(f =~= lb + (idb + payload));
    lemma_int_at_front(length, idb + payload);
    let lw = lb.len();
    assert(f.subrange(lw as int, f.len() as int) =~= idb + payload);
    assert(int_at(f, lw as int) == Some((id, idb.len() as usize))) by {
        let tail = f.subrange(lw as int, f.len() as int);
        assert(tail.subrange(0, tail.len() as int) =~= tail);
    }
    if f.len() == 2 {
        assert(lb.len() == 1 && idb.len() == 1 && payload.len() == 0);
        assert(length == 1);
        assert(f[0] == 1u8);
    }
    assert(f.subrange(lw + idb.len() as int, lw + length as int) =~= payload);
}

/// A buffer that holds only the first `k` bytes of a framed packet yields no
/// packet, unless those bytes happen to be the legacy ping.
pub proof fn lemma_frame_partial(id: i32, payload: Seq<u8>, k: nat)
    requires
        payload.len() + 5 <= i32::MAX,
        k < frame_bytes(id, payload).len(),
        !is_legacy_ping(frame_bytes(id, payload).subrange(0, k as int)),
    ensures
        frame_at(frame_bytes(id, payload).subrange(0, k as int)) is None,
{
    let f = frame_bytes(id, payload);
    let p = f.subrange(0, k as int);
    lemma_frame_round_trip(id, payload);
    if k > 0 {
        let rest = f.subrange(k as int, f.len() as int);
        assert(f =~= p + rest);
        assert(p.subrange(0, p.len() as int) =~= p);
        assert(f.subrange(0, f.len() as int) =~= f);
        lemma_var_decode_extend(p, rest, 5);
        match int_at(p, 0) {
            None => {},
            Some((length, lw)) => {
                lemma_int_at_len(p, 0);
                let q = p.subrange(lw as int, k as int);
                let fq = f.subrange(lw as int, f.len() as int);
                assert(fq =~= q + rest);
                lemma_var_decode_extend(q, rest, 5);
            },
        }
    }
}

impl CursoredVarDataReader for MinecraftPacket {
    open spec fn read_payload(&self) -> Seq<u8> {
        self.data@
    }

    open spec fn read_cursor(&self) -> nat {
        self.cursor as nat
    }

    fn reset_cursor(&mut self)
        ensures
            final(self).id == old(self).id,
            final(self).len == old(self).len,
            final(self).data == old(self).data,
            old(self).wf() ==> final(self).wf(),
    {
        self.cursor = 0;
    }

    fn read_int(&mut self) -> (r: Option<i32>)
        ensures
            final(self).id == old(self).id,
            final(self).len == old(self).len,
            final(self).data == old(self).data,
            old(self).wf() ==> final(self).wf(),
    {
        let size = self.data.len();
        match self.data.read_int(self.cursor) {
            None => None,
            Some((val, n)) => {
                proof {
                    lemma_int_at_len(self.data@, self.cursor as int);
                }
                self.cursor = self.cursor + n;
                Some(val)
            },
        }
    }

    fn read_long(&mut self) -> (r: Option<i64>)
        ensures
            final(self).id == old(self).id,
            final(self).len == old(self).len,
            final(self).data == old(self).data,
            old(self).wf() ==> final(self).wf(),
    {
        let size = self.data.len();
        match self.data.read_long(self.cursor) {
            None => None,
            Some((val, n)) => {
                proof {
                    lemma_long_at_len(self.data@, self.cursor as int);
                }
                self.cursor = self.cursor + n;
                Some(val)
            },
        }
    }

    fn read_u16(&mut self) -> (r: Option<u16>)
        ensures
            final(self).id == old(self).id,
            final(self).len == old(self).len,
            final(self).data == old(self).data,
            old(self).wf() ==> final(self).wf(),
    {
        let size = self.data.len();
        match self.data.read_u16(self.cursor) {
            None => None,
            Some(val) => {
                self.cursor = self.cursor + 2;
                Some(val)
            },
        }
    }

    fn read_string(&mut self) -> (r: Option<String>)
        ensures
            final(self).id == old(self).id,
            final(self).len == old(self).len,
            final(self).data == old(self).data,
            old(self).wf() ==> final(self).wf(),
    {
        let size = self.data.len();
        match self.data.read_string(self.cursor) {
            None => None,
            Some((val, n)) => {
                self.cursor = self.cursor + n;
                Some(val)
            },
        }
    }
}

impl CursoredVarDataWriter for MinecraftPacket {
    open spec fn write_payload(&self) -> Seq<u8> {
        self.data@
    }

    open spec fn write_cursor(&self) -> nat {
        self.cursor as nat
    }

    open spec fn write_limit(&self) -> nat {
        i32::MAX as nat
    }

    open spec fn write_ready(&self) -> bool {
        self.wf()
    }

    fn reset_cursor(&mut self)
        ensures
            final(self).id == old(self).id,
    {
        self.cursor = 0;
    }

    fn write_int(&mut self, val: i32)
        ensures
            final(self).id == old(self).id,
    {
        let n = self.data.write_int(val, self.cursor);
        self.cursor = self.cursor + n;
        self.len = self.data.len() as i32;
    }

    fn write_long(&mut self, val: i64)
        ensures
            final(self).id == old(self).id,
    {
        let n = self.data.write_long(val, self.cursor);
        self.cursor = self.cursor + n;
        self.len = self.data.len() as i32;
    }

    fn write_u16(&mut self, val: u16)
        ensures
            final(self).id == old(self).id,
    {
        self.data.write_u16(val, self.cursor);
        self.cursor = self.cursor + 2;
        self.len = self.data.len() as i32;
    }

    fn write_string(&mut self, val: &String)
        ensures
            final(self).id == old(self).id,
    {
        let n = self.data.write_string(val, self.cursor);
        self.cursor = self.cursor + n;
        self.len = self.data.len() as i32;
    }
}

} // verus!
