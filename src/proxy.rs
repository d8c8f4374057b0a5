//! The per-connection session: a state machine that parses the client's
//! packets until it can decide where the connection goes, then hands bytes
//! through unchanged in both directions.
//!
//! Sockets stay with the caller. Each step here takes what was read (a chunk,
//! the outcome of a dial) and says what to send, whom to dial and whether to
//! shut the connection down.

use vstd::prelude::*;

use crate::chat::ChatData;
use crate::client_packets::{handshake_fields, HandshakePacket, PingPacket};
use crate::config::{
    first_endpoint, lemma_first_endpoint, Config, ConfigEndpoint, VERSION_PROTOCOL_CODE,
    VERSION_PROTOCOL_NAME,
};
use crate::packet::{frame_at, lemma_frame_at_len, protocol_state_of, MinecraftPacket, MinecraftProtocolState};
use crate::server_packets::{ServerPlayersInfo, ServerVersion, StatusPacket};
use crate::wire::long_at;

verus! {

/// Where a connection stands.
#[derive(Clone, Copy, Debug, PartialEq, Eq, Structural)]
pub enum ProxySocketState {
    /// Waiting for the handshake.
    Handshake,
    /// Terminal: both sockets are shut down.
    Closed,
    /// Answering status requests and pings.
    Status,
    /// The client wants to log in; the routing table decides what follows.
    Login,
    /// Relaying bytes unchanged between client and backend.
    Forward,
}

impl ProxySocketState {
    /// The state's name.
    pub fn name(&self) -> (r: &'static str)
        ensures
            r@ == self.name_spec(),
    {
        match self {
            ProxySocketState::Handshake => "Handshake",
            ProxySocketState::Closed => "Closed",
            ProxySocketState::Status => "Status",
            ProxySocketState::Forward => "Forward",
            ProxySocketState::Login => "Login",
        }
    }

    pub open spec fn name_spec(&self) -> Seq<char> {
        match self {
            ProxySocketState::Handshake => "Handshake"@,
            ProxySocketState::Closed => "Closed"@,
            ProxySocketState::Status => "Status"@,
            ProxySocketState::Forward => "Forward"@,
            ProxySocketState::Login => "Login"@,
        }
    }
}

/// A reply that the proxy itself sends to the client.
#[derive(Debug)]
pub enum Reply {
    /// A status response; sent as a packet with id 0 holding its JSON text.
    Status(StatusPacket),
    /// A disconnect; sent as a packet with id 0 holding the chat's JSON text.
    Disconnect(ChatData),
    /// Bytes sent as they are.
    Raw(Vec<u8>),
}

/// What a reply amounts to.
pub enum ReplyView {
    Status {
        version_name: Seq<char>,
        protocol: i32,
        max: i32,
        online: i32,
        description: Seq<char>,
        description_color: Option<Seq<char>>,
    },
    Disconnect { text: Seq<char>, color: Option<Seq<char>> },
    Raw(Seq<u8>),
}

pub open spec fn opt_view(o: Option<String>) -> Option<Seq<char>> {
    match o {
        Some(s) => Some(s@),
        None => None,
    }
}

impl Reply {
    pub open spec fn view(&self) -> ReplyView {
        match self {
            Reply::Status(s) => ReplyView::Status {
                version_name: s.version.name@,
                protocol: s.version.protocol,
                max: s.players.max,
                online: s.players.online,
                description: s.description.text@,
                description_color: opt_view(s.description.color),
            },
            Reply::Disconnect(c) => ReplyView::Disconnect { text: c.text@, color: opt_view(c.color) },
            Reply::Raw(b) => ReplyView::Raw(b@),
        }
    }
}

pub open spec fn replies_view(rs: Seq<Reply>) -> Seq<ReplyView> {
    rs.map_values(|r: Reply| r.view())
}

/// The status response that the proxy synthesizes.
pub open spec fn status_reply() -> ReplyView {
    ReplyView::Status {
        version_name: "1.20.4"@,
        protocol: 765,
        max: 20,
        online: 0,
        description: "Hello world"@,
        description_color: Some("#00ff00"@),
    }
}

pub open spec fn disconnect_reply(text: Seq<char>, color: Option<Seq<char>>) -> ReplyView {
    ReplyView::Disconnect { text, color }
}

/// What the session's decisions depend on.
pub struct SessionView {
    pub state: ProxySocketState,
    /// The virtual host of the handshake, once one was read.
    pub host: Option<Seq<char>>,
    /// A message that the next status request is answered with, as a disconnect.
    pub pending: Option<Seq<char>>,
    /// Client bytes received and not yet parsed.
    pub buffer: Seq<u8>,
}

/// One packet handled in the parse phase: the next view and the reply, if any.
/// The buffer is left as it is.
pub open spec fn packet_step(v: SessionView, id: i32, payload: Seq<u8>, raw: Seq<u8>) -> (
    SessionView,
    Option<ReplyView>,
) {
    match v.state {
        ProxySocketState::Handshake => {
            if id == 0 {
                match handshake_fields(payload) {
                    None => (SessionView { state: ProxySocketState::Closed, ..v }, None),
                    Some((version, host, port, next)) => {
                        let state = if protocol_state_of(next as int)
                            == MinecraftProtocolState::STATUS {
                            ProxySocketState::Status
                        } else if protocol_state_of(next as int) == MinecraftProtocolState::LOGIN {
                            ProxySocketState::Login
                        } else {
                            ProxySocketState::Closed
                        };
                        (SessionView { state, host: Some(host), ..v }, None)
                    },
                }
            } else {
                (v, None)
            }
        },
        ProxySocketState::Status => {
            if id == 0 {
                match v.pending {
                    Some(m) => (
                        SessionView { state: ProxySocketState::Closed, pending: None, ..v },
                        Some(disconnect_reply(m, None)),
                    ),
                    None => (v, Some(status_reply())),
                }
            } else if id == 1 {
                match long_at(payload, 0) {
                    Some(_) => (v, Some(ReplyView::Raw(raw))),
                    None => (SessionView { state: ProxySocketState::Closed, ..v }, None),
                }
            } else {
                (v, None)
            }
        },
        _ => (v, None),
    }
}

/// The message of a disconnect for an endpoint that has no origin.
pub open spec fn refusal_text(e: ConfigEndpoint) -> Seq<char> {
    match e.message {
        Some(m) => m@,
        None => "Server configuration error"@,
    }
}

/// The routing decision in `Login`: the next view, the reply and the origin
/// to dial, if any. While a dial is pending the state stays `Login`.
pub open spec fn login_step(v: SessionView, eps: Seq<ConfigEndpoint>) -> (
    SessionView,
    Option<ReplyView>,
    Option<Seq<char>>,
) {
    let host = match v.host {
        Some(h) => h,
        None => Seq::empty(),
    };
    match first_endpoint(eps, host) {
        Some(i) => match eps[i].origin {
            Some(o) => (v, None, Some(o@)),
            None => (
                SessionView { state: ProxySocketState::Closed, ..v },
                Some(disconnect_reply(refusal_text(eps[i]), Some("#0ad4d9"@))),
                None,
            ),
        },
        None => (
            SessionView { state: ProxySocketState::Closed, ..v },
            Some(disconnect_reply("Hello world!"@, None)),
            None,
        ),
    }
}

/// Puts `pre` in front of the replies of a phase outcome.
pub open spec fn after(pre: Seq<ReplyView>, o: (SessionView, Seq<ReplyView>, Option<Seq<char>>)) -> (
    SessionView,
    Seq<ReplyView>,
    Option<Seq<char>>,
) {
    (o.0, pre + o.1, o.2)
}

pub open spec fn opt_seq<A>(o: Option<A>) -> Seq<A> {
    match o {
        Some(a) => seq![a],
        None => Seq::empty(),
    }
}

/// The parse phase run over the buffered client bytes: packets are taken
/// from the front and handled one by one until the buffer holds no whole
/// packet, the session leaves the parse phase, or a routing decision is due.
/// Gives the final view, the replies in order and the origin to dial, if any.
#[verifier::opaque]
pub open spec fn pump(v: SessionView, eps: Seq<ConfigEndpoint>) -> (
    SessionView,
    Seq<ReplyView>,
    Option<Seq<char>>,
)
    decreases v.buffer.len(),
{
    if v.state == ProxySocketState::Login {
        let (w, r, d) = login_step(v, eps);
        (w, opt_seq(r), d)
    } else if v.state != ProxySocketState::Handshake && v.state != ProxySocketState::Status {
        (v, Seq::empty(), None)
    } else {
        match frame_at(v.buffer) {
            None => (v, Seq::empty(), None),
            Some((id, payload, n)) => {
                if n == 0 || n > v.buffer.len() {
                    (v, Seq::empty(), None)
                } else {
                    let rest = SessionView { buffer: v.buffer.subrange(n as int, v.buffer.len() as int), ..v };
                    let (w, r) = packet_step(rest, id, payload, v.buffer.subrange(0, n as int));
                    let (x, rs, d) = pump(w, eps);
                    (x, opt_seq(r) + rs, d)
                }
            },
        }
    }
}


/// The status response that the proxy synthesizes.
pub fn default_status() -> (r: StatusPacket)
    ensures
        Reply::Status(r).view() == status_reply(),
{
    StatusPacket {
        version: ServerVersion { name: VERSION_PROTOCOL_NAME.to_string(), protocol: VERSION_PROTOCOL_CODE },
        players: ServerPlayersInfo { max: 20, online: 0, sample: Vec::new() },
        description: ChatData::new_colored("Hello world".to_string(), "#00ff00".to_string()),
        favicon: None,
        enforces_secure_chat: false,
    }
}

/// What the client side of a connection is to do after a step.
pub struct ClientStep {
    /// Replies to send to the client, in order.
    pub replies: Vec<Reply>,
    /// An origin (`host:port`) to dial; report the outcome with `on_dial_result`.
    pub dial: Option<String>,
    /// Whether to shut both sockets down.
    pub shutdown: bool,
}

/// What the backend side of a connection is to do after a chunk.
pub struct BackendStep {
    /// Bytes to write to the client.
    pub output: Vec<u8>,
    /// Whether to shut both sockets down.
    pub shutdown: bool,
}

/// A copy of the bytes.
fn copy_bytes(v: &Vec<u8>) -> (r: Vec<u8>)
    ensures
        r@ == v@,
{
    let mut out: Vec<u8> = Vec::new();
    let mut i: usize = 0;
    while i < v.len()
        invariant
            i <= v@.len(),
            out@ == v@.subrange(0, i as int),
        decreases v@.len() - i,
    {
        out.push(v[i]);
        i = i + 1;
        proof {
            assert(out@ =~= v@.subrange(0, i as int));
        }
    }
    proof {
        assert(out@ =~= v@);
    }
    out
}

/// Appends `src` to `dst`.
fn append_bytes(dst: &mut Vec<u8>, src: &[u8])
    ensures
        final(dst)@ == old(dst)@ + src@,
{
    let mut i: usize = 0;
    while i < src.len()
        invariant
            i <= src@.len(),
            dst@ == old(dst)@ + src@.subrange(0, i as int),
        decreases src@.len() - i,
    {
        dst.push(src[i]);
        i = i + 1;
        proof {
            assert(dst@ =~= old(dst)@ + src@.subrange(0, i as int));
        }
    }
    proof {
        assert(src@.subrange(0, i as int) =~= src@);
    }
}

/// The parse phase ends where no packet can be taken.
proof fn lemma_pump_stop(v: SessionView, eps: Seq<ConfigEndpoint>)
    requires
        v.state != ProxySocketState::Login,
        v.state != ProxySocketState::Handshake && v.state != ProxySocketState::Status
            || frame_at(v.buffer) is None,
    ensures
        pump(v, eps) == (v, Seq::<ReplyView>::empty(), None::<Seq<char>>),
{
    reveal(pump);
}

/// In `Login` the phase ends with the routing decision.
proof fn lemma_pump_login(v: SessionView, eps: Seq<ConfigEndpoint>)
    requires
        v.state == ProxySocketState::Login,
    ensures
        pump(v, eps) == (login_step(v, eps).0, opt_seq(login_step(v, eps).1), login_step(v, eps).2),
{
    reveal(pump);
}

/// One packet taken from the front of the buffer, then the rest of the phase.
proof fn lemma_pump_step(v: SessionView, eps: Seq<ConfigEndpoint>)
    requires
        v.state == ProxySocketState::Handshake || v.state == ProxySocketState::Status,
        frame_at(v.buffer) is Some,
    ensures
        ({
            let (id, payload, n) = frame_at(v.buffer).unwrap();
            let rest = SessionView { buffer: v.buffer.subrange(n as int, v.buffer.len() as int), ..v };
            let (w, r) = packet_step(rest, id, payload, v.buffer.subrange(0, n as int));
            pump(v, eps) == (pump(w, eps).0, opt_seq(r) + pump(w, eps).1, pump(w, eps).2)
        }),
{
    reveal(pump);
    lemma_frame_at_len(v.buffer);
}

/// A handshake read in `Handshake` whose next state is 1 leads to `Status`,
/// one whose next state is 2 leads to `Login`, and any other to `Closed`.
pub proof fn lemma_handshake_next_state(v: SessionView, payload: Seq<u8>, raw: Seq<u8>)
    requires
        v.state == ProxySocketState::Handshake,
        handshake_fields(payload) is Some,
    ensures
        ({
            let next = handshake_fields(payload).unwrap().3;
            let state = packet_step(v, 0, payload, raw).0.state;
            &&& next == 1 ==> state == ProxySocketState::Status
            &&& next == 2 ==> state == ProxySocketState::Login
            &&& next != 1 && next != 2 ==> state == ProxySocketState::Closed
        }),
{
}

/// In `Login`, when the matching endpoint has no origin, the client gets
/// exactly one reply, a disconnect, and the session ends.
pub proof fn lemma_login_without_origin(v: SessionView, eps: Seq<ConfigEndpoint>, i: int)
    requires
        v.state == ProxySocketState::Login,
        v.host matches Some(h) && first_endpoint(eps, h) == Some(i),
        0 <= i < eps.len(),
        eps[i].origin is None,
    ensures
        pump(v, eps).0.state == ProxySocketState::Closed,
        pump(v, eps).1.len() == 1,
        pump(v, eps).1[0] is Disconnect,
        pump(v, eps).2 is None,
{
    reveal(pump);
}

/// Once the session relays, the parse phase sends nothing and changes nothing.
pub proof fn lemma_forward_is_silent(v: SessionView, eps: Seq<ConfigEndpoint>)
    requires
        v.state == ProxySocketState::Forward,
    ensures
        pump(v, eps) == (v, Seq::<ReplyView>::empty(), None::<Seq<char>>),
{
    reveal(pump);
}

/// The per-connection record: the session state, what the handshake said,
/// and the buffers between the two directions.
pub struct ProxySocketInfo {
    pub state: ProxySocketState,
    /// Milliseconds since the epoch at the last state change (or at accept).
    pub last_activity: u64,
    pub handshake_packet: Option<HandshakePacket>,
    /// If set, the next status request is answered with a disconnect carrying it.
    pub disconnect_on_join: Option<String>,
    /// Client bytes received and not yet parsed.
    pub client_buffer: Vec<u8>,
    pub client_buffer_size: usize,
    /// Bytes waiting to be written to the client.
    pub client_send_buffer: Vec<u8>,
    pub backend_buffer_size: usize,
    /// Bytes waiting to be written to the backend.
    pub backend_send_buffer: Vec<u8>,
}

impl ProxySocketInfo {
    pub open spec fn view(&self) -> SessionView {
        SessionView {
            state: self.state,
            host: match self.handshake_packet {
                Some(h) => Some(h.server_address@),
                None => None,
            },
            pending: opt_view(self.disconnect_on_join),
            buffer: self.client_buffer@,
        }
    }

    /// The buffers stay within their sizes, and the client buffer is empty
    /// once bytes are relayed.
    pub open spec fn wf(&self) -> bool {
        &&& self.client_buffer@.len() <= self.client_buffer_size
        &&& self.client_send_buffer@.len() <= self.backend_buffer_size
        &&& self.state == ProxySocketState::Forward ==> self.client_buffer@.len() == 0
    }

    /// A fresh record for a connection accepted at `now`.
    pub fn new(now: u64, client_buffer_size: usize, backend_buffer_size: usize) -> (r: Self)
        ensures
            r.wf(),
            r.state == ProxySocketState::Handshake,
            r.last_activity == now,
            r.handshake_packet is None,
            r.disconnect_on_join is None,
            r.client_buffer@.len() == 0,
            r.client_send_buffer@.len() == 0,
            r.backend_send_buffer@.len() == 0,
            r.client_buffer_size == client_buffer_size,
            r.backend_buffer_size == backend_buffer_size,
    {
        ProxySocketInfo {
            state: ProxySocketState::Handshake,
            last_activity: now,
            handshake_packet: None,
            disconnect_on_join: None,
            client_buffer: Vec::new(),
            client_buffer_size,
            client_send_buffer: Vec::new(),
            backend_buffer_size,
            backend_send_buffer: Vec::new(),
        }
    }

    /// Records a new state and when it was entered.
    pub fn switch_state(&mut self, new_state: ProxySocketState, now: u64)
        ensures
            final(self).state == new_state,
            final(self).last_activity == now,
            final(self).handshake_packet == old(self).handshake_packet,
            final(self).disconnect_on_join == old(self).disconnect_on_join,
            final(self).client_buffer == old(self).client_buffer,
            final(self).client_buffer_size == old(self).client_buffer_size,
            final(self).client_send_buffer == old(self).client_send_buffer,
            final(self).backend_buffer_size == old(self).backend_buffer_size,
            final(self).backend_send_buffer == old(self).backend_send_buffer,
    {
        self.state = new_state;
        self.last_activity = now;
    }

    /// Handles one packet of the parse phase (`Handshake` or `Status`);
    /// `raw` holds the bytes the packet came in.
    pub fn handle_packet(&mut self, packet: MinecraftPacket, raw: Vec<u8>, now: u64) -> (r: Option<Reply>)
        requires
            packet.wf(),
        ensures
            ({
                let (v, reply) = packet_step(old(self).view(), packet.id, packet.data@, raw@);
                &&& final(self).view() == v
                &&& match reply {
                    Some(x) => r matches Some(y) && y.view() == x,
                    None => r is None,
                }
            }),
            final(self).state != old(self).state ==> final(self).last_activity == now,
            final(self).state == old(self).state ==> final(self).last_activity == old(self).last_activity,
            final(self).client_buffer == old(self).client_buffer,
            final(self).client_buffer_size == old(self).client_buffer_size,
            final(self).client_send_buffer == old(self).client_send_buffer,
            final(self).backend_buffer_size == old(self).backend_buffer_size,
            final(self).backend_send_buffer == old(self).backend_send_buffer,
    {
        let mut packet = packet;
        match self.state {
            ProxySocketState::Handshake => {
                if packet.id == 0 {
                    match HandshakePacket::try_from(&mut packet) {
                        Err(_) => {
                            self.switch_state(ProxySocketState::Closed, now);
                        },
                        Ok(handshake) => {
                            let next = handshake.next_state;
                            self.handshake_packet = Some(handshake);
                            match next {
                                MinecraftProtocolState::STATUS => self.switch_state(ProxySocketState::Status, now),
                                MinecraftProtocolState::LOGIN => self.switch_state(ProxySocketState::Login, now),
                                _ => self.switch_state(ProxySocketState::Closed, now),
                            }
                        },
                    }
                }
                None
            },
            ProxySocketState::Status => {
                if packet.id == 0 {
                    match self.disconnect_on_join.take() {
                        Some(message) => {
                            self.switch_state(ProxySocketState::Closed, now);
                            Some(Reply::Disconnect(ChatData::new(message)))
                        },
                        None => Some(Reply::Status(default_status())),
                    }
                } else if packet.id == 1 {
                    match PingPacket::try_from(&mut packet) {
                        Ok(_) => Some(Reply::Raw(raw)),
                        Err(_) => {
                            self.switch_state(ProxySocketState::Closed, now);
                            None
                        },
                    }
                } else {
                    None
                }
            },
            _ => None,
        }
    }

    /// The routing decision in `Login`, from the handshake's virtual host:
    /// the reply to send and the origin to dial, if any.
    pub fn route_login(&mut self, config: &Config, now: u64) -> (r: (Option<Reply>, Option<String>))
        requires
            old(self).state == ProxySocketState::Login,
        ensures
            ({
                let (v, reply, dial) = login_step(old(self).view(), config.endpoints@);
                &&& final(self).view() == v
                &&& match reply {
                    Some(x) => r.0 matches Some(y) && y.view() == x,
                    None => r.0 is None,
                }
                &&& opt_view(r.1) == dial
            }),
            final(self).state != old(self).state ==> final(self).last_activity == now,
            final(self).state == old(self).state ==> final(self).last_activity == old(self).last_activity,
            final(self).client_buffer == old(self).client_buffer,
            final(self).client_buffer_size == old(self).client_buffer_size,
            final(self).client_send_buffer == old(self).client_send_buffer,
            final(self).backend_buffer_size == old(self).backend_buffer_size,
            final(self).backend_send_buffer == old(self).backend_send_buffer,
    {
        let host = match &self.handshake_packet {
            Some(h) => h.server_address.clone(),
            None => String::new(),
        };
        let ghost eps = config.endpoints@;
        match config.find_endpoint(host) {
            Some(endpoint) => {
                proof {
                    let i = choose|i: int|
                        0 <= i < eps.len() && *endpoint == eps[i] && endpoint.hostname@ == host@
                            && forall|j: int| 0 <= j < i ==> eps[j].hostname@ != host@;
                    lemma_first_endpoint(eps, host@, i);
                }
                match &endpoint.origin {
                    Some(origin) => (None, Some(origin.clone())),
                    None => {
                        let message = match &endpoint.message {
                            Some(m) => m.clone(),
                            None => "Server configuration error".to_string(),
                        };
                        self.switch_state(ProxySocketState::Closed, now);
                        (Some(Reply::Disconnect(ChatData::new_colored(message, "#0ad4d9".to_string()))), None)
                    },
                }
            },
            None => {
                self.switch_state(ProxySocketState::Closed, now);
                (Some(Reply::Disconnect(ChatData::new("Hello world!".to_string()))), None)
            },
        }
    }

    /// Runs the parse phase over the buffered client bytes.
    fn parse_buffered(&mut self, config: &Config, now: u64) -> (r: ClientStep)
        requires
            old(self).wf(),
        ensures
            final(self).wf(),
            ({
                let (v, replies, dial) = pump(old(self).view(), config.endpoints@);
                &&& final(self).view() == v
                &&& replies_view(r.replies@) == replies
                &&& opt_view(r.dial) == dial
                &&& r.shutdown == (v.state == ProxySocketState::Closed)
            }),
            final(self).state != old(self).state ==> final(self).last_activity == now,
            final(self).last_activity == old(self).last_activity || final(self).last_activity == now,
            final(self).client_buffer_size == old(self).client_buffer_size,
            final(self).client_send_buffer == old(self).client_send_buffer,
            final(self).backend_buffer_size == old(self).backend_buffer_size,
            final(self).backend_send_buffer == old(self).backend_send_buffer,
    {
        let ghost eps = config.endpoints@;
        let ghost start = self.view();
        let ghost state0 = self.state;
        let mut replies: Vec<Reply> = Vec::new();
        loop
            invariant
                self.wf(),
                eps == config.endpoints@,
                pump(start, eps) == after(replies_view(replies@), pump(self.view(), eps)),
                self.state != state0 ==> self.last_activity == now,
                self.last_activity == old(self).last_activity || self.last_activity == now,
                self.client_buffer_size == old(self).client_buffer_size,
                self.client_send_buffer == old(self).client_send_buffer,
                self.backend_buffer_size == old(self).backend_buffer_size,
                self.backend_send_buffer == old(self).backend_send_buffer,
            ensures
                self.state == ProxySocketState::Login || pump(self.view(), eps) == (
                    self.view(),
                    Seq::<ReplyView>::empty(),
                    None::<Seq<char>>,
                ),
            decreases self.client_buffer@.len(),
        {
            let ghost before = replies@;
            if self.state != ProxySocketState::Handshake && self.state != ProxySocketState::Status {
                proof {
                    if self.state != ProxySocketState::Login {
                        lemma_pump_stop(self.view(), eps);
                    }
                }
                break;
            }
            match MinecraftPacket::parse_packet(copy_bytes(&self.client_buffer)) {
                Err(_) => {
                    proof {
                        lemma_pump_stop(self.view(), eps);
                    }
                    break;
                },
                Ok((packet, n)) => {
                    let ghost v = self.view();
                    proof {
                        lemma_frame_at_len(self.client_buffer@);
                        lemma_pump_step(v, eps);
                    }
                    let mut raw = copy_bytes(&self.client_buffer);
                    let rest = raw.split_off(n);
                    self.client_buffer = rest;
                    let reply = self.handle_packet(packet, raw, now);
                    match reply {
                        Some(x) => replies.push(x),
                        None => {},
                    }
                    proof {
                        assert(replies_view(replies@) =~= replies_view(before) + opt_seq(
                            packet_step(
                                SessionView { buffer: v.buffer.subrange(n as int, v.buffer.len() as int), ..v },
                                packet.id,
                                packet.data@,
                                v.buffer.subrange(0, n as int),
                            ).1,
                        ));
                    }
                },
            }
        }
        if self.state == ProxySocketState::Login {
            let ghost v = self.view();
            let ghost before = replies@;
            proof {
                lemma_pump_login(v, eps);
            }
            let (reply, dial) = self.route_login(config, now);
            match reply {
                Some(x) => replies.push(x),
                None => {},
            }
            proof {
                assert(replies_view(replies@) =~= replies_view(before) + opt_seq(login_step(v, eps).1));
            }
            let shutdown = self.state == ProxySocketState::Closed;
            return ClientStep { replies, dial, shutdown };
        }
        proof {
            assert(replies_view(replies@) + Seq::<ReplyView>::empty() =~= replies_view(replies@));
        }
        let shutdown = self.state == ProxySocketState::Closed;
        ClientStep { replies, dial: None, shutdown }
    }

    /// A chunk read from the client. An empty chunk means the client closed
    /// the connection.
    pub fn on_client_chunk(&mut self, chunk: &[u8], config: &Config, now: u64) -> (r: ClientStep)
        requires
            old(self).wf(),
        ensures
            final(self).wf(),
            final(self).client_buffer_size == old(self).client_buffer_size,
            final(self).backend_buffer_size == old(self).backend_buffer_size,
            final(self).client_send_buffer == old(self).client_send_buffer,
            final(self).state != old(self).state ==> final(self).last_activity == now,
            if chunk@.len() == 0 || old(self).state == ProxySocketState::Closed
                || old(self).client_buffer@.len() + chunk@.len() > old(self).client_buffer_size {
                &&& final(self).view() == (SessionView { state: ProxySocketState::Closed, ..old(self).view() })
                &&& r.replies@.len() == 0
                &&& r.dial is None
                &&& r.shutdown
                &&& final(self).client_buffer == old(self).client_buffer
                &&& final(self).backend_send_buffer == old(self).backend_send_buffer
            } else if old(self).state == ProxySocketState::Forward {
                &&& final(self).view() == old(self).view()
                &&& r.replies@.len() == 0
                &&& r.dial is None
                &&& !r.shutdown
                &&& final(self).client_buffer@.len() == 0
                &&& final(self).backend_send_buffer@ == old(self).backend_send_buffer@ + chunk@
            } else {
                let (v, replies, dial) = pump(
                    SessionView { buffer: old(self).client_buffer@ + chunk@, ..old(self).view() },
                    config.endpoints@,
                );
                &&& final(self).view() == v
                &&& replies_view(r.replies@) == replies
                &&& opt_view(r.dial) == dial
                &&& r.shutdown == (v.state == ProxySocketState::Closed)
                &&& final(self).backend_send_buffer == old(self).backend_send_buffer
            },
    {
        if chunk.len() == 0 || self.state == ProxySocketState::Closed || chunk.len()
            > self.client_buffer_size - self.client_buffer.len() {
            self.switch_state(ProxySocketState::Closed, now);
            return ClientStep { replies: Vec::new(), dial: None, shutdown: true };
        }
        if self.state == ProxySocketState::Forward {
            append_bytes(&mut self.backend_send_buffer, chunk);
            return ClientStep { replies: Vec::new(), dial: None, shutdown: false };
        }
        append_bytes(&mut self.client_buffer, chunk);
        self.parse_buffered(config, now)
    }

    /// The outcome of dialing the origin that a step asked for. On success
    /// the session relays from now on, starting with the client bytes that
    /// came after the handshake; on failure it answers the next status
    /// request with a "Bad Gateway" disconnect, and parses on.
    pub fn on_dial_result(&mut self, connected: bool, config: &Config, now: u64) -> (r: ClientStep)
        requires
            old(self).wf(),
            old(self).state == ProxySocketState::Login,
        ensures
            final(self).wf(),
            final(self).client_buffer_size == old(self).client_buffer_size,
            final(self).backend_buffer_size == old(self).backend_buffer_size,
            final(self).client_send_buffer == old(self).client_send_buffer,
            final(self).state != old(self).state ==> final(self).last_activity == now,
            if connected {
                &&& final(self).view() == (SessionView {
                    state: ProxySocketState::Forward,
                    buffer: Seq::empty(),
                    ..old(self).view()
                })
                &&& r.replies@.len() == 0
                &&& r.dial is None
                &&& !r.shutdown
                &&& final(self).client_buffer@.len() == 0
                &&& final(self).backend_send_buffer@ == old(self).backend_send_buffer@
                    + old(self).client_buffer@
            } else {
                let (v, replies, dial) = pump(
                    SessionView {
                        state: ProxySocketState::Status,
                        pending: Some("Bad Gateway"@),
                        ..old(self).view()
                    },
                    config.endpoints@,
                );
                &&& final(self).view() == v
                &&& replies_view(r.replies@) == replies
                &&& opt_view(r.dial) == dial
                &&& r.shutdown == (v.state == ProxySocketState::Closed)
                &&& final(self).backend_send_buffer == old(self).backend_send_buffer
            },
    {
        if connected {
            self.switch_state(ProxySocketState::Forward, now);
            append_bytes(&mut self.backend_send_buffer, self.client_buffer.as_slice());
            self.client_buffer = Vec::new();
            ClientStep { replies: Vec::new(), dial: None, shutdown: false }
        } else {
            self.switch_state(ProxySocketState::Status, now);
            self.disconnect_on_join = Some("Bad Gateway".to_string());
            self.parse_buffered(config, now)
        }
    }

    /// Hands out the bytes waiting for the backend, in order.
    pub fn take_backend_bytes(&mut self) -> (r: Vec<u8>)
        ensures
            r@ == old(self).backend_send_buffer@,
            final(self).backend_send_buffer@.len() == 0,
            final(self).state == old(self).state,
            final(self).last_activity == old(self).last_activity,
            final(self).handshake_packet == old(self).handshake_packet,
            final(self).disconnect_on_join == old(self).disconnect_on_join,
            final(self).client_buffer == old(self).client_buffer,
            final(self).client_buffer_size == old(self).client_buffer_size,
            final(self).client_send_buffer == old(self).client_send_buffer,
            final(self).backend_buffer_size == old(self).backend_buffer_size,
    {
        let mut out: Vec<u8> = Vec::new();
        std::mem::swap(&mut out, &mut self.backend_send_buffer);
        out
    }

    /// A chunk read from the backend. An empty chunk means the backend closed
    /// the connection. While relaying, the bytes waiting for the client go
    /// out followed by the chunk.
    pub fn on_backend_chunk(&mut self, chunk: &[u8], now: u64) -> (r: BackendStep)
        requires
            old(self).wf(),
        ensures
            final(self).wf(),
            final(self).client_buffer == old(self).client_buffer,
            final(self).client_buffer_size == old(self).client_buffer_size,
            final(self).backend_buffer_size == old(self).backend_buffer_size,
            final(self).backend_send_buffer == old(self).backend_send_buffer,
            final(self).handshake_packet == old(self).handshake_packet,
            final(self).disconnect_on_join == old(self).disconnect_on_join,
            final(self).state != old(self).state ==> final(self).last_activity == now,
            if chunk@.len() == 0 || old(self).state == ProxySocketState::Closed
                || old(self).client_send_buffer@.len() + chunk@.len() > old(self).backend_buffer_size {
                &&& final(self).state == ProxySocketState::Closed
                &&& r.output@.len() == 0
                &&& r.shutdown
                &&& final(self).client_send_buffer == old(self).client_send_buffer
            } else if old(self).state == ProxySocketState::Forward {
                &&& final(self).state == ProxySocketState::Forward
                &&& r.output@ == old(self).client_send_buffer@ + chunk@
                &&& !r.shutdown
                &&& final(self).client_send_buffer@.len() == 0
            } else {
                &&& final(self).state == old(self).state
                &&& r.output@.len() == 0
                &&& !r.shutdown
                &&& final(self).client_send_buffer@ == old(self).client_send_buffer@ + chunk@
            },
    {
        if chunk.len() == 0 || self.state == ProxySocketState::Closed || chunk.len()
            > self.backend_buffer_size - self.client_send_buffer.len() {
            self.switch_state(ProxySocketState::Closed, now);
            return BackendStep { output: Vec::new(), shutdown: true };
        }
        append_bytes(&mut self.client_send_buffer, chunk);
        if self.state == ProxySocketState::Forward {
            let mut out: Vec<u8> = Vec::new();
            std::mem::swap(&mut out, &mut self.client_send_buffer);
            BackendStep { output: out, shutdown: false }
        } else {
            BackendStep { output: Vec::new(), shutdown: false }
        }
    }

    /// An I/O error on either socket: the session ends.
    pub fn close(&mut self, now: u64)
        requires
            old(self).wf(),
        ensures
            final(self).wf(),
            final(self).view() == (SessionView { state: ProxySocketState::Closed, ..old(self).view() }),
            final(self).state != old(self).state ==> final(self).last_activity == now,
            final(self).client_buffer == old(self).client_buffer,
            final(self).backend_send_buffer == old(self).backend_send_buffer,
            final(self).client_send_buffer == old(self).client_send_buffer,
    {
        self.switch_state(ProxySocketState::Closed, now);
    }

    /// Whether the session has waited for its handshake for `timeout`
    /// milliseconds or more by `now`.
    pub fn handshake_expired(&self, now: u64, timeout: u64) -> (r: bool)
        ensures
            r == (self.state == ProxySocketState::Handshake && now >= self.last_activity + timeout),
    {
        self.state == ProxySocketState::Handshake && now >= self.last_activity && now
            - self.last_activity >= timeout
    }
}

} // verus!
