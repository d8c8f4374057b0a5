//! A reverse proxy core for a length-prefixed, varint-framed game protocol:
//! the wire codec, the packet framer, typed packet views, the routing table
//! and the per-connection session state machine.

pub mod chat;
pub mod client_packets;
pub mod config;
pub mod packet;
pub mod proxy;
pub mod reader;
pub mod server_packets;
pub mod socket_tracker;
pub mod utils;
pub mod wire;
pub mod writer;
