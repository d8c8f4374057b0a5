//! Packets that the proxy sends to clients.

use vstd::prelude::*;

use crate::chat::ChatData;

verus! {

/// The game version that a status response announces.
#[derive(Clone, Debug)]
pub struct ServerVersion {
    pub name: String,
    pub protocol: i32,
}

/// The player counts that a status response announces.
#[derive(Clone, Debug)]
pub struct ServerPlayersInfo {
    pub max: i32,
    pub online: i32,
    pub sample: Vec<()>,
}

/// A status (server list ping) response.
#[derive(Debug)]
pub struct StatusPacket {
    pub version: ServerVersion,
    pub players: ServerPlayersInfo,
    pub description: ChatData,
    pub favicon: Option<String>,
    pub enforces_secure_chat: bool,
}

} // verus!
