//! The messages exchanged between a client and the session server.

use vstd::prelude::*;
use crate::movement::MoveModifier;

verus! {

/// Identifies one live transport connection to the session server.
pub type ClientId = u64;

/// Identifies a user across sessions: the 128 bits of the user's UUID.
pub type UserId = u128;

/// A point in the world. Each coordinate holds the bit pattern of an
/// IEEE 754 single-precision number; the core relays coordinates and never
/// computes with them.
#[derive(Clone, Copy, Debug, PartialEq, Eq, Structural)]
pub struct PlayerPosition {
    pub x: u32,
    pub y: u32,
    pub z: u32,
}

impl PlayerPosition {
    /// The origin: three positive zeros.
    pub open spec fn origin() -> PlayerPosition {
        PlayerPosition { x: 0, y: 0, z: 0 }
    }

    /// The position with the given coordinate bit patterns.
    pub fn new(x: u32, y: u32, z: u32) -> (p: PlayerPosition)
        ensures
            p == (PlayerPosition { x, y, z }),
    {
        PlayerPosition { x, y, z }
    }
}

impl Default for PlayerPosition {
    fn default() -> (p: PlayerPosition)
        ensures
            p == PlayerPosition::origin(),
    {
        PlayerPosition { x: 0, y: 0, z: 0 }
    }
}

/// What a client sends to the session server.
#[derive(Debug, PartialEq, Eq)]
pub enum ClientMessage {
    /// The sender joins as the user `user_id`.
    Join { user_id: UserId },
    /// The sender leaves.
    Disconnect,
    /// The sender says `message` to everybody.
    ChatMessage { message: String },
    /// The sender has moved to `position`.
    UpdatePosition { position: PlayerPosition },
    /// A movement key of the sender went down or up.
    SendModifier(MoveModifier),
}

/// What the session server sends to clients.
#[derive(Debug, PartialEq, Eq)]
pub enum ServerMessage {
    /// A peer has joined: its connection and its user.
    ClientConnected { client_id: ClientId, user_id: UserId },
    /// A peer has left.
    ClientDisconnected { client_id: ClientId },
    /// A peer said `message`.
    ChatMessage { client_id: ClientId, message: String },
    /// A peer is at `position`.
    UpdatePosition { client_id: ClientId, position: PlayerPosition },
    /// A movement key of a peer went down or up.
    SendModifier { client_id: ClientId, key_code: MoveModifier },
}

} // verus!
