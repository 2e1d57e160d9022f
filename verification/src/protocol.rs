//! Messages exchanged between client and server.
use vstd::prelude::*;

verus! {

/// Identifier the server hands to each connected client.
pub type ClientId = u32;

/// Client -> Server
#[derive(Debug, Clone, Copy, PartialEq, Eq)]
pub enum C2s {
    /// Input for a specific simulation tick.
    Input(Input),
}

/// Server -> Client
#[derive(Debug, Clone, PartialEq, Eq)]
pub enum S2c {
    Welcome { client_id: ClientId },
    /// Authoritative snapshot at a server tick.
    Snapshot(Snapshot),
}

/// One sample of a client's controls.
#[derive(Debug, Clone, Copy, PartialEq, Eq)]
pub struct Input {
    pub seq: u32,
    pub up: bool,
    pub down: bool,
    pub left: bool,
    pub right: bool,
    /// Aim direction, quantized.
    pub aim_x: i16,
    pub aim_y: i16,
    pub shoot: bool,
}

/// The state of every connected player at one server tick.
#[derive(Debug, Clone, PartialEq, Eq)]
pub struct Snapshot {
    pub tick: u32,
    pub players: Vec<PlayerState>,
}

/// One player's entry in a [`Snapshot`].
#[derive(Debug, Clone, Copy, PartialEq, Eq)]
pub struct PlayerState {
    pub id: ClientId,
    /// Position in millimeters (fixed-point), to keep messages small and deterministic.
    pub x_mm: i32,
    pub y_mm: i32,
    pub hp: u16,
    /// Last input sequence number received by the server for this player.
    pub last_input_seq: u32,
}

} // verus!
