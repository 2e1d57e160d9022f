//! Game rules and protocol messages of a small top-down multiplayer shooter:
//! an authoritative, tick-based server and a browser client that exchange
//! binary messages over a WebSocket.
//!
//! This crate holds the logic of both sides: the message types, the arena
//! rules that move players, the server's table of connected players and the
//! client's session state.

pub mod counter;
pub mod protocol;
pub mod arena;
pub mod server;
pub mod session;
pub mod client;
