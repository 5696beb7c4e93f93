//! Wire protocol and matchmaking core of an online two-player tic-tac-toe
//! server.

pub mod serialization;
pub mod game;
pub mod packets;
pub mod registry;
pub mod handshake;
pub mod framing;
