//! A hostname-aware reverse proxy core for a length-prefixed game handshake.
//!
//! The modules hold the pure logic: the VarInt codec, the handshake parser,
//! the route table, the server configuration and the per-session decisions.
//! Sockets, timers and persistence live with the caller.
pub mod error;
pub mod handshake;
pub mod routes;
pub mod server;
pub mod session;
pub mod varint;
