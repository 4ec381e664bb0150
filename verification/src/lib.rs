//! Mubah keeps two heroes in step between two players, a host and a client,
//! over datagrams.
//!
//! - `geometry`, `entity`: points, vectors and heroes, and what a tick
//!   decides about a hero.
//! - `packet`: the messages, their datagrams, and the receiver pipeline's
//!   turn.
//! - `wire`: the encoding underneath: little-endian fields, struct layout,
//!   segment table, packing.
//! - `udpstream`: whom an endpoint sends to and whom it heard from.
//! - `handshake`: how the two sides meet and which hero each gets.
//! - `net`: pending packets, outgoing datagrams, heartbeat cadence, latency
//!   probe.
//! - `game`: the roster, the local player's input and the tick.
//!
//! The library touches no socket, no window and no floating-point number.
//! Its caller moves datagrams, reads the pointer and does the arithmetic of
//! motion; the library decides.

pub mod entity;
pub mod game;
pub mod geometry;
pub mod handshake;
pub mod net;
pub mod packet;
pub mod udpstream;
pub mod wire;
