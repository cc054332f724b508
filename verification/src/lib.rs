//! Core of a chat-to-stream relay: a single-occupant connection slot, a
//! stable wire schema with its JSON encoding, the relay decision that maps
//! upstream chat events onto wire messages, and configuration parsing.
//!
//! Everything here is pure logic over plain values; the surrounding process
//! (sockets, handshakes, the upstream client) lives outside this crate and
//! drives these functions.

pub mod config;
pub mod decimal;
pub mod error;
pub mod jtext;
pub mod relay;
pub mod slot;
pub mod wire;
