//! The FoggyChat server: its protocol, its ciphers, and what it does with its clients.
//!
//! The library decides and computes. It reads no socket and no clock: packets and the time come in as
//! plain values, and what is to be sent comes out as plain values.

pub mod crypt;
pub mod identity;
pub mod number;
pub mod protocol_utils;
pub mod server;
pub mod text;
