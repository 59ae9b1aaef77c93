//! The FoggyChat transfer protocol.

pub mod fctp;
pub mod fctp_client;
pub mod fctp_handlers;
pub mod fctp_laws;
pub mod fctp_secure;
pub mod fctp_operations;
