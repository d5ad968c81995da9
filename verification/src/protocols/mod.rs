//! The protocol families built on the mother protocol: the stealth protocol
//! (Aztec), the low-latency transport (Swift), the client-server protocol,
//! chat and games.

pub mod aztec;

pub mod swift;
pub mod server;
pub mod chat;
pub mod games;
