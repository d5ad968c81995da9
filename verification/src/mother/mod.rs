//! The mother protocol: the framing, state machine, scheduler and handshake
//! shared by every FastLink protocol.

pub mod error;
pub mod handshake;
pub mod message;
pub mod scheduler;
pub mod state_machine;
pub mod traits;
