//! NAT traversal: STUN, ICE candidates, NAT classification, traversal
//! strategies and port prediction.

pub mod birthday_punch;
pub mod candidate;
pub mod ice;
pub mod nat_detection;
pub mod stun;
pub mod transport;
pub mod traversal;
