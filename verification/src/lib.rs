//! FastLink: verified core of a peer-to-peer networking stack.
//!
//! The modules follow the layers of the stack: shared value types,
//! cryptographic helpers, the mother protocol (framing, state machine,
//! scheduling, handshake), NAT traversal (STUN, ICE candidates, strategy
//! selection), the DHTs and the protocol families built on top of them.

pub mod common;
pub mod crypto;
pub mod fastdht;
pub mod netest;
pub mod mother;
pub mod omnilink;
pub mod p2p;
pub mod protocols;
pub mod testkit;
