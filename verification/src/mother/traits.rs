//! Identifiers and connection states shared by the protocols.

use vstd::prelude::*;
use crate::crypto::hash::{blake3_digest, blake3_of};

verus! {

/// A 32-byte node identifier.
#[derive(Debug, Clone)]
pub struct NodeId(pub [u8; 32]);

impl NodeId {
    /// The identifier `data`.
    pub fn new(data: [u8; 32]) -> (id: NodeId)
        ensures
            id.0 == data,
    {
        NodeId(data)
    }

    /// The identifier derived from a public key: its BLAKE3 hash.
    pub fn from_public_key(public_key: &[u8]) -> (id: NodeId)
        ensures
            id.0@ == blake3_of(public_key@),
    {
        let hash = blake3_digest(public_key);
        let mut id = [0u8; 32];
        let mut i: usize = 0;
        while i < 32
            invariant
                i <= 32,
                hash@ == blake3_of(public_key@),
                hash@.len() == 32,
                forall|j: int| 0 <= j < i ==> id@[j] == hash@[j],
            decreases 32 - i,
        {
            id.set(i, hash[i]);
            i = i + 1;
        }
        assert(id@ =~= hash@);
        NodeId(id)
    }
}

/// A session identifier.
#[derive(Debug, Clone)]
pub struct SessionId(pub u64);

impl SessionId {
    /// The session `id`.
    pub fn new(id: u64) -> (s: SessionId)
        ensures
            s.0 == id,
    {
        SessionId(id)
    }
}

/// The lifecycle of a connection.
#[derive(Debug, Clone, Copy, PartialEq, Eq, Structural)]
pub enum ConnectionState {
    Closed,
    Connecting,
    Handshake,
    Established,
    Closing,
}

/// A network of nodes that can be sent to.
pub trait Network {
    /// Sends `data` to the node `node_id`.
    fn send_to(&mut self, node_id: &NodeId, data: &[u8]) -> Result<(), crate::mother::error::Error>;

    /// Sends `data` to every connected node.
    fn broadcast(&mut self, data: &[u8]) -> Result<(), crate::mother::error::Error>;

    /// The nodes currently connected.
    fn get_connected_nodes(&self) -> Vec<NodeId>;
}

} // verus!
