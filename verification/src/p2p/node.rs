//! Peer-to-peer node identities and states.

use vstd::prelude::*;
use crate::common::entropy::random_bytes;
use crate::common::net::{IpAddr, SocketAddr};
use crate::common::text::{hex, to_hex};
use crate::crypto::signature::KeyPair;

verus! {

/// A 32-byte node identifier.
#[derive(Debug, Clone, Copy, PartialEq, Eq, Hash, PartialOrd, Ord)]
pub struct NodeId(pub [u8; 32]);

/// The first `n` bytes of `bytes` copied into a 32-byte identifier, zero-padded.
pub open spec fn spec_id_prefix(bytes: Seq<u8>) -> Seq<u8> {
    Seq::new(32, |i: int| if i < bytes.len() { bytes[i] } else { 0u8 })
}

impl NodeId {
    /// A random identifier.
    pub fn new() -> (id: NodeId) {
        let bytes = random_bytes(32);
        let mut id = [0u8; 32];
        let mut i: usize = 0;
        while i < 32
            invariant
                i <= 32,
                bytes@.len() == 32,
            decreases 32 - i,
        {
            id.set(i, bytes[i]);
            i = i + 1;
        }
        NodeId(id)
    }

    /// The identifier made of a key pair's 32-byte public key.
    pub fn from_keypair(keypair: &KeyPair) -> (id: NodeId)
        ensures
            id.0@ == keypair.spec_public_key(),
    {
        let public_key = keypair.public_key();
        let mut id = [0u8; 32];
        let mut i: usize = 0;
        while i < 32
            invariant
                i <= 32,
                public_key@.len() == 32,
                forall|j: int| 0 <= j < i ==> id@[j] == public_key@[j],
            decreases 32 - i,
        {
            id.set(i, public_key[i]);
            i = i + 1;
        }
        assert(id@ =~= public_key@);
        NodeId(id)
    }

    /// Whether `self` and `other` are the same identifier.
    pub fn same_id(&self, other: &NodeId) -> (b: bool)
        ensures
            b == (self.0@ == other.0@),
    {
        let mut i: usize = 0;
        while i < 32
            invariant
                i <= 32,
                self.0@.len() == 32 && other.0@.len() == 32,
                forall|j: int| 0 <= j < i ==> self.0@[j] == other.0@[j],
            decreases 32 - i,
        {
            if self.0[i] != other.0[i] {
                return false;
            }
            i = i + 1;
        }
        assert(self.0@ =~= other.0@);
        true
    }

    /// The hexadecimal text of the first eight bytes.
    pub fn to_string(&self) -> (s: String)
        ensures
            s@ == hex(self.0@.take(8)),
    {
        let mut prefix: Vec<u8> = Vec::new();
        let mut i: usize = 0;
        while i < 8
            invariant
                i <= 8,
                prefix@ == self.0@.take(i as int),
            decreases 8 - i,
        {
            prefix.push(self.0[i]);
            proof {
                assert(prefix@ =~= self.0@.take(i as int + 1));
            }
            i = i + 1;
        }
        to_hex(prefix.as_slice())
    }
}

impl Default for NodeId {
    /// A random identifier.
    fn default() -> NodeId {
        NodeId::new()
    }
}

/// How a node is configured.
#[derive(Debug, Clone)]
pub struct P2PNodeConfig {
    pub node_id: NodeId,
    pub listen_addr: SocketAddr,
    pub bootstrap_nodes: Vec<SocketAddr>,
    pub dht_k_bucket_size: usize,
    pub max_connections: usize,
    pub message_queue_size: usize,
}

impl Default for P2PNodeConfig {
    /// A random identity listening on any IPv4 address and port, with no
    /// bootstrap nodes, buckets of 20, 100 connections and a queue of 1000.
    fn default() -> (c: P2PNodeConfig)
        ensures
            c.listen_addr == (SocketAddr { ip: IpAddr::V4(0), port: 0 }),
            c.bootstrap_nodes@.len() == 0,
            c.dht_k_bucket_size == 20,
            c.max_connections == 100,
            c.message_queue_size == 1000,
    {
        P2PNodeConfig {
            node_id: NodeId::new(),
            listen_addr: SocketAddr { ip: IpAddr::V4(0), port: 0 },
            bootstrap_nodes: Vec::new(),
            dht_k_bucket_size: 20,
            max_connections: 100,
            message_queue_size: 1000,
        }
    }
}

/// The lifecycle of a node.
#[derive(Debug, Clone, Copy, PartialEq, Eq, Structural)]
pub enum NodeState {
    Idle,
    Bootstrapping,
    Connected,
    Disconnected,
}

/// Why a node operation failed.
#[derive(Debug)]
pub enum P2PError {
    Io(std::io::Error),
    Ice(String),
    Networking(String),
    Dht(String),
    Connection(String),
    Serialization(String),
}

} // verus!
