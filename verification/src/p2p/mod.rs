//! The FastLink peer-to-peer protocol: node identities, the Kademlia DHT,
//! connection framing, message routing and peer discovery.


pub mod node;
pub mod dht;
pub mod connection;
pub mod routing;
pub mod discovery;
