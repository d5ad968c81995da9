//! A small DHT: values kept with an expiry time, and a bounded list of
//! peers searched by XOR distance.

pub mod dht;
