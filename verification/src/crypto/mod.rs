//! Cryptographic helpers: hashing, key derivation, key exchange, signatures,
//! authenticated encryption, replay protection and key rotation.

pub mod hash;
pub mod kdf;
pub mod key_manager;
pub mod key_exchange;
pub mod replay_protection;
pub mod signature;
pub mod symmetric;
