//! The signed handshake that opens a mother-protocol session.

use vstd::prelude::*;
use crate::common::time::Timestamp;
use crate::common::wire::{be16, be64, extend_bytes, push_u16_be, push_u64_be};
use crate::crypto::signature::{ed25519_verify_of, ed25519_sign_of, verify, KeyPair};

verus! {

/// Why a handshake was refused.
#[derive(Debug, Clone, Copy, PartialEq, Eq, Structural)]
pub enum HandshakeError {
    InvalidVersion,
    InvalidSignature,
    Timeout,
    NegotiationFailed,
}

impl HandshakeError {
    /// The message of this error.
    pub fn to_string(&self) -> (s: String)
        ensures
            s@ == match *self {
                HandshakeError::InvalidVersion => "Invalid version"@,
                HandshakeError::InvalidSignature => "Signature verification failed"@,
                HandshakeError::Timeout => "Timeout"@,
                HandshakeError::NegotiationFailed => "Protocol negotiation failed"@,
            },
    {
        match self {
            HandshakeError::InvalidVersion => String::from_str("Invalid version"),
            HandshakeError::InvalidSignature => String::from_str("Signature verification failed"),
            HandshakeError::Timeout => String::from_str("Timeout"),
            HandshakeError::NegotiationFailed => String::from_str("Protocol negotiation failed"),
        }
    }
}

/// A handshake message: the sender's public key and its signature over the
/// protocol, the time in seconds and the nonce.
#[derive(Debug, Clone)]
pub struct HandshakeMessage {
    pub version: u16,
    pub protocol_id: u16,
    pub public_key: Vec<u8>,
    pub signature: Vec<u8>,
    pub timestamp: u64,
    pub nonce: Vec<u8>,
}

/// The bytes a handshake signs: the protocol and the time big-endian, then the nonce.
pub open spec fn spec_sign_data(protocol_id: u16, timestamp: u64, nonce: Seq<u8>) -> Seq<u8> {
    be16(protocol_id) + be64(timestamp) + nonce
}

/// The verdict on `m` checked against the public key `public`.
pub open spec fn spec_handshake_verify(m: HandshakeMessage, public: Seq<u8>) -> Result<(), HandshakeError> {
    if m.version != 1 {
        Err(HandshakeError::InvalidVersion)
    } else if ed25519_verify_of(public, spec_sign_data(m.protocol_id, m.timestamp, m.nonce@), m.signature@) {
        Ok(())
    } else {
        Err(HandshakeError::InvalidSignature)
    }
}

impl HandshakeMessage {
    /// A version-1 message for `protocol_id` stamped `timestamp`, signed with
    /// `key_pair`; checking it against the same key pair succeeds.
    pub fn new_at(protocol_id: u16, key_pair: &KeyPair, nonce: Vec<u8>, timestamp: u64) -> (m: HandshakeMessage)
        ensures
            m.version == 1,
            m.protocol_id == protocol_id,
            m.public_key@ == key_pair.spec_public_key(),
            m.timestamp == timestamp,
            m.nonce@ == nonce@,
            m.signature@ == ed25519_sign_of(
                key_pair.spec_private_key(),
                spec_sign_data(protocol_id, timestamp, nonce@),
            ),
            spec_handshake_verify(m, key_pair.spec_public_key()) == Ok::<(), HandshakeError>(()),
    {
        let data = Self::create_sign_data(protocol_id, timestamp, nonce.as_slice());
        let signature = key_pair.sign(data.as_slice());
        let mut public_key: Vec<u8> = Vec::new();
        extend_bytes(&mut public_key, key_pair.public_key());
        HandshakeMessage {
            version: 1,
            protocol_id,
            public_key,
            signature: signature.0,
            timestamp,
            nonce,
        }
    }

    /// A version-1 message for `protocol_id` stamped with the current time in
    /// seconds, signed with `key_pair`; checking it against the same key pair
    /// succeeds.
    pub fn new(protocol_id: u16, key_pair: &KeyPair, nonce: Vec<u8>) -> (m: HandshakeMessage)
        ensures
            m.version == 1,
            m.protocol_id == protocol_id,
            m.public_key@ == key_pair.spec_public_key(),
            m.nonce@ == nonce@,
            m.signature@ == ed25519_sign_of(
                key_pair.spec_private_key(),
                spec_sign_data(protocol_id, m.timestamp, nonce@),
            ),
            spec_handshake_verify(m, key_pair.spec_public_key()) == Ok::<(), HandshakeError>(()),
    {
        let timestamp = Timestamp::now().duration_since_epoch().as_secs();
        Self::new_at(protocol_id, key_pair, nonce, timestamp)
    }

    /// The bytes a handshake signs.
    pub fn create_sign_data(protocol_id: u16, timestamp: u64, nonce: &[u8]) -> (data: Vec<u8>)
        ensures
            data@ == spec_sign_data(protocol_id, timestamp, nonce@),
    {
        let mut data: Vec<u8> = Vec::new();
        push_u16_be(&mut data, protocol_id);
        push_u64_be(&mut data, timestamp);
        extend_bytes(&mut data, nonce);
        proof {
            assert(data@ =~= spec_sign_data(protocol_id, timestamp, nonce@));
        }
        data
    }

    /// Checks the version and the signature against `key_pair`'s public key.
    pub fn verify(&self, key_pair: &KeyPair) -> (r: Result<(), HandshakeError>)
        ensures
            r == spec_handshake_verify(*self, key_pair.spec_public_key()),
    {
        if self.version != 1 {
            return Err(HandshakeError::InvalidVersion);
        }
        let data = Self::create_sign_data(self.protocol_id, self.timestamp, self.nonce.as_slice());
        if verify(key_pair.public_key(), data.as_slice(), self.signature.as_slice()) {
            Ok(())
        } else {
            Err(HandshakeError::InvalidSignature)
        }
    }
}

/// The keys one side of a handshake has learnt.
#[derive(Debug, Clone)]
pub struct HandshakeState {
    pub is_initiator: bool,
    pub remote_public_key: Option<Vec<u8>>,
    pub shared_secret: Option<Vec<u8>>,
}

impl HandshakeState {
    /// A handshake that has learnt nothing yet.
    pub fn new(is_initiator: bool) -> (s: HandshakeState)
        ensures
            s.is_initiator == is_initiator,
            s.remote_public_key is None,
            s.shared_secret is None,
    {
        HandshakeState { is_initiator, remote_public_key: None, shared_secret: None }
    }

    /// Records the peer's public key.
    pub fn set_remote_public_key(&mut self, public_key: Vec<u8>)
        ensures
            final(self).remote_public_key == Some(public_key),
            final(self).is_initiator == old(self).is_initiator,
            final(self).shared_secret == old(self).shared_secret,
    {
        self.remote_public_key = Some(public_key);
    }

    /// Records the shared secret.
    pub fn set_shared_secret(&mut self, secret: Vec<u8>)
        ensures
            final(self).shared_secret == Some(secret),
            final(self).is_initiator == old(self).is_initiator,
            final(self).remote_public_key == old(self).remote_public_key,
    {
        self.shared_secret = Some(secret);
    }
}

} // verus!
