//! Protocol error kinds and their numeric wire codes.

use vstd::prelude::*;

verus! {

pub const ERR_OK: u32 = 0x00000000;
pub const ERR_VERSION: u32 = 0x00000001;
pub const ERR_HANDSHAKE: u32 = 0x00000002;
pub const ERR_AUTH: u32 = 0x00000003;
pub const ERR_DECRYPT: u32 = 0x00000004;
pub const ERR_CHECKSUM: u32 = 0x00000005;
pub const ERR_SEQUENCE: u32 = 0x00000006;
pub const ERR_TIMEOUT: u32 = 0x00000007;
pub const ERR_BUSY: u32 = 0x00000008;
pub const ERR_LIMIT: u32 = 0x00000009;
pub const ERR_FORMAT: u32 = 0x0000000A;
pub const ERR_CRYPTO: u32 = 0x0000000B;
pub const ERR_INTERNAL: u32 = 0x0000000C;
pub const ERR_CLOSED: u32 = 0x0000000D;
pub const ERR_OVERFLOW: u32 = 0x0000000E;
pub const ERR_MTU: u32 = 0x0000000F;

pub const ERR_PARAM: u32 = 0x00010000;
pub const ERR_NETWORK: u32 = 0x00020000;
pub const ERR_CRYPTO_BASE: u32 = 0x00030000;
pub const ERR_DHT: u32 = 0x00040000;
pub const ERR_NAT: u32 = 0x00050000;

/// Errors of the mother protocol.
#[derive(Debug, Clone, PartialEq, Eq)]
pub enum Error {
    Success,
    VersionMismatch,
    HandshakeFailed,
    AuthFailed,
    DecryptFailed,
    ChecksumMismatch,
    SequenceError,
    Timeout,
    Busy,
    RateLimit,
    InvalidFormat,
    CryptoError,
    Internal,
    ConnectionClosed,
    BufferOverflow,
    MtuExceeded,
    InvalidParameter(String),
    NetworkError(String),
    NatTraversalFailed(String),
    DhtError(String),
    IoError(String),
}

/// The wire code of each error kind.
pub open spec fn spec_error_code(e: Error) -> u32 {
    match e {
        Error::Success => ERR_OK,
        Error::VersionMismatch => ERR_VERSION,
        Error::HandshakeFailed => ERR_HANDSHAKE,
        Error::AuthFailed => ERR_AUTH,
        Error::DecryptFailed => ERR_DECRYPT,
        Error::ChecksumMismatch => ERR_CHECKSUM,
        Error::SequenceError => ERR_SEQUENCE,
        Error::Timeout => ERR_TIMEOUT,
        Error::Busy => ERR_BUSY,
        Error::RateLimit => ERR_LIMIT,
        Error::InvalidFormat => ERR_FORMAT,
        Error::CryptoError => ERR_CRYPTO,
        Error::Internal => ERR_INTERNAL,
        Error::ConnectionClosed => ERR_CLOSED,
        Error::BufferOverflow => ERR_OVERFLOW,
        Error::MtuExceeded => ERR_MTU,
        Error::InvalidParameter(_) => ERR_PARAM,
        Error::NetworkError(_) => ERR_NETWORK,
        Error::NatTraversalFailed(_) => ERR_NAT,
        Error::DhtError(_) => ERR_DHT,
        Error::IoError(_) => ERR_NETWORK,
    }
}

impl Error {
    /// The numeric code that stands for this error on the wire.
    pub fn error_code(&self) -> (code: u32)
        ensures
            code == spec_error_code(*self),
    {
        match self {
            Error::Success => ERR_OK,
            Error::VersionMismatch => ERR_VERSION,
            Error::HandshakeFailed => ERR_HANDSHAKE,
            Error::AuthFailed => ERR_AUTH,
            Error::DecryptFailed => ERR_DECRYPT,
            Error::ChecksumMismatch => ERR_CHECKSUM,
            Error::SequenceError => ERR_SEQUENCE,
            Error::Timeout => ERR_TIMEOUT,
            Error::Busy => ERR_BUSY,
            Error::RateLimit => ERR_LIMIT,
            Error::InvalidFormat => ERR_FORMAT,
            Error::CryptoError => ERR_CRYPTO,
            Error::Internal => ERR_INTERNAL,
            Error::ConnectionClosed => ERR_CLOSED,
            Error::BufferOverflow => ERR_OVERFLOW,
            Error::MtuExceeded => ERR_MTU,
            Error::InvalidParameter(_) => ERR_PARAM,
            Error::NetworkError(_) => ERR_NETWORK,
            Error::NatTraversalFailed(_) => ERR_NAT,
            Error::DhtError(_) => ERR_DHT,
            Error::IoError(_) => ERR_NETWORK,
        }
    }

    /// The human-readable message of this error.
    pub fn to_string(&self) -> (s: String)
        ensures
            s@ == spec_error_message(*self),
    {
        match self {
            Error::Success => String::from_str("Success"),
            Error::VersionMismatch => String::from_str("Version mismatch"),
            Error::HandshakeFailed => String::from_str("Handshake failed"),
            Error::AuthFailed => String::from_str("Authentication failed"),
            Error::DecryptFailed => String::from_str("Decryption failed"),
            Error::ChecksumMismatch => String::from_str("Checksum mismatch"),
            Error::SequenceError => String::from_str("Sequence error"),
            Error::Timeout => String::from_str("Operation timeout"),
            Error::Busy => String::from_str("Server busy"),
            Error::RateLimit => String::from_str("Rate limit exceeded"),
            Error::InvalidFormat => String::from_str("Invalid format"),
            Error::CryptoError => String::from_str("Cryptography error"),
            Error::Internal => String::from_str("Internal error"),
            Error::ConnectionClosed => String::from_str("Connection closed"),
            Error::BufferOverflow => String::from_str("Buffer overflow"),
            Error::MtuExceeded => String::from_str("MTU exceeded"),
            Error::InvalidParameter(m) => String::from_str("Invalid parameter: ").concat(m.as_str()),
            Error::NetworkError(m) => String::from_str("Network error: ").concat(m.as_str()),
            Error::NatTraversalFailed(m) => String::from_str("NAT traversal failed: ").concat(m.as_str()),
            Error::DhtError(m) => String::from_str("DHT error: ").concat(m.as_str()),
            Error::IoError(m) => String::from_str("IO error: ").concat(m.as_str()),
        }
    }
}

/// The message of each error kind.
pub open spec fn spec_error_message(e: Error) -> Seq<char> {
    match e {
        Error::Success => "Success"@,
        Error::VersionMismatch => "Version mismatch"@,
        Error::HandshakeFailed => "Handshake failed"@,
        Error::AuthFailed => "Authentication failed"@,
        Error::DecryptFailed => "Decryption failed"@,
        Error::ChecksumMismatch => "Checksum mismatch"@,
        Error::SequenceError => "Sequence error"@,
        Error::Timeout => "Operation timeout"@,
        Error::Busy => "Server busy"@,
        Error::RateLimit => "Rate limit exceeded"@,
        Error::InvalidFormat => "Invalid format"@,
        Error::CryptoError => "Cryptography error"@,
        Error::Internal => "Internal error"@,
        Error::ConnectionClosed => "Connection closed"@,
        Error::BufferOverflow => "Buffer overflow"@,
        Error::MtuExceeded => "MTU exceeded"@,
        Error::InvalidParameter(m) => "Invalid parameter: "@ + m@,
        Error::NetworkError(m) => "Network error: "@ + m@,
        Error::NatTraversalFailed(m) => "NAT traversal failed: "@ + m@,
        Error::DhtError(m) => "DHT error: "@ + m@,
        Error::IoError(m) => "IO error: "@ + m@,
    }
}

} // verus!
