//! The mother-protocol message header: 28 checksummed bytes followed by the
//! length and checksum fields.

use vstd::prelude::*;
use crate::common::checksum::{crc32, crc32_of};
use crate::common::time::Timestamp;
use crate::common::wire::{le32, le64, push_u32_le, push_u64_le, extend_bytes};

verus! {

/// Message kind.
#[derive(Debug, Clone, Copy, PartialEq, Eq, Structural)]
pub enum MessageType {
    Handshake,
    Data,
    Heartbeat,
    Error,
    Control,
}

/// The wire code of a message kind.
pub open spec fn spec_message_type_code(t: MessageType) -> u8 {
    match t {
        MessageType::Handshake => 0x00,
        MessageType::Data => 0x01,
        MessageType::Heartbeat => 0x02,
        MessageType::Error => 0x03,
        MessageType::Control => 0x04,
    }
}

impl MessageType {
    /// The wire code of this message kind.
    pub fn code(self) -> (c: u8)
        ensures
            c == spec_message_type_code(self),
    {
        match self {
            MessageType::Handshake => 0x00,
            MessageType::Data => 0x01,
            MessageType::Heartbeat => 0x02,
            MessageType::Error => 0x03,
            MessageType::Control => 0x04,
        }
    }
}

/// The protocol a message belongs to.
#[derive(Debug, Clone, Copy, PartialEq, Eq, Structural)]
pub enum ProtocolType {
    Mother,
    P2P,
    Server,
    Swift,
    Games,
    Aztec,
    Chat,
}

/// The wire code of a protocol.
pub open spec fn spec_protocol_type_code(t: ProtocolType) -> u8 {
    match t {
        ProtocolType::Mother => 0x00,
        ProtocolType::P2P => 0x01,
        ProtocolType::Server => 0x02,
        ProtocolType::Swift => 0x03,
        ProtocolType::Games => 0x04,
        ProtocolType::Aztec => 0x06,
        ProtocolType::Chat => 0x07,
    }
}

impl ProtocolType {
    /// The wire code of this protocol.
    pub fn code(self) -> (c: u8)
        ensures
            c == spec_protocol_type_code(self),
    {
        match self {
            ProtocolType::Mother => 0x00,
            ProtocolType::P2P => 0x01,
            ProtocolType::Server => 0x02,
            ProtocolType::Swift => 0x03,
            ProtocolType::Games => 0x04,
            ProtocolType::Aztec => 0x06,
            ProtocolType::Chat => 0x07,
        }
    }
}

/// The header magic, "FLKH".
pub const HEADER_MAGIC: u32 = 0x464C4B48;

/// The number of header bytes that the checksum covers.
pub const HEADER_SIZE: usize = 28;

/// Message header.
#[derive(Debug, Clone, Copy, PartialEq, Eq, Structural)]
pub struct MessageHeader {
    pub magic: u32,
    pub version: u8,
    pub msg_type: u8,
    pub protocol_type: u8,
    pub flags: u8,
    pub session_id: u64,
    pub sequence: u32,
    pub timestamp: u64,
    pub length: u16,
    pub checksum: u32,
}

/// The 28 header bytes that the checksum covers, in the little-endian layout of
/// the fields from `magic` to `timestamp`.
pub open spec fn spec_header_bytes(h: MessageHeader) -> Seq<u8> {
    le32(h.magic) + seq![h.version, h.msg_type, h.protocol_type, h.flags] + le64(h.session_id)
        + le32(h.sequence) + le64(h.timestamp)
}

/// The checksum of a header and a payload.
pub open spec fn spec_checksum(h: MessageHeader, payload: Seq<u8>) -> u32 {
    crc32_of(spec_header_bytes(h) + payload)
}

/// A header is valid when it carries the magic and version 1.
pub open spec fn spec_valid(h: MessageHeader) -> bool {
    h.magic == HEADER_MAGIC && h.version == 0x01
}

/// Microseconds since the UNIX epoch, on the system clock (the low 64 bits).
pub fn current_timestamp() -> u64 {
    let micros = Timestamp::now().duration_since_epoch().as_micros();
    (micros % 0x1_0000_0000_0000_0000) as u64
}

impl MessageHeader {
    /// The header magic.
    pub const MAGIC: u32 = 0x464C4B48;

    /// The number of header bytes that the checksum covers.
    pub const HEADER_SIZE: usize = 28;

    /// A version-1 header stamped with the current time, flags and checksum zero.
    pub fn new(
        msg_type: MessageType,
        protocol_type: ProtocolType,
        session_id: u64,
        sequence: u32,
        length: u16,
    ) -> (h: MessageHeader)
        ensures
            h.magic == HEADER_MAGIC,
            h.version == 0x01,
            h.msg_type == spec_message_type_code(msg_type),
            h.protocol_type == spec_protocol_type_code(protocol_type),
            h.flags == 0,
            h.session_id == session_id,
            h.sequence == sequence,
            h.length == length,
            h.checksum == 0,
    {
        MessageHeader {
            magic: HEADER_MAGIC,
            version: 0x01,
            msg_type: msg_type.code(),
            protocol_type: protocol_type.code(),
            flags: 0,
            session_id,
            sequence,
            timestamp: current_timestamp(),
            length,
            checksum: 0,
        }
    }

    /// Whether the header carries the magic and version 1.
    pub fn validate(&self) -> (b: bool)
        ensures
            b == spec_valid(*self),
    {
        self.magic == HEADER_MAGIC && self.version == 0x01
    }

    /// The 28 header bytes that the checksum covers.
    pub fn header_bytes(&self) -> (out: Vec<u8>)
        ensures
            out@ == spec_header_bytes(*self),
            out@.len() == HEADER_SIZE,
    {
        let mut out: Vec<u8> = Vec::new();
        push_u32_le(&mut out, self.magic);
        out.push(self.version);
        out.push(self.msg_type);
        out.push(self.protocol_type);
        out.push(self.flags);
        push_u64_le(&mut out, self.session_id);
        push_u32_le(&mut out, self.sequence);
        push_u64_le(&mut out, self.timestamp);
        assert(out@ =~= spec_header_bytes(*self));
        out
    }

    fn compute_checksum(&self, payload: &[u8]) -> (c: u32)
        ensures
            c == spec_checksum(*self, payload@),
    {
        let mut data = self.header_bytes();
        extend_bytes(&mut data, payload);
        crc32(data.as_slice())
    }

    /// Stores the checksum of the header bytes and `payload`.
    pub fn set_checksum(&mut self, payload: &[u8])
        ensures
            *final(self) == (MessageHeader { checksum: spec_checksum(*old(self), payload@), ..*old(self) }),
    {
        self.checksum = self.compute_checksum(payload);
    }

    /// Whether the stored checksum matches the header bytes and `payload`.
    pub fn verify_checksum(&self, payload: &[u8]) -> (b: bool)
        ensures
            b == (self.checksum == spec_checksum(*self, payload@)),
    {
        self.checksum == self.compute_checksum(payload)
    }
}

/// The checksum does not cover the checksum field: storing it and checking it
/// against the same payload succeeds.
pub proof fn lemma_checksum_roundtrip(h: MessageHeader, payload: Seq<u8>)
    ensures
        ({
            let sealed = MessageHeader { checksum: spec_checksum(h, payload), ..h };
            sealed.checksum == spec_checksum(sealed, payload)
        }),
{
    let sealed = MessageHeader { checksum: spec_checksum(h, payload), ..h };
    assert(spec_header_bytes(sealed) == spec_header_bytes(h));
}

/// A header made by `new` is valid.
pub proof fn lemma_new_header_valid(h: MessageHeader)
    requires
        h.magic == HEADER_MAGIC,
        h.version == 0x01,
    ensures
        spec_valid(h),
{
}

} // verus!
