//! Connection framing: a 10-byte header (magic, version, kind, payload
//! length) before each payload, and the splitting of a received byte stream
//! into frames.

use vstd::prelude::*;
use crate::common::net::SocketAddr;
use crate::common::time::Timestamp;
use crate::common::wire::{be32, copy_range, extend_bytes, push_u32_be, read_u32_be, u32_be, lemma_be32_roundtrip};
use crate::p2p::node::NodeId;

verus! {

/// The largest payload a frame carries: 10 MiB.
pub const MAX_MESSAGE_SIZE: usize = 10 * 1024 * 1024;

/// How many messages wait in each direction.
pub const MESSAGE_QUEUE_SIZE: usize = 1000;

/// The frame magic, "FLPC".
pub const FRAME_MAGIC: u32 = 0x464C5043;

/// The frame version.
pub const FRAME_VERSION: u8 = 1;

/// The length of a frame header.
pub const FRAME_HEADER_SIZE: usize = 10;

/// The lifecycle of a connection.
#[derive(Debug, Clone, Copy, PartialEq, Eq, Structural)]
pub enum ConnectionState {
    Connecting,
    Connected,
    Disconnected,
    Error,
}

/// The transport of a connection.
#[derive(Debug, Clone, Copy, PartialEq, Eq, Structural)]
pub enum ConnectionProtocol {
    Tcp,
    Udp,
    WebSocket,
}

/// What is known of a connection; times are seconds since the UNIX epoch.
#[derive(Debug, Clone, Copy)]
pub struct ConnectionInfo {
    pub node_id: NodeId,
    pub local_addr: SocketAddr,
    pub remote_addr: SocketAddr,
    pub protocol: ConnectionProtocol,
    pub state: ConnectionState,
    pub created_at: u64,
    pub last_message_at: u64,
    pub bytes_sent: u64,
    pub bytes_received: u64,
    pub messages_sent: u64,
    pub messages_received: u64,
}

impl ConnectionInfo {
    /// A connecting connection created at `now`, with no traffic.
    pub fn new_at(node_id: NodeId, local_addr: SocketAddr, remote_addr: SocketAddr, protocol: ConnectionProtocol, now: u64) -> (c: ConnectionInfo)
        ensures
            c.node_id == node_id,
            c.local_addr == local_addr,
            c.remote_addr == remote_addr,
            c.protocol == protocol,
            c.state == ConnectionState::Connecting,
            c.created_at == now,
            c.last_message_at == now,
            c.bytes_sent == 0 && c.bytes_received == 0,
            c.messages_sent == 0 && c.messages_received == 0,
    {
        ConnectionInfo {
            node_id,
            local_addr,
            remote_addr,
            protocol,
            state: ConnectionState::Connecting,
            created_at: now,
            last_message_at: now,
            bytes_sent: 0,
            bytes_received: 0,
            messages_sent: 0,
            messages_received: 0,
        }
    }

    /// A connecting connection created now, with no traffic.
    pub fn new(node_id: NodeId, local_addr: SocketAddr, remote_addr: SocketAddr, protocol: ConnectionProtocol) -> (c: ConnectionInfo)
        ensures
            c.node_id == node_id,
            c.local_addr == local_addr,
            c.remote_addr == remote_addr,
            c.protocol == protocol,
            c.state == ConnectionState::Connecting,
            c.created_at == c.last_message_at,
            c.bytes_sent == 0 && c.bytes_received == 0,
            c.messages_sent == 0 && c.messages_received == 0,
    {
        let now = Timestamp::now().duration_since_epoch().as_secs();
        Self::new_at(node_id, local_addr, remote_addr, protocol, now)
    }
}

/// The kind of a frame.
#[derive(Debug, Clone, Copy, PartialEq, Eq, Structural)]
pub enum MessageType {
    Handshake,
    HandshakeAck,
    Data,
    Ack,
    Ping,
    Pong,
    Close,
}

/// The wire code of each frame kind.
pub open spec fn spec_message_code(t: MessageType) -> u8 {
    match t {
        MessageType::Handshake => 0x01,
        MessageType::HandshakeAck => 0x02,
        MessageType::Data => 0x03,
        MessageType::Ack => 0x04,
        MessageType::Ping => 0x05,
        MessageType::Pong => 0x06,
        MessageType::Close => 0x07,
    }
}

/// The frame kind with wire code `c`, if any.
pub open spec fn spec_message_type(c: u8) -> Option<MessageType> {
    if c == 0x01 {
        Some(MessageType::Handshake)
    } else if c == 0x02 {
        Some(MessageType::HandshakeAck)
    } else if c == 0x03 {
        Some(MessageType::Data)
    } else if c == 0x04 {
        Some(MessageType::Ack)
    } else if c == 0x05 {
        Some(MessageType::Ping)
    } else if c == 0x06 {
        Some(MessageType::Pong)
    } else if c == 0x07 {
        Some(MessageType::Close)
    } else {
        None
    }
}

impl MessageType {
    /// The wire code of this kind.
    pub fn code(self) -> (c: u8)
        ensures
            c == spec_message_code(self),
    {
        match self {
            MessageType::Handshake => 0x01,
            MessageType::HandshakeAck => 0x02,
            MessageType::Data => 0x03,
            MessageType::Ack => 0x04,
            MessageType::Ping => 0x05,
            MessageType::Pong => 0x06,
            MessageType::Close => 0x07,
        }
    }

    /// The kind with wire code `c`, if any.
    pub fn from_code(c: u8) -> (t: Option<MessageType>)
        ensures
            t == spec_message_type(c),
    {
        match c {
            0x01 => Some(MessageType::Handshake),
            0x02 => Some(MessageType::HandshakeAck),
            0x03 => Some(MessageType::Data),
            0x04 => Some(MessageType::Ack),
            0x05 => Some(MessageType::Ping),
            0x06 => Some(MessageType::Pong),
            0x07 => Some(MessageType::Close),
            _ => None,
        }
    }
}

/// Why a connection operation failed.
#[derive(Debug)]
pub enum ConnectionError {
    Io(std::io::Error),
    ConnectionClosed,
    MaxConnectionsReached,
    HandshakeFailed(String),
    Serialization(String),
    InvalidFrame,
    MessageTooLarge,
}

/// A frame.
#[derive(Debug, Clone)]
pub struct MessageFrame {
    pub magic: u32,
    pub version: u8,
    pub message_type: MessageType,
    pub payload: Vec<u8>,
}

/// The bytes of a frame: magic, version and kind, the payload length (its
/// low 32 bits) big-endian, then the payload.
pub open spec fn spec_frame_bytes(f: MessageFrame) -> Seq<u8> {
    be32(f.magic) + seq![f.version, spec_message_code(f.message_type)] + be32(
        (f.payload@.len() % 0x1_0000_0000) as u32,
    ) + f.payload@
}

/// The payload length a frame header announces.
pub open spec fn announced_len(data: Seq<u8>) -> u32 {
    u32_be(data[6], data[7], data[8], data[9])
}

/// What decoding makes of `data`: a frame, `None` for an invalid frame, or
/// the refusal of a payload over the limit (`Err`).
pub enum FrameVerdict {
    /// A frame of this version and kind.
    Frame(u8, MessageType),
    Invalid,
    TooLarge,
}

/// How `data` decodes: too short, a wrong magic or an unknown kind is an
/// invalid frame; an announced payload over the limit is too large;
/// otherwise the frame with the announced payload (later bytes ignored).
pub open spec fn spec_decode_frame(data: Seq<u8>) -> FrameVerdict {
    if data.len() < 10 {
        FrameVerdict::Invalid
    } else if u32_be(data[0], data[1], data[2], data[3]) != FRAME_MAGIC {
        FrameVerdict::Invalid
    } else if spec_message_type(data[5]) is None {
        FrameVerdict::Invalid
    } else if announced_len(data) > MAX_MESSAGE_SIZE {
        FrameVerdict::TooLarge
    } else {
        FrameVerdict::Frame(data[4], spec_message_type(data[5])->0)
    }
}

/// Whether decoding `data` reads past its end: the header announces more
/// payload than follows it.
pub open spec fn decode_overruns(data: Seq<u8>) -> bool {
    spec_decode_frame(data) is Frame && data.len() < 10 + announced_len(data)
}

impl MessageFrame {
    /// The frame magic.
    pub const MAGIC: u32 = 0x464C5043;

    /// The frame version.
    pub const VERSION: u8 = 1;

    /// A version-1 frame of kind `message_type` carrying `payload`.
    pub fn new(message_type: MessageType, payload: Vec<u8>) -> (f: MessageFrame)
        ensures
            f.magic == FRAME_MAGIC,
            f.version == FRAME_VERSION,
            f.message_type == message_type,
            f.payload == payload,
    {
        MessageFrame { magic: FRAME_MAGIC, version: FRAME_VERSION, message_type, payload }
    }

    /// The bytes of the frame.
    pub fn encode(&self) -> (r: Result<Vec<u8>, ConnectionError>)
        ensures
            r matches Ok(bytes) && bytes@ == spec_frame_bytes(*self),
    {
        let mut buf: Vec<u8> = Vec::new();
        push_u32_be(&mut buf, self.magic);
        buf.push(self.version);
        buf.push(self.message_type.code());
        let len: u32 = ((self.payload.len() as u64) % 0x1_0000_0000) as u32;
        push_u32_be(&mut buf, len);
        extend_bytes(&mut buf, self.payload.as_slice());
        assert(buf@ =~= spec_frame_bytes(*self));
        Ok(buf)
    }

    /// The frame in `data`; see `spec_decode_frame`. The header must not
    /// announce more payload than follows it.
    pub fn decode(data: &[u8]) -> (r: Result<MessageFrame, ConnectionError>)
        requires
            !decode_overruns(data@),
        ensures
            match spec_decode_frame(data@) {
                FrameVerdict::Frame(version, message_type) => r matches Ok(g) && g.magic == FRAME_MAGIC
                    && g.version == version && g.message_type == message_type && g.payload@ == data@.subrange(
                    10,
                    10 + announced_len(data@),
                ),
                FrameVerdict::Invalid => r matches Err(ConnectionError::InvalidFrame),
                FrameVerdict::TooLarge => r matches Err(ConnectionError::MessageTooLarge),
            },
    {
        if data.len() < 10 {
            return Err(ConnectionError::InvalidFrame);
        }
        let magic = read_u32_be(data, 0);
        if magic != FRAME_MAGIC {
            return Err(ConnectionError::InvalidFrame);
        }
        let version = data[4];
        let message_type = match MessageType::from_code(data[5]) {
            Some(t) => t,
            None => return Err(ConnectionError::InvalidFrame),
        };
        let payload_len = read_u32_be(data, 6) as usize;
        if payload_len > MAX_MESSAGE_SIZE {
            return Err(ConnectionError::MessageTooLarge);
        }
        let payload = copy_range(data, 10, 10 + payload_len);
        Ok(MessageFrame { magic, version, message_type, payload })
    }
}

/// A frame with the magic and a payload within the limit decodes from its
/// own bytes back to itself.
pub proof fn lemma_frame_roundtrip(f: MessageFrame)
    requires
        f.magic == FRAME_MAGIC,
        f.payload@.len() <= MAX_MESSAGE_SIZE,
    ensures
        !decode_overruns(spec_frame_bytes(f)),
        spec_decode_frame(spec_frame_bytes(f)) == FrameVerdict::Frame(f.version, f.message_type),
        announced_len(spec_frame_bytes(f)) == f.payload@.len(),
        spec_frame_bytes(f).subrange(10, 10 + f.payload@.len() as int) == f.payload@,
{
    let b = spec_frame_bytes(f);
    let n = (f.payload@.len() % 0x1_0000_0000) as u32;
    lemma_be32_roundtrip(f.magic);
    lemma_be32_roundtrip(n);
    assert(b[0] == be32(f.magic)[0] && b[1] == be32(f.magic)[1] && b[2] == be32(f.magic)[2] && b[3] == be32(f.magic)[3]);
    assert(b[6] == be32(n)[0] && b[7] == be32(n)[1] && b[8] == be32(n)[2] && b[9] == be32(n)[3]);
    assert(b[5] == spec_message_code(f.message_type));
    assert(b.subrange(10, 10 + f.payload@.len() as int) =~= f.payload@);
}

/// The length of the frame at the front of a stream: the header and the
/// payload length it announces.
pub open spec fn stream_frame_len(buf: Seq<u8>) -> int {
    10 + announced_len(buf)
}

/// Whether the front of a buffered stream holds a complete frame by the
/// length its header announces.
pub open spec fn stream_complete(buf: Seq<u8>) -> bool {
    buf.len() >= 10 && buf.len() >= stream_frame_len(buf)
}

/// The frames a stream reader takes off the front of `buf`, in order.
pub open spec fn stream_chunks(buf: Seq<u8>) -> Seq<Seq<u8>>
    decreases buf.len(),
{
    if stream_complete(buf) {
        seq![buf.take(stream_frame_len(buf))] + stream_chunks(buf.skip(stream_frame_len(buf)))
    } else {
        Seq::empty()
    }
}

/// What is left of `buf` after the complete frames are taken.
pub open spec fn stream_rest(buf: Seq<u8>) -> Seq<u8>
    decreases buf.len(),
{
    if stream_complete(buf) {
        stream_rest(buf.skip(stream_frame_len(buf)))
    } else {
        buf
    }
}

/// Whether `r` is what decoding the frame bytes `chunk` gives: an invalid
/// frame when the full length field announces more than the chunk holds,
/// otherwise as `MessageFrame::decode` says.
pub open spec fn decoded_as(r: Result<MessageFrame, ConnectionError>, chunk: Seq<u8>) -> bool {
    if decode_overruns(chunk) {
        r matches Err(ConnectionError::InvalidFrame)
    } else {
        match spec_decode_frame(chunk) {
            FrameVerdict::Frame(version, message_type) => r matches Ok(g) && g.magic == FRAME_MAGIC
                && g.version == version && g.message_type == message_type
                && g.payload@ == chunk.subrange(10, 10 + announced_len(chunk)),
            FrameVerdict::Invalid => r matches Err(ConnectionError::InvalidFrame),
            FrameVerdict::TooLarge => r matches Err(ConnectionError::MessageTooLarge),
        }
    }
}

/// Splits complete frames off the front of a received stream: while ten or
/// more bytes are buffered and the frame the header's length announces is
/// complete, that many bytes are taken and decoded. What is left stays
/// buffered.
pub fn split_frames(buf: &mut Vec<u8>) -> (frames: Vec<Result<MessageFrame, ConnectionError>>)
    ensures
        final(buf)@ == stream_rest(old(buf)@),
        frames@.len() == stream_chunks(old(buf)@).len(),
        forall|k: int| 0 <= k < frames@.len() ==> decoded_as(#[trigger] frames@[k], stream_chunks(old(buf)@)[k]),
{
    let mut frames: Vec<Result<MessageFrame, ConnectionError>> = Vec::new();
    let ghost original = buf@;
    let ghost mut done: Seq<Seq<u8>> = Seq::empty();
    while buf.len() >= 10 && (buf.len() - 10) as u64 >= read_u32_be(buf.as_slice(), 6) as u64
        invariant
            stream_chunks(original) == done + stream_chunks(buf@),
            stream_rest(original) == stream_rest(buf@),
            frames@.len() == done.len(),
            forall|k: int| 0 <= k < frames@.len() ==> decoded_as(#[trigger] frames@[k], done[k]),
        decreases buf@.len(),
    {
        let frame_len = 10 + read_u32_be(buf.as_slice(), 6) as usize;
        let frame_data = copy_range(buf.as_slice(), 0, frame_len);
        let rest = copy_range(buf.as_slice(), frame_len, buf.len());
        let ghost old_buf = buf@;
        proof {
            assert(stream_complete(old_buf));
            assert(frame_data@ =~= old_buf.take(stream_frame_len(old_buf)));
            assert(rest@ =~= old_buf.skip(stream_frame_len(old_buf)));
        }
        let result = if frame_data.len() >= 10 && read_u32_be(frame_data.as_slice(), 0) == FRAME_MAGIC
            && MessageType::from_code(frame_data[5]).is_some() && (read_u32_be(frame_data.as_slice(), 6) as usize)
            <= MAX_MESSAGE_SIZE && frame_data.len() < 10 + read_u32_be(frame_data.as_slice(), 6) as usize {
            Err(ConnectionError::InvalidFrame)
        } else {
            MessageFrame::decode(frame_data.as_slice())
        };
        proof {
            assert(decoded_as(result, frame_data@));
            assert(stream_chunks(old_buf) == seq![frame_data@] + stream_chunks(rest@));
            assert(done + stream_chunks(old_buf) =~= done.push(frame_data@) + stream_chunks(rest@));
            done = done.push(frame_data@);
        }
        frames.push(result);
        *buf = rest;
    }
    proof {
        assert(!stream_complete(buf@));
        assert(stream_chunks(buf@) =~= Seq::<Seq<u8>>::empty());
        assert(done + stream_chunks(buf@) =~= done);
    }
    frames
}

/// The bytes of `frames`, one after the other.
pub open spec fn frames_bytes(frames: Seq<MessageFrame>) -> Seq<u8>
    decreases frames.len(),
{
    if frames.len() == 0 {
        Seq::empty()
    } else {
        spec_frame_bytes(frames[0]) + frames_bytes(frames.drop_first())
    }
}

/// Frames a stream reader takes back whole: the magic, and a payload within
/// the limit.
pub open spec fn stream_safe(f: MessageFrame) -> bool {
    f.magic == FRAME_MAGIC && f.payload@.len() <= MAX_MESSAGE_SIZE
}

/// Reading a stream in pieces splits it as reading it at once: the frames of
/// `a` followed by those of what `a` left buffered with `b` appended are the
/// frames of `a + b`, and the same bytes stay buffered. So the way the bytes
/// arrive does not change the frames taken.
pub proof fn lemma_stream_split(a: Seq<u8>, b: Seq<u8>)
    ensures
        stream_chunks(a + b) == stream_chunks(a) + stream_chunks(stream_rest(a) + b),
        stream_rest(a + b) == stream_rest(stream_rest(a) + b),
    decreases a.len(),
{
    if stream_complete(a) {
        let l = stream_frame_len(a);
        let ab = a + b;
        assert(ab[6] == a[6] && ab[7] == a[7] && ab[8] == a[8] && ab[9] == a[9]);
        assert(stream_complete(ab));
        assert(stream_frame_len(ab) == l);
        assert(ab.take(l) =~= a.take(l));
        assert(ab.skip(l) =~= a.skip(l) + b);
        lemma_stream_split(a.skip(l), b);
        assert(stream_chunks(ab) == seq![a.take(l)] + stream_chunks(a.skip(l) + b));
        assert(stream_chunks(a) == seq![a.take(l)] + stream_chunks(a.skip(l)));
        assert(stream_rest(a) == stream_rest(a.skip(l)));
        assert(stream_chunks(ab) =~= stream_chunks(a) + stream_chunks(stream_rest(a) + b));
    } else {
        assert(stream_chunks(a) =~= Seq::<Seq<u8>>::empty());
        assert(stream_chunks(a) + stream_chunks(stream_rest(a) + b) =~= stream_chunks(a + b));
    }
}

proof fn lemma_one_frame_chunk(f: MessageFrame, rest: Seq<u8>)
    requires
        stream_safe(f),
    ensures
        stream_complete(spec_frame_bytes(f) + rest),
        stream_frame_len(spec_frame_bytes(f) + rest) == spec_frame_bytes(f).len(),
{
    let b = spec_frame_bytes(f) + rest;
    lemma_frame_roundtrip(f);
    let fb = spec_frame_bytes(f);
    assert(b[6] == fb[6] && b[7] == fb[7] && b[8] == fb[8] && b[9] == fb[9]);
}

/// A stream of frames is taken apart into exactly those frames: each chunk
/// is one frame's bytes and decodes to a frame with that frame's version,
/// kind and payload, in order; whatever follows the frames stays to be read.
pub proof fn lemma_stream_frames(frames: Seq<MessageFrame>, rest: Seq<u8>)
    requires
        forall|i: int| 0 <= i < frames.len() ==> stream_safe(#[trigger] frames[i]),
    ensures
        stream_chunks(frames_bytes(frames) + rest) == frames.map_values(|f: MessageFrame| spec_frame_bytes(f))
            + stream_chunks(rest),
        stream_rest(frames_bytes(frames) + rest) == stream_rest(rest),
        forall|i: int, r: Result<MessageFrame, ConnectionError>|
            0 <= i < frames.len() && #[trigger] decoded_as(r, spec_frame_bytes(frames[i])) ==> (r matches Ok(g)
                && g.version == frames[i].version && g.message_type == frames[i].message_type
                && g.payload@ == frames[i].payload@),
    decreases frames.len(),
{
    if frames.len() == 0 {
        assert(frames_bytes(frames) + rest =~= rest);
        assert(frames.map_values(|f: MessageFrame| spec_frame_bytes(f)) + stream_chunks(rest) =~= stream_chunks(rest));
    } else {
        let f = frames[0];
        let tail = frames.drop_first();
        let fb = spec_frame_bytes(f);
        let after = frames_bytes(tail) + rest;
        assert forall|i: int| 0 <= i < tail.len() implies stream_safe(#[trigger] tail[i]) by {
            assert(tail[i] == frames[i + 1]);
        }
        lemma_stream_frames(tail, rest);
        lemma_one_frame_chunk(f, after);
        let whole = frames_bytes(frames) + rest;
        assert(whole =~= fb + after);
        assert(whole.take(fb.len() as int) =~= fb);
        assert(whole.skip(fb.len() as int) =~= after);
        assert(stream_chunks(whole) == seq![fb] + stream_chunks(after));
        assert(frames.map_values(|g: MessageFrame| spec_frame_bytes(g)) =~= seq![fb] + tail.map_values(
            |g: MessageFrame| spec_frame_bytes(g),
        ));
        assert(stream_chunks(whole) =~= frames.map_values(|g: MessageFrame| spec_frame_bytes(g)) + stream_chunks(rest));
        assert forall|i: int, r: Result<MessageFrame, ConnectionError>|
            0 <= i < frames.len() && #[trigger] decoded_as(r, spec_frame_bytes(frames[i])) implies (r matches Ok(g)
                && g.version == frames[i].version && g.message_type == frames[i].message_type
                && g.payload@ == frames[i].payload@) by {
            lemma_frame_roundtrip(frames[i]);
        }
    }
}

/// Whether `entries` holds a connection to the node `id`.
pub open spec fn has_node<C>(entries: Seq<(NodeId, C)>, id: Seq<u8>) -> bool {
    exists|i: int| 0 <= i < entries.len() && #[trigger] entries[i].0.0@ == id
}

/// The connections of a node, one per peer, up to a limit. `C` is the
/// handle of a live connection, which the caller drives.
pub struct ConnectionManager<C> {
    connections: Vec<(NodeId, C)>,
    max_connections: usize,
}

impl<C> ConnectionManager<C> {
    /// No peer has two connections, and there are never more connections
    /// than the limit.
    #[verifier::type_invariant]
    spec fn well_formed(self) -> bool {
        &&& forall|i: int, j: int|
            0 <= i < j < self.connections@.len() ==> #[trigger] self.connections@[i].0.0@
                != #[trigger] self.connections@[j].0.0@
        &&& self.connections@.len() <= self.max_connections
    }

    /// The connections, in the order they were added.
    pub closed spec fn spec_connections(&self) -> Seq<(NodeId, C)> {
        self.connections@
    }

    /// The most connections allowed.
    pub closed spec fn spec_max(&self) -> nat {
        self.max_connections as nat
    }

    /// No connections; at most `max_connections` (the queue size is not used).
    pub fn new(max_connections: usize, message_queue_size: usize) -> (m: ConnectionManager<C>)
        ensures
            m.spec_connections().len() == 0,
            m.spec_max() == max_connections,
    {
        ConnectionManager { connections: Vec::new(), max_connections }
    }

    /// The number of connections.
    pub fn count(&self) -> (n: usize)
        ensures
            n == self.spec_connections().len(),
            n <= self.spec_max(),
    {
        proof {
            use_type_invariant(self);
        }
        self.connections.len()
    }

    /// The position of the connection to `id`, or the number of connections.
    fn position(&self, id: &NodeId) -> (i: usize)
        ensures
            i <= self.spec_connections().len(),
            i < self.spec_connections().len() ==> self.spec_connections()[i as int].0.0@ == id.0@,
            i == self.spec_connections().len() ==> !has_node(self.spec_connections(), id.0@),
    {
        let mut i: usize = 0;
        while i < self.connections.len()
            invariant
                i <= self.connections@.len(),
                forall|j: int| 0 <= j < i ==> #[trigger] self.connections@[j].0.0@ != id.0@,
            decreases self.connections@.len() - i,
        {
            if self.connections[i].0.same_id(id) {
                return i;
            }
            i = i + 1;
        }
        i
    }

    /// Whether there is a connection to `node_id`.
    pub fn has_connection(&self, node_id: &NodeId) -> (b: bool)
        ensures
            b == has_node(self.spec_connections(), node_id.0@),
    {
        self.position(node_id) < self.connections.len()
    }

    /// The connection to `node_id`, if any.
    pub fn get(&self, node_id: &NodeId) -> (r: Option<&C>)
        ensures
            has_node(self.spec_connections(), node_id.0@) <==> r is Some,
            r matches Some(c) ==> exists|i: int| 0 <= i < self.spec_connections().len()
                && self.spec_connections()[i].0.0@ == node_id.0@ && *c == self.spec_connections()[i].1,
    {
        let i = self.position(node_id);
        if i < self.connections.len() {
            Some(&self.connections[i].1)
        } else {
            None
        }
    }

    /// Adds the connection `conn` to `node_id`, replacing an earlier one;
    /// refused with `MaxConnectionsReached` when the limit is reached.
    pub fn add(&mut self, node_id: NodeId, conn: C) -> (r: Result<(), ConnectionError>)
        ensures
            final(self).spec_max() == old(self).spec_max(),
            old(self).spec_connections().len() >= old(self).spec_max() ==> (r matches Err(ConnectionError::MaxConnectionsReached))
                && final(self).spec_connections() == old(self).spec_connections(),
            old(self).spec_connections().len() < old(self).spec_max() ==> r is Ok
                && has_node(final(self).spec_connections(), node_id.0@)
                && (forall|id: Seq<u8>| id != node_id.0@ ==> (#[trigger] has_node(final(self).spec_connections(), id)
                    <==> has_node(old(self).spec_connections(), id))),
    {
        proof {
            use_type_invariant(&*self);
        }
        if self.connections.len() >= self.max_connections {
            return Err(ConnectionError::MaxConnectionsReached);
        }
        let i = self.position(&node_id);
        let mut connections: Vec<(NodeId, C)> = Vec::new();
        std::mem::swap(&mut connections, &mut self.connections);
        let ghost before = connections@;
        if i < connections.len() {
            connections.remove(i);
        }
        let ghost mid = connections@;
        connections.push((node_id, conn));
        proof {
            let after = connections@;
            assert(mid =~= if i < before.len() { before.remove(i as int) } else { before });
            assert forall|a: int, b: int| 0 <= a < b < after.len() implies #[trigger] after[a].0.0@
                != #[trigger] after[b].0.0@ by {
                let oa = if i < before.len() && a >= i { a + 1 } else { a };
                assert(after[a] == before[oa]);
                if b < after.len() - 1 {
                    let ob = if i < before.len() && b >= i { b + 1 } else { b };
                    assert(after[b] == before[ob]);
                } else {
                    assert(before[oa].0.0@ != node_id.0@);
                }
            }
            assert(after[after.len() - 1].0.0@ == node_id.0@);
            assert forall|id: Seq<u8>| id != node_id.0@ implies (#[trigger] has_node(after, id) <==> has_node(before, id)) by {
                if has_node(before, id) {
                    let k = choose|k: int| 0 <= k < before.len() && #[trigger] before[k].0.0@ == id;
                    assert(k != i);
                    let nk = if i < before.len() && k > i { k - 1 } else { k };
                    assert(after[nk] == before[k]);
                }
                if has_node(after, id) {
                    let k = choose|k: int| 0 <= k < after.len() && #[trigger] after[k].0.0@ == id;
                    assert(k < after.len() - 1);
                    let ok = if i < before.len() && k >= i { k + 1 } else { k };
                    assert(after[k] == before[ok]);
                }
            }
        }
        self.connections = connections;
        Ok(())
    }

    /// Takes the connection to `node_id` out, for the caller to close.
    pub fn remove(&mut self, node_id: &NodeId) -> (r: Option<C>)
        ensures
            final(self).spec_max() == old(self).spec_max(),
            has_node(old(self).spec_connections(), node_id.0@) <==> r is Some,
            !has_node(final(self).spec_connections(), node_id.0@),
            forall|id: Seq<u8>| id != node_id.0@ ==> (#[trigger] has_node(final(self).spec_connections(), id)
                <==> has_node(old(self).spec_connections(), id)),
    {
        proof {
            use_type_invariant(&*self);
        }
        let i = self.position(node_id);
        if i >= self.connections.len() {
            return None;
        }
        let mut connections: Vec<(NodeId, C)> = Vec::new();
        std::mem::swap(&mut connections, &mut self.connections);
        let ghost before = connections@;
        let (_, c) = connections.remove(i);
        proof {
            let after = connections@;
            assert(after =~= before.remove(i as int));
            assert forall|a: int, b: int| 0 <= a < b < after.len() implies #[trigger] after[a].0.0@
                != #[trigger] after[b].0.0@ by {
                let oa = if a >= i { a + 1 } else { a };
                let ob = if b >= i { b + 1 } else { b };
                assert(after[a] == before[oa]);
                assert(after[b] == before[ob]);
            }
            assert forall|id: Seq<u8>| !(id != node_id.0@) || (#[trigger] has_node(after, id) <==> has_node(before, id)) by {
                if id != node_id.0@ {
                    if has_node(before, id) {
                        let k = choose|k: int| 0 <= k < before.len() && #[trigger] before[k].0.0@ == id;
                        let nk = if k > i { k - 1 } else { k };
                        assert(after[nk] == before[k]);
                    }
                    if has_node(after, id) {
                        let k = choose|k: int| 0 <= k < after.len() && #[trigger] after[k].0.0@ == id;
                        let ok = if k >= i { k + 1 } else { k };
                        assert(after[k] == before[ok]);
                    }
                }
            }
            if has_node(after, node_id.0@) {
                let k = choose|k: int| 0 <= k < after.len() && #[trigger] after[k].0.0@ == node_id.0@;
                let ok = if k >= i { k + 1 } else { k };
                assert(after[k] == before[ok]);
                assert(before[i as int].0.0@ == node_id.0@);
            }
        }
        self.connections = connections;
        Some(c)
    }

    /// The identifiers of the connected peers, in the order they were added.
    pub fn node_ids(&self) -> (ids: Vec<NodeId>)
        ensures
            ids@.len() == self.spec_connections().len(),
            forall|i: int| 0 <= i < ids@.len() ==> #[trigger] ids@[i] == self.spec_connections()[i].0,
    {
        let mut ids: Vec<NodeId> = Vec::new();
        let mut i: usize = 0;
        while i < self.connections.len()
            invariant
                i <= self.connections@.len(),
                ids@.len() == i,
                forall|k: int| 0 <= k < i ==> #[trigger] ids@[k] == self.connections@[k].0,
            decreases self.connections@.len() - i,
        {
            ids.push(self.connections[i].0);
            i = i + 1;
        }
        ids
    }

    /// Takes every connection out, for the caller to close.
    pub fn drain(&mut self) -> (all: Vec<(NodeId, C)>)
        ensures
            all@ == old(self).spec_connections(),
            final(self).spec_connections().len() == 0,
            final(self).spec_max() == old(self).spec_max(),
    {
        let mut all: Vec<(NodeId, C)> = Vec::new();
        std::mem::swap(&mut all, &mut self.connections);
        all
    }
}

} // verus!
