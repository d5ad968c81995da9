//! The stealth protocol: padded packets, obfuscation settings and the
//! bookkeeping of a connection's sequence numbers.

use vstd::prelude::*;
use std::collections::VecDeque;
use crate::common::entropy::{random_bytes, random_in_range};
use crate::common::net::SocketAddr;
use crate::common::time::Timestamp;
use crate::crypto::signature::{KeyPair, SignatureError};

verus! {

/// Why a stealth-protocol operation failed.
#[derive(Debug)]
pub enum AztecError {
    Io(std::io::Error),
    DecryptionFailed,
    InvalidPacket,
    ObfuscationFailed,
    ConnectionClosed,
}

/// The traffic a connection disguises itself as.
#[derive(Debug, Clone, Copy, PartialEq, Eq, Structural)]
pub enum StealthMode {
    HttpsMimic,
    DnsMimic,
    WebSocketMimic,
    Random,
}

/// How packets are padded and timed.
#[derive(Debug, Clone, Copy)]
pub struct ObfuscationConfig {
    pub mode: StealthMode,
    pub min_padding_size: usize,
    pub max_padding_size: usize,
    pub enable_timing_obfuscation: bool,
    pub jitter_range_ms: u64,
}

impl Default for ObfuscationConfig {
    /// HTTPS mimicry, 16 to 256 bytes of padding, 50 ms of jitter.
    fn default() -> (c: ObfuscationConfig)
        ensures
            c.mode == StealthMode::HttpsMimic,
            c.min_padding_size == 16,
            c.max_padding_size == 256,
            c.enable_timing_obfuscation,
            c.jitter_range_ms == 50,
    {
        ObfuscationConfig {
            mode: StealthMode::HttpsMimic,
            min_padding_size: 16,
            max_padding_size: 256,
            enable_timing_obfuscation: true,
            jitter_range_ms: 50,
        }
    }
}

/// The packet magic, "AZTC".
pub open spec fn aztec_magic() -> Seq<u8> {
    seq![0x41u8, 0x5Au8, 0x54u8, 0x43u8]
}

/// A stealth packet.
#[derive(Debug, Clone)]
pub struct AztecPacket {
    pub magic: [u8; 4],
    pub sequence: u64,
    pub timestamp: u64,
    pub payload: Vec<u8>,
    pub padding: Vec<u8>,
    pub checksum: [u8; 32],
}

impl AztecPacket {
    /// A packet with the given fields, the magic and a zero checksum.
    pub fn with_parts(sequence: u64, payload: Vec<u8>, padding: Vec<u8>, timestamp: u64) -> (p: AztecPacket)
        ensures
            p.magic@ == aztec_magic(),
            p.sequence == sequence,
            p.timestamp == timestamp,
            p.payload == payload,
            p.padding == padding,
            p.checksum@ == Seq::new(32, |i: int| 0u8),
    {
        let p = AztecPacket { magic: [0x41, 0x5A, 0x54, 0x43], sequence, timestamp, payload, padding, checksum: [0u8; 32] };
        assert(p.magic@ =~= aztec_magic());
        assert(p.checksum@ =~= Seq::new(32, |i: int| 0u8));
        p
    }

    /// A packet stamped now, with a random amount of random padding between
    /// the configured bounds.
    pub fn new(sequence: u64, payload: Vec<u8>, config: &ObfuscationConfig) -> (p: AztecPacket)
        requires
            config.min_padding_size <= config.max_padding_size,
        ensures
            p.magic@ == aztec_magic(),
            p.sequence == sequence,
            p.payload == payload,
            config.min_padding_size <= p.padding@.len() <= config.max_padding_size,
            p.checksum@ == Seq::new(32, |i: int| 0u8),
    {
        let size = random_in_range(config.min_padding_size as u64, config.max_padding_size as u64) as usize;
        let padding = random_bytes(size);
        let timestamp = Timestamp::now().duration_since_epoch().as_secs();
        Self::with_parts(sequence, payload, padding, timestamp)
    }
}

/// A stealth connection's state.
pub struct AztecConnection {
    config: ObfuscationConfig,
    local_addr: SocketAddr,
    remote_addr: SocketAddr,
    keypair: KeyPair,
    peer_public_key: Option<Vec<u8>>,
    sequence: u64,
    send_buffer: VecDeque<AztecPacket>,
    recv_buffer: VecDeque<AztecPacket>,
}

impl AztecConnection {
    /// The sequence number the next packet gets.
    pub closed spec fn spec_sequence(&self) -> u64 {
        self.sequence
    }

    /// The configuration.
    pub closed spec fn spec_config(&self) -> ObfuscationConfig {
        self.config
    }

    /// The peer's public key, once known.
    pub closed spec fn spec_peer_key(&self) -> Option<Vec<u8>> {
        self.peer_public_key
    }

    /// A connection between the two addresses, starting at sequence zero.
    pub fn new(config: ObfuscationConfig, local_addr: SocketAddr, remote_addr: SocketAddr, keypair: KeyPair) -> (c: AztecConnection)
        ensures
            c.spec_sequence() == 0,
            c.spec_config() == config,
            c.spec_peer_key() is None,
            c.local_addr_spec() == local_addr,
            c.remote_addr_spec() == remote_addr,
    {
        AztecConnection {
            config,
            local_addr,
            remote_addr,
            keypair,
            peer_public_key: None,
            sequence: 0,
            send_buffer: VecDeque::new(),
            recv_buffer: VecDeque::new(),
        }
    }

    /// The local address.
    pub closed spec fn local_addr_spec(&self) -> SocketAddr {
        self.local_addr
    }

    /// The remote address.
    pub closed spec fn remote_addr_spec(&self) -> SocketAddr {
        self.remote_addr
    }

    /// The local address.
    pub fn local_addr(&self) -> (a: SocketAddr)
        ensures
            a == self.local_addr_spec(),
    {
        self.local_addr
    }

    /// The remote address.
    pub fn remote_addr(&self) -> (a: SocketAddr)
        ensures
            a == self.remote_addr_spec(),
    {
        self.remote_addr
    }

    /// Records the peer's public key.
    pub fn set_peer_public_key(&mut self, key: Vec<u8>)
        ensures
            final(self).spec_peer_key() == Some(key),
            final(self).spec_sequence() == old(self).spec_sequence(),
            final(self).spec_config() == old(self).spec_config(),
    {
        self.peer_public_key = Some(key);
    }

    /// Wraps `data` in the next packet and advances the sequence number.
    pub fn prepare_send(&mut self, data: Vec<u8>) -> (r: Result<AztecPacket, AztecError>)
        requires
            old(self).spec_sequence() < u64::MAX,
            old(self).spec_config().min_padding_size <= old(self).spec_config().max_padding_size,
        ensures
            final(self).spec_sequence() == old(self).spec_sequence() + 1,
            final(self).spec_config() == old(self).spec_config(),
            r matches Ok(p) && p.sequence == old(self).spec_sequence() && p.payload == data
                && old(self).spec_config().min_padding_size <= p.padding@.len()
                <= old(self).spec_config().max_padding_size,
    {
        let packet = AztecPacket::new(self.sequence, data, &self.config);
        self.sequence = self.sequence + 1;
        Ok(packet)
    }

    /// Opens a received packet; no packet can be opened yet.
    pub fn process_recv(&mut self, packet: AztecPacket) -> (r: Result<Vec<u8>, AztecError>)
        ensures
            r matches Err(AztecError::DecryptionFailed),
            final(self).spec_sequence() == old(self).spec_sequence(),
    {
        Err(AztecError::DecryptionFailed)
    }
}

/// A stealth-protocol client: its key pair and settings.
pub struct AztecClient {
    config: ObfuscationConfig,
    keypair: KeyPair,
}

impl AztecClient {
    /// A client with a fresh key pair; fails when no key pair can be made.
    pub fn new(config: ObfuscationConfig) -> (r: Result<AztecClient, SignatureError>)
        ensures
            r matches Ok(c) ==> c.spec_config() == config,
            r matches Err(e) ==> e == SignatureError::GenerationFailed,
    {
        match KeyPair::generate() {
            Ok(keypair) => Ok(AztecClient { config, keypair }),
            Err(e) => Err(e),
        }
    }

    /// The settings.
    pub closed spec fn spec_config(&self) -> ObfuscationConfig {
        self.config
    }

    /// The client's public key.
    pub closed spec fn spec_public_key(&self) -> Seq<u8> {
        self.keypair.spec_public_key()
    }

    /// The client's 32-byte public key.
    pub fn public_key(&self) -> (k: Vec<u8>)
        ensures
            k@ == self.spec_public_key(),
            k@.len() == 32,
    {
        let mut k: Vec<u8> = Vec::new();
        crate::common::wire::extend_bytes(&mut k, self.keypair.public_key());
        k
    }
}

/// A stealth-protocol server: its key pair, settings and address.
pub struct AztecServer {
    config: ObfuscationConfig,
    keypair: KeyPair,
    listen_addr: SocketAddr,
}

impl AztecServer {
    /// A server with a fresh key pair; fails when no key pair can be made.
    pub fn new(config: ObfuscationConfig, listen_addr: SocketAddr) -> (r: Result<AztecServer, SignatureError>)
        ensures
            r matches Ok(s) ==> s.spec_config() == config && s.spec_listen_addr() == listen_addr,
            r matches Err(e) ==> e == SignatureError::GenerationFailed,
    {
        match KeyPair::generate() {
            Ok(keypair) => Ok(AztecServer { config, keypair, listen_addr }),
            Err(e) => Err(e),
        }
    }

    /// The settings.
    pub closed spec fn spec_config(&self) -> ObfuscationConfig {
        self.config
    }

    /// The address listened on.
    pub closed spec fn spec_listen_addr(&self) -> SocketAddr {
        self.listen_addr
    }

    /// The settings.
    pub fn config(&self) -> (c: ObfuscationConfig)
        ensures
            c == self.spec_config(),
    {
        self.config
    }

    /// The address listened on.
    pub fn listen_addr(&self) -> (a: SocketAddr)
        ensures
            a == self.spec_listen_addr(),
    {
        self.listen_addr
    }

    /// The server's public key.
    pub closed spec fn spec_public_key(&self) -> Seq<u8> {
        self.keypair.spec_public_key()
    }

    /// The server's 32-byte public key.
    pub fn public_key(&self) -> (k: Vec<u8>)
        ensures
            k@ == self.spec_public_key(),
            k@.len() == 32,
    {
        let mut k: Vec<u8> = Vec::new();
        crate::common::wire::extend_bytes(&mut k, self.keypair.public_key());
        k
    }
}

/// The number of recent packets a traffic analyzer keeps.
pub const TRAFFIC_WINDOW: usize = 1000;

/// The sizes and arrival times (milliseconds) of the most recent packets.
pub struct TrafficAnalyzer {
    packet_sizes: VecDeque<usize>,
    packet_timings: VecDeque<u64>,
}

/// The window after recording one more entry: the oldest leaves once more
/// than a thousand are kept.
pub open spec fn spec_window_push<T>(s: Seq<T>, x: T) -> Seq<T> {
    if s.len() + 1 > TRAFFIC_WINDOW { s.push(x).drop_first() } else { s.push(x) }
}

impl TrafficAnalyzer {
    /// A size and a time are kept for every recorded packet.
    #[verifier::type_invariant]
    spec fn well_formed(self) -> bool {
        self.packet_sizes@.len() == self.packet_timings@.len()
    }

    /// The recorded sizes, oldest first.
    pub closed spec fn spec_sizes(&self) -> Seq<usize> {
        self.packet_sizes@
    }

    /// The recorded arrival times, oldest first.
    pub closed spec fn spec_timings(&self) -> Seq<u64> {
        self.packet_timings@
    }

    /// An analyzer that has seen nothing.
    pub fn new() -> (t: TrafficAnalyzer)
        ensures
            t.spec_sizes().len() == 0,
            t.spec_timings().len() == 0,
    {
        TrafficAnalyzer { packet_sizes: VecDeque::new(), packet_timings: VecDeque::new() }
    }

    /// Records a packet of `size` bytes arriving at `now_ms`.
    pub fn record_packet_at(&mut self, size: usize, now_ms: u64)
        ensures
            final(self).spec_sizes() == spec_window_push(old(self).spec_sizes(), size),
            final(self).spec_timings() == spec_window_push(old(self).spec_timings(), now_ms),
    {
        proof {
            use_type_invariant(&*self);
        }
        let mut taken = TrafficAnalyzer::new();
        std::mem::swap(&mut taken, self);
        let TrafficAnalyzer { packet_sizes: mut sizes, packet_timings: mut timings } = taken;
        sizes.push_back(size);
        timings.push_back(now_ms);
        if sizes.len() > TRAFFIC_WINDOW {
            let _ = sizes.pop_front();
            let _ = timings.pop_front();
        }
        proof {
            assert(sizes@ =~= spec_window_push(old(self).spec_sizes(), size));
            assert(timings@ =~= spec_window_push(old(self).spec_timings(), now_ms));
        }
        *self = TrafficAnalyzer { packet_sizes: sizes, packet_timings: timings };
    }

    /// Records a packet of `size` bytes arriving now: `record_packet_at` with
    /// the clock's reading in milliseconds, which can be any value.
    pub fn record_packet(&mut self, size: usize)
        ensures
            final(self).spec_sizes() == spec_window_push(old(self).spec_sizes(), size),
            exists|now_ms: u64| #[trigger] spec_window_push(old(self).spec_timings(), now_ms) == final(self).spec_timings(),
    {
        let ms = Timestamp::now().duration_since_epoch().as_millis();
        let now_ms: u64 = (ms % 0x1_0000_0000_0000_0000) as u64;
        self.record_packet_at(size, now_ms);
        assert(spec_window_push(old(self).spec_timings(), now_ms) == self.spec_timings());
    }
}

} // verus!
