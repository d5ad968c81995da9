//! The low-latency transport: frames, stream bookkeeping and congestion
//! control. Sending and receiving datagrams is left to the caller.

use vstd::prelude::*;
use std::collections::{HashMap, VecDeque};
use crate::common::net::SocketAddr;
use crate::common::time::{Duration, Instant};

verus! {

broadcast use vstd::std_specs::hash::group_hash_axioms;

/// The largest frame that fits a common MTU.
pub const MAX_FRAME_SIZE: usize = 1350;

/// The initial congestion and flow-control window.
pub const INITIAL_WINDOW: u64 = 65535;

/// The most streams a connection opens.
pub const MAX_STREAMS: usize = 100;

/// How often an idle connection is pinged.
pub const KEEPALIVE_INTERVAL_MS: u64 = 5000;

/// How long a connection may stay idle.
pub const IDLE_TIMEOUT_MS: u64 = 30000;

/// The segment size by which slow start grows the window.
pub const SEGMENT_SIZE: u64 = 1460;

/// Why a transport operation failed.
#[derive(Debug)]
pub enum SwiftError {
    Io(std::io::Error),
    ConnectionClosed,
    Timeout,
    InvalidFrame,
    HandshakeFailed(String),
    StreamNotFound,
    MaxStreamsReached,
}

/// The delivery guarantee of a connection.
#[derive(Debug, Clone, Copy, PartialEq, Eq, Structural)]
pub enum TransportMode {
    Reliable,
    Unreliable,
    PartiallyReliable,
}

/// A range of acknowledged sequence numbers, both ends included.
#[derive(Debug, Clone, Copy, PartialEq, Eq, Structural)]
pub struct AckRange {
    pub first: u64,
    pub last: u64,
}

/// A transport frame.
#[derive(Debug, Clone)]
pub enum SwiftFrame {
    Handshake { version: u32, connection_id: u64, supported_modes: Vec<TransportMode> },
    HandshakeAck { version: u32, connection_id: u64, selected_mode: TransportMode },
    Data { stream_id: u32, sequence: u64, offset: u64, fin: bool, data: Vec<u8> },
    Ack { ack_ranges: Vec<AckRange> },
    StreamReset { stream_id: u32, error_code: u32 },
    Ping { timestamp: u64 },
    Pong { timestamp: u64 },
    Close { error_code: u32, reason: String },
}

/// How a connection is configured.
#[derive(Debug, Clone, Copy)]
pub struct SwiftConfig {
    pub local_addr: Option<SocketAddr>,
    pub transport_mode: TransportMode,
    pub max_concurrent_streams: usize,
    pub initial_window_size: u64,
    pub idle_timeout_ms: u64,
    pub keep_alive_interval_ms: u64,
}

impl Default for SwiftConfig {
    /// Reliable delivery, 100 streams, the initial window, 30 s idle
    /// timeout, 5 s keep-alive.
    fn default() -> (c: SwiftConfig)
        ensures
            c.local_addr is None,
            c.transport_mode == TransportMode::Reliable,
            c.max_concurrent_streams == MAX_STREAMS,
            c.initial_window_size == INITIAL_WINDOW,
            c.idle_timeout_ms == IDLE_TIMEOUT_MS,
            c.keep_alive_interval_ms == KEEPALIVE_INTERVAL_MS,
    {
        SwiftConfig {
            local_addr: None,
            transport_mode: TransportMode::Reliable,
            max_concurrent_streams: MAX_STREAMS,
            initial_window_size: INITIAL_WINDOW,
            idle_timeout_ms: IDLE_TIMEOUT_MS,
            keep_alive_interval_ms: KEEPALIVE_INTERVAL_MS,
        }
    }
}

/// The lifecycle of a connection.
#[derive(Debug, Clone, Copy, PartialEq, Eq, Structural)]
pub enum ConnectionState {
    Idle,
    Connecting,
    Connected,
    Closing,
    Closed,
}

/// Slow start and congestion avoidance over a window in bytes.
#[derive(Debug, Clone, Copy)]
pub struct CongestionController {
    pub cwnd: u64,
    pub ssthresh: u64,
    pub bytes_in_flight: u64,
    pub rtt: Duration,
    pub rtt_var: Duration,
    pub min_rtt: Duration,
    pub last_update: Instant,
}

/// The window after an acknowledgement: one segment more in slow start,
/// a segment's share of the window in congestion avoidance.
pub open spec fn spec_window_after_ack(cwnd: u64, ssthresh: u64) -> int {
    if cwnd < ssthresh { cwnd + SEGMENT_SIZE } else { cwnd + (SEGMENT_SIZE as int) / (cwnd as int) }
}

impl CongestionController {
    /// The initial window with no threshold, nothing in flight, a 100 ms
    /// round trip (50 ms variation) and a one-second minimum, updated at `now`.
    pub fn new_at(now: Instant) -> (c: CongestionController)
        ensures
            c.cwnd == INITIAL_WINDOW,
            c.ssthresh == u64::MAX,
            c.bytes_in_flight == 0,
            c.rtt@ == 100_000_000,
            c.rtt_var@ == 50_000_000,
            c.min_rtt@ == 1_000_000_000,
            c.last_update == now,
    {
        CongestionController {
            cwnd: INITIAL_WINDOW,
            ssthresh: u64::MAX,
            bytes_in_flight: 0,
            rtt: Duration::from_millis(100),
            rtt_var: Duration::from_millis(50),
            min_rtt: Duration::from_secs(1),
            last_update: now,
        }
    }

    /// The initial controller, updated now.
    pub fn new() -> (c: CongestionController)
        ensures
            c.cwnd == INITIAL_WINDOW,
            c.ssthresh == u64::MAX,
            c.bytes_in_flight == 0,
            c.rtt@ == 100_000_000,
            c.rtt_var@ == 50_000_000,
            c.min_rtt@ == 1_000_000_000,
    {
        Self::new_at(Instant::now())
    }

    /// Grows the window on an acknowledgement (the acknowledged byte count
    /// is not used).
    pub fn on_ack(&mut self, bytes: u64)
        requires
            old(self).cwnd > 0,
            spec_window_after_ack(old(self).cwnd, old(self).ssthresh) <= u64::MAX,
        ensures
            final(self).cwnd == spec_window_after_ack(old(self).cwnd, old(self).ssthresh),
            final(self).ssthresh == old(self).ssthresh,
            final(self).bytes_in_flight == old(self).bytes_in_flight,
    {
        if self.cwnd < self.ssthresh {
            self.cwnd = self.cwnd + SEGMENT_SIZE;
        } else {
            self.cwnd = self.cwnd + SEGMENT_SIZE / self.cwnd;
        }
    }

    /// Halves the threshold to the current window and restarts from the
    /// initial window on a loss.
    pub fn on_loss(&mut self)
        ensures
            final(self).ssthresh == old(self).cwnd / 2,
            final(self).cwnd == INITIAL_WINDOW,
            final(self).bytes_in_flight == old(self).bytes_in_flight,
    {
        self.ssthresh = self.cwnd / 2;
        self.cwnd = INITIAL_WINDOW;
    }

    /// Whether the window has room for more data.
    pub fn can_send(&self) -> (b: bool)
        ensures
            b == (self.bytes_in_flight < self.cwnd),
    {
        self.bytes_in_flight < self.cwnd
    }
}

/// A loss never shrinks the window below the initial one, and an
/// acknowledgement never shrinks it.
pub proof fn lemma_window_bounds(cwnd: u64, ssthresh: u64)
    requires
        cwnd > 0,
    ensures
        spec_window_after_ack(cwnd, ssthresh) >= cwnd,
{
}

/// One stream's sequence numbers, offsets, windows and buffers.
#[derive(Debug)]
pub struct StreamState {
    pub stream_id: u32,
    pub next_send_seq: u64,
    pub next_recv_seq: u64,
    pub send_offset: u64,
    pub recv_offset: u64,
    pub send_window: u64,
    pub recv_window: u64,
    pub send_buffer: VecDeque<(u64, Vec<u8>)>,
    pub recv_buffer: HashMap<u64, Vec<u8>>,
    pub is_closed: bool,
}

impl StreamState {
    /// A fresh open stream with the initial windows.
    pub fn new(stream_id: u32) -> (s: StreamState)
        ensures
            s.stream_id == stream_id,
            s.next_send_seq == 0 && s.next_recv_seq == 0,
            s.send_offset == 0 && s.recv_offset == 0,
            s.send_window == INITIAL_WINDOW && s.recv_window == INITIAL_WINDOW,
            s.send_buffer@.len() == 0,
            s.recv_buffer@ == Map::<u64, Vec<u8>>::empty(),
            !s.is_closed,
    {
        StreamState {
            stream_id,
            next_send_seq: 0,
            next_recv_seq: 0,
            send_offset: 0,
            recv_offset: 0,
            send_window: INITIAL_WINDOW,
            recv_window: INITIAL_WINDOW,
            send_buffer: VecDeque::new(),
            recv_buffer: HashMap::new(),
            is_closed: false,
        }
    }
}

/// The position of stream `id` in `streams`, if any.
pub open spec fn stream_index(streams: Seq<StreamState>, id: u32) -> Option<int>
    decreases streams.len(),
{
    if streams.len() == 0 {
        None
    } else if streams.last().stream_id == id {
        Some(streams.len() - 1)
    } else {
        stream_index(streams.drop_last(), id)
    }
}

/// A connection's streams and congestion state, and the replies its frames
/// call for.
pub struct SwiftStreams {
    config: SwiftConfig,
    streams: Vec<StreamState>,
    congestion: CongestionController,
    state: ConnectionState,
}

impl SwiftStreams {
    /// The configuration.
    pub closed spec fn spec_config(&self) -> SwiftConfig {
        self.config
    }

    /// The streams, in the order they appeared.
    pub closed spec fn spec_streams(&self) -> Seq<StreamState> {
        self.streams@
    }

    /// The congestion controller.
    pub closed spec fn spec_congestion(&self) -> CongestionController {
        self.congestion
    }

    /// The connection state.
    pub closed spec fn spec_state(&self) -> ConnectionState {
        self.state
    }

    /// No streams, a fresh controller, idle.
    pub fn new(config: SwiftConfig) -> (s: SwiftStreams)
        ensures
            s.spec_config() == config,
            s.spec_streams().len() == 0,
            s.spec_congestion().cwnd == INITIAL_WINDOW,
            s.spec_state() == ConnectionState::Idle,
    {
        SwiftStreams { config, streams: Vec::new(), congestion: CongestionController::new(), state: ConnectionState::Idle }
    }

    /// The connection state.
    pub fn state(&self) -> (s: ConnectionState)
        ensures
            s == self.spec_state(),
    {
        self.state
    }

    /// The congestion controller.
    pub fn congestion(&self) -> (c: CongestionController)
        ensures
            c == self.spec_congestion(),
    {
        self.congestion
    }

    /// Sets the connection state.
    pub fn set_state(&mut self, state: ConnectionState)
        ensures
            final(self).spec_state() == state,
            final(self).spec_streams() == old(self).spec_streams(),
            final(self).spec_config() == old(self).spec_config(),
    {
        self.state = state;
    }

    /// Where stream `id` is.
    fn find(&self, id: u32) -> (r: Option<usize>)
        ensures
            match r {
                Some(i) => stream_index(self.spec_streams(), id) == Some(i as int) && i < self.spec_streams().len(),
                None => stream_index(self.spec_streams(), id) is None,
            },
    {
        let mut i: usize = self.streams.len();
        assert(self.streams@.take(i as int) =~= self.streams@);
        while i > 0 && self.streams[i - 1].stream_id != id
            invariant
                i <= self.streams@.len(),
                stream_index(self.streams@, id) == stream_index(self.streams@.take(i as int), id),
            decreases i,
        {
            proof {
                assert(self.streams@.take(i as int).drop_last() =~= self.streams@.take(i as int - 1));
            }
            i = i - 1;
        }
        if i == 0 {
            None
        } else {
            proof {
                assert(self.streams@.take(i as int).last() == self.streams@[i as int - 1]);
            }
            Some(i - 1)
        }
    }

    /// Opens a stream numbered by the count of streams so far;
    /// `MaxStreamsReached` at the limit.
    pub fn open_stream(&mut self) -> (r: Result<u32, SwiftError>)
        requires
            old(self).spec_streams().len() <= u32::MAX,
        ensures
            final(self).spec_config() == old(self).spec_config(),
            old(self).spec_streams().len() >= old(self).spec_config().max_concurrent_streams ==> (r matches Err(
                SwiftError::MaxStreamsReached,
            )) && final(self).spec_streams() == old(self).spec_streams(),
            old(self).spec_streams().len() < old(self).spec_config().max_concurrent_streams ==> {
                let t = final(self).spec_streams();
                &&& r matches Ok(id) && id == old(self).spec_streams().len()
                &&& t.len() == old(self).spec_streams().len() + 1
                &&& t.drop_last() == old(self).spec_streams()
                &&& t.last().stream_id == old(self).spec_streams().len()
                &&& t.last().next_send_seq == 0 && t.last().next_recv_seq == 0
                &&& !t.last().is_closed
            },
    {
        if self.streams.len() >= self.config.max_concurrent_streams {
            return Err(SwiftError::MaxStreamsReached);
        }
        let id = self.streams.len() as u32;
        self.streams.push(StreamState::new(id));
        proof {
            assert(self.streams@.drop_last() =~= old(self).streams@);
        }
        Ok(id)
    }

    /// Records `data` as the next message on stream `stream_id` and gives
    /// the data frame to send; `StreamNotFound` for an unknown stream and
    /// `ConnectionClosed` for a closed one.
    pub fn prepare_send(&mut self, stream_id: u32, data: Vec<u8>) -> (r: Result<SwiftFrame, SwiftError>)
        requires
            match stream_index(old(self).spec_streams(), stream_id) {
                Some(i) => old(self).spec_streams()[i].next_send_seq < u64::MAX
                    && old(self).spec_streams()[i].send_offset + data@.len() <= u64::MAX,
                None => true,
            },
        ensures
            final(self).spec_config() == old(self).spec_config(),
            final(self).spec_streams().len() == old(self).spec_streams().len(),
            match stream_index(old(self).spec_streams(), stream_id) {
                None => (r matches Err(SwiftError::StreamNotFound)) && final(self).spec_streams() == old(self).spec_streams(),
                Some(i) => if old(self).spec_streams()[i].is_closed {
                    (r matches Err(SwiftError::ConnectionClosed)) && final(self).spec_streams() == old(self).spec_streams()
                } else {
                    let s = old(self).spec_streams()[i];
                    let t = final(self).spec_streams()[i];
                    &&& r matches Ok(SwiftFrame::Data { stream_id: sid, sequence, offset, fin, data: d })
                        && sid == stream_id && sequence == s.next_send_seq && offset == s.send_offset && !fin && d@ == data@
                    &&& t.next_send_seq == s.next_send_seq + 1
                    &&& t.send_offset == s.send_offset + data@.len()
                    &&& t.send_buffer@ == s.send_buffer@.push((s.next_send_seq, data))
                    &&& t.stream_id == s.stream_id && t.next_recv_seq == s.next_recv_seq && t.is_closed == s.is_closed
                    &&& t.recv_buffer@ == s.recv_buffer@
                    &&& forall|j: int| 0 <= j < old(self).spec_streams().len() && j != i ==> #[trigger] final(self).spec_streams()[j]
                        == old(self).spec_streams()[j]
                },
            },
    {
        let i = match self.find(stream_id) {
            Some(i) => i,
            None => return Err(SwiftError::StreamNotFound),
        };
        if self.streams[i].is_closed {
            return Err(SwiftError::ConnectionClosed);
        }
        let mut streams: Vec<StreamState> = Vec::new();
        std::mem::swap(&mut streams, &mut self.streams);
        let mut stream = streams.remove(i);
        let seq = stream.next_send_seq;
        let offset = stream.send_offset;
        stream.next_send_seq = seq + 1;
        stream.send_offset = offset + data.len() as u64;
        let mut copy: Vec<u8> = Vec::new();
        crate::common::wire::extend_bytes(&mut copy, data.as_slice());
        stream.send_buffer.push_back((seq, data));
        streams.insert(i, stream);
        self.streams = streams;
        proof {
            assert forall|j: int| 0 <= j < old(self).spec_streams().len() && j != i implies #[trigger] self.spec_streams()[j]
                == old(self).spec_streams()[j] by {}
        }
        Ok(SwiftFrame::Data { stream_id, sequence: seq, offset, fin: false, data: copy })
    }

    /// Takes the next in-order message of the first stream that has one.
    pub fn take_received(&mut self) -> (r: Option<(u32, Vec<u8>)>)
        requires
            forall|j: int| 0 <= j < old(self).spec_streams().len() ==> #[trigger] old(self).spec_streams()[j].next_recv_seq < u64::MAX,
        ensures
            final(self).spec_streams().len() == old(self).spec_streams().len(),
            r is None ==> final(self).spec_streams() == old(self).spec_streams()
                && forall|j: int| 0 <= j < old(self).spec_streams().len() ==> !#[trigger] old(self).spec_streams()[j].recv_buffer@.contains_key(
                    old(self).spec_streams()[j].next_recv_seq,
                ),
            final(self).spec_config() == old(self).spec_config(),
            final(self).spec_congestion() == old(self).spec_congestion(),
            final(self).spec_state() == old(self).spec_state(),
            r matches Some((id, data)) ==> exists|i: int|
                0 <= i < old(self).spec_streams().len() && {
                    let s = #[trigger] old(self).spec_streams()[i];
                    let t = final(self).spec_streams()[i];
                    &&& id == s.stream_id
                    &&& s.recv_buffer@.contains_key(s.next_recv_seq)
                    &&& data == s.recv_buffer@[s.next_recv_seq]
                    &&& forall|j: int| 0 <= j < i ==> !#[trigger] old(self).spec_streams()[j].recv_buffer@.contains_key(
                        old(self).spec_streams()[j].next_recv_seq,
                    )
                    &&& forall|j: int| 0 <= j < old(self).spec_streams().len() && j != i
                        ==> #[trigger] final(self).spec_streams()[j] == old(self).spec_streams()[j]
                    &&& t.next_recv_seq == s.next_recv_seq + 1
                    &&& t.recv_buffer@ == s.recv_buffer@.remove(s.next_recv_seq)
                    &&& t.stream_id == s.stream_id
                    &&& t.next_send_seq == s.next_send_seq
                    &&& t.send_offset == s.send_offset
                    &&& t.recv_offset == s.recv_offset
                    &&& t.send_window == s.send_window
                    &&& t.recv_window == s.recv_window
                    &&& t.send_buffer@ == s.send_buffer@
                    &&& t.is_closed == s.is_closed
                },
    {
        let mut i: usize = 0;
        assert forall|j: int| 0 <= j < self.streams@.len() implies #[trigger] self.streams@[j].next_recv_seq < u64::MAX by {
            assert(old(self).spec_streams()[j].next_recv_seq < u64::MAX);
        }
        while i < self.streams.len()
            invariant
                i <= self.streams@.len(),
                self.streams@ == old(self).streams@,
                self.config == old(self).config,
                self.congestion == old(self).congestion,
                self.state == old(self).state,
                forall|j: int| 0 <= j < self.streams@.len() ==> #[trigger] self.streams@[j].next_recv_seq < u64::MAX,
                forall|j: int| 0 <= j < i ==> !#[trigger] self.streams@[j].recv_buffer@.contains_key(self.streams@[j].next_recv_seq),
            decreases self.streams@.len() - i,
        {
            let seq = self.streams[i].next_recv_seq;
            if self.streams[i].recv_buffer.contains_key(&seq) {
                let mut streams: Vec<StreamState> = Vec::new();
                std::mem::swap(&mut streams, &mut self.streams);
                let mut stream = streams.remove(i);
                let data = stream.recv_buffer.remove(&seq);
                stream.next_recv_seq = seq + 1;
                let id = stream.stream_id;
                streams.insert(i, stream);
                self.streams = streams;
                proof {
                    assert forall|j: int| 0 <= j < old(self).spec_streams().len() && j != i implies
                        #[trigger] self.streams@[j] == old(self).spec_streams()[j] by {
                        if j < i {
                            assert(self.streams@[j] == old(self).streams@[j]);
                        } else {
                            assert(self.streams@[j] == old(self).streams@[j]);
                        }
                    }
                }
                match data {
                    Some(d) => {
                        assert(old(self).spec_streams()[i as int].stream_id == id);
                        return Some((id, d));
                    },
                    None => {
                        return None;
                    },
                }
            }
            i = i + 1;
        }
        None
    }

    /// Handles a received frame and gives the reply to send, if any: data
    /// is buffered on its stream (created if new) and acknowledged, and
    /// closes the stream when it carries the end flag; acknowledgements grow
    /// the window once per range; a ping is answered with a pong; a close
    /// closes the connection.
    pub fn handle_frame(&mut self, frame: SwiftFrame) -> (r: Result<Option<SwiftFrame>, SwiftError>)
        requires
            old(self).spec_congestion().cwnd > 0,
            frame matches SwiftFrame::Ack { ack_ranges } ==> ack_ranges@.len() as int * SEGMENT_SIZE
                + old(self).spec_congestion().cwnd <= u64::MAX,
        ensures
            final(self).spec_config() == old(self).spec_config(),
            match frame {
                SwiftFrame::Data { stream_id, sequence, .. } => r matches Ok(Some(SwiftFrame::Ack { ack_ranges }))
                    && ack_ranges@ == seq![AckRange { first: sequence, last: sequence }],
                SwiftFrame::Ping { timestamp } => r matches Ok(Some(SwiftFrame::Pong { timestamp: t })) && t == timestamp,
                SwiftFrame::Close { .. } => (r matches Ok(None)) && final(self).spec_state() == ConnectionState::Closed,
                _ => r matches Ok(None),
            },
    {
        match frame {
            SwiftFrame::Data { stream_id, sequence, offset, fin, data } => {
                let i = match self.find(stream_id) {
                    Some(i) => i,
                    None => {
                        self.streams.push(StreamState::new(stream_id));
                        self.streams.len() - 1
                    },
                };
                let mut streams: Vec<StreamState> = Vec::new();
                std::mem::swap(&mut streams, &mut self.streams);
                let mut stream = streams.remove(i);
                let _ = stream.recv_buffer.insert(sequence, data);
                if fin {
                    stream.is_closed = true;
                }
                streams.insert(i, stream);
                self.streams = streams;
                Ok(Some(SwiftFrame::Ack { ack_ranges: vec![AckRange { first: sequence, last: sequence }] }))
            },
            SwiftFrame::Ack { ack_ranges } => {
                let mut k: usize = 0;
                while k < ack_ranges.len()
                    invariant
                        k <= ack_ranges@.len(),
                        self.congestion.cwnd > 0,
                        self.congestion.cwnd <= old(self).congestion.cwnd + k * SEGMENT_SIZE,
                        ack_ranges@.len() as int * SEGMENT_SIZE + old(self).congestion.cwnd <= u64::MAX,
                        self.config == old(self).config,
                    decreases ack_ranges@.len() - k,
                {
                    proof {
                        assert((SEGMENT_SIZE as int) / (self.congestion.cwnd as int) <= SEGMENT_SIZE) by (nonlinear_arith)
                            requires self.congestion.cwnd > 0;
                        assert((k + 1) * SEGMENT_SIZE == k * SEGMENT_SIZE + SEGMENT_SIZE) by (nonlinear_arith);
                        assert(k * SEGMENT_SIZE + SEGMENT_SIZE <= ack_ranges@.len() as int * SEGMENT_SIZE) by (nonlinear_arith)
                            requires k < ack_ranges@.len();
                    }
                    self.congestion.on_ack(SEGMENT_SIZE);
                    k = k + 1;
                }
                Ok(None)
            },
            SwiftFrame::Ping { timestamp } => Ok(Some(SwiftFrame::Pong { timestamp })),
            SwiftFrame::Close { error_code, reason } => {
                self.state = ConnectionState::Closed;
                Ok(None)
            },
            _ => Ok(None),
        }
    }
}

} // verus!
