//! Reliable delivery over UDP: numbered packets, acknowledgements, the
//! round-trip estimate and retransmission. Sockets stay with the caller,
//! which hands each datagram in and sends what comes back.

use vstd::prelude::*;
use crate::common::net::SocketAddr;
use crate::common::time::{Duration, Instant, DURATION_MAX_NANOS};
use crate::common::wire::{be32, u32_be, copy_range, extend_bytes, push_u32_be, read_u32_be};

verus! {

/// The largest datagram the transport sends.
pub const MAX_PACKET_SIZE: usize = 65536;

/// The packets allowed in flight (recorded, not enforced).
pub const WINDOW_SIZE: usize = 32;

/// Why a transport operation failed.
#[derive(Debug)]
pub enum TransportError {
    Io(std::io::Error),
    PacketTooLarge,
}

/// The prefix of an acknowledgement: "ACK:".
pub open spec fn ack_tag() -> Seq<u8> {
    seq![0x41u8, 0x43u8, 0x4Bu8, 0x3Au8]
}

/// The acknowledgement of packet `seq`: "ACK:" and the number big-endian.
pub open spec fn spec_ack(seq: u32) -> Seq<u8> {
    ack_tag() + be32(seq)
}

/// A numbered packet: the number big-endian, then the data.
pub open spec fn spec_numbered(seq: u32, data: Seq<u8>) -> Seq<u8> {
    be32(seq) + data
}

/// What a received datagram is.
pub enum Datagram {
    /// An acknowledgement of this packet number.
    Ack(u32),
    /// A numbered packet and its data.
    Data(u32, Seq<u8>),
    /// Too short to mean anything.
    Ignored,
}

/// How a datagram reads: eight or more bytes starting "ACK:" acknowledge
/// the number that follows; otherwise four or more bytes are a numbered
/// packet; shorter ones are ignored.
pub open spec fn spec_classify(d: Seq<u8>) -> Datagram {
    if d.len() >= 8 && d.subrange(0, 4) == ack_tag() {
        Datagram::Ack(u32_be(d[4], d[5], d[6], d[7]))
    } else if d.len() >= 4 {
        Datagram::Data(u32_be(d[0], d[1], d[2], d[3]), d.subrange(4, d.len() as int))
    } else {
        Datagram::Ignored
    }
}

/// A packet sent and not yet acknowledged.
#[derive(Debug, Clone)]
pub struct InFlight {
    pub seq: u32,
    pub sent_at: Instant,
    pub dest: SocketAddr,
    pub packet: Vec<u8>,
}

/// What to do with a received datagram.
#[derive(Debug)]
pub enum Reaction {
    /// Nothing to send; an acknowledgement may have been taken into account.
    Nothing,
    /// Send `ack` back to the sender and deliver `payload` when there is one.
    Acknowledge { ack: Vec<u8>, payload: Option<Vec<u8>> },
}

/// The round-trip estimate after a sample, in milliseconds: the variation
/// moves a quarter of the way to the new deviation, the estimate an eighth
/// of the way to the sample.
pub open spec fn spec_rtt_update(est: nat, var: nat, sample: nat) -> (nat, nat) {
    let dev = if est >= sample { est - sample } else { sample - est };
    ((est * 7 / 8 + sample / 8) as nat, (var * 3 / 4 + dev / 4) as nat)
}

/// The sender and receiver state of a reliable transport.
pub struct ReliableState {
    window_size: usize,
    send_seq: u32,
    recv_seq: u32,
    in_flight: Vec<InFlight>,
    rtt_estimate: Duration,
    rtt_variance: Duration,
}

/// Whether `d` is a numbered packet carrying the largest number.
pub open spec fn carries_last_number(d: Seq<u8>) -> bool {
    spec_classify(d) matches Datagram::Data(seq, _) && seq == u32::MAX
}

/// The in-flight packets without packet `seq`.
pub open spec fn without_seq(f: Seq<InFlight>, seq: u32) -> Seq<InFlight> {
    f.filter(|x: InFlight| x.seq != seq)
}

/// The first in-flight packet numbered `seq`.
pub open spec fn first_with_seq(f: Seq<InFlight>, seq: u32) -> Option<InFlight>
    decreases f.len(),
{
    if f.len() == 0 {
        None
    } else if f[0].seq == seq {
        Some(f[0])
    } else {
        first_with_seq(f.skip(1), seq)
    }
}

/// Whole milliseconds of a span.
pub open spec fn millis(d: Duration) -> nat {
    d@ / 1_000_000
}

/// The retransmission timeout in nanoseconds: twice the estimate and four
/// times the variation.
pub open spec fn spec_timeout(est: Duration, var: Duration) -> int {
    (est@ * 2 + var@ * 4) as int
}

/// The nanoseconds from `earlier` to `now`, zero where `earlier` is later.
pub open spec fn elapsed_nanos(now: Instant, earlier: Instant) -> nat {
    if now.since_origin@ >= earlier.since_origin@ { (now.since_origin@ - earlier.since_origin@) as nat } else { 0 }
}

/// Whether an in-flight packet is overdue at `now`.
pub open spec fn overdue(p: InFlight, now: Instant, timeout: int) -> bool {
    elapsed_nanos(now, p.sent_at) > timeout
}

/// The acknowledgement of packet `seq`.
pub fn ack_bytes(seq: u32) -> (ack: Vec<u8>)
    ensures
        ack@ == spec_ack(seq),
{
    let mut ack: Vec<u8> = Vec::new();
    ack.push(0x41);
    ack.push(0x43);
    ack.push(0x4B);
    ack.push(0x3A);
    push_u32_be(&mut ack, seq);
    assert(ack@ =~= spec_ack(seq));
    ack
}

/// Reads a received datagram; see `spec_classify`.
pub fn classify(d: &[u8]) -> (r: (u8, u32, Vec<u8>))
    ensures
        match spec_classify(d@) {
            Datagram::Ack(seq) => r.0 == 0 && r.1 == seq,
            Datagram::Data(seq, payload) => r.0 == 1 && r.1 == seq && r.2@ == payload,
            Datagram::Ignored => r.0 == 2,
        },
{
    if d.len() >= 8 && d[0] == 0x41 && d[1] == 0x43 && d[2] == 0x4B && d[3] == 0x3A {
        assert(d@.subrange(0, 4) =~= ack_tag());
        return (0, read_u32_be(d, 4), Vec::new());
    }
    proof {
        if d@.len() >= 8 {
            if d@.subrange(0, 4) == ack_tag() {
                assert(d@[0] == d@.subrange(0, 4)[0]);
                assert(d@[1] == d@.subrange(0, 4)[1]);
                assert(d@[2] == d@.subrange(0, 4)[2]);
                assert(d@[3] == d@.subrange(0, 4)[3]);
            }
        }
    }
    if d.len() >= 4 {
        let seq = read_u32_be(d, 0);
        return (1, seq, copy_range(d, 4, d.len()));
    }
    (2, 0, Vec::new())
}

impl ReliableState {
    /// The next number to send.
    pub closed spec fn spec_send_seq(&self) -> u32 {
        self.send_seq
    }

    /// One past the last number received.
    pub closed spec fn spec_recv_seq(&self) -> u32 {
        self.recv_seq
    }

    /// The packets not yet acknowledged, oldest first.
    pub closed spec fn spec_in_flight(&self) -> Seq<InFlight> {
        self.in_flight@
    }

    /// The round-trip estimate.
    pub closed spec fn spec_rtt(&self) -> (Duration, Duration) {
        (self.rtt_estimate, self.rtt_variance)
    }

    /// Nothing sent or received, a window of 32, a 100 ms round trip that
    /// varies by 50 ms.
    pub fn new() -> (s: ReliableState)
        ensures
            s.spec_send_seq() == 0,
            s.spec_recv_seq() == 0,
            s.spec_in_flight().len() == 0,
            s.spec_rtt().0@ == 100_000_000,
            s.spec_rtt().1@ == 50_000_000,
    {
        ReliableState {
            window_size: WINDOW_SIZE,
            send_seq: 0,
            recv_seq: 0,
            in_flight: Vec::new(),
            rtt_estimate: Duration::from_millis(100),
            rtt_variance: Duration::from_millis(50),
        }
    }

    /// Numbers `data` for `dest` at `now`: the number is used up either way;
    /// a packet over the size limit is refused, otherwise it is recorded in
    /// flight and handed back to send.
    pub fn prepare_send(&mut self, data: &[u8], dest: SocketAddr, now: Instant) -> (r: Result<Vec<u8>, TransportError>)
        requires
            old(self).spec_send_seq() < u32::MAX,
        ensures
            final(self).spec_send_seq() == old(self).spec_send_seq() + 1,
            final(self).spec_recv_seq() == old(self).spec_recv_seq(),
            final(self).spec_rtt() == old(self).spec_rtt(),
            data@.len() + 4 > MAX_PACKET_SIZE ==> (r matches Err(TransportError::PacketTooLarge))
                && final(self).spec_in_flight() == old(self).spec_in_flight(),
            data@.len() + 4 <= MAX_PACKET_SIZE ==> (r matches Ok(p) && p@ == spec_numbered(old(self).spec_send_seq(), data@))
                && final(self).spec_in_flight().len() == old(self).spec_in_flight().len() + 1
                && final(self).spec_in_flight().drop_last() == old(self).spec_in_flight()
                && final(self).spec_in_flight().last().seq == old(self).spec_send_seq()
                && final(self).spec_in_flight().last().sent_at == now
                && final(self).spec_in_flight().last().dest == dest
                && final(self).spec_in_flight().last().packet@ == spec_numbered(old(self).spec_send_seq(), data@),
    {
        let seq = self.send_seq;
        self.send_seq = seq + 1;
        let mut packet: Vec<u8> = Vec::new();
        push_u32_be(&mut packet, seq);
        extend_bytes(&mut packet, data);
        assert(packet@ =~= spec_numbered(seq, data@));
        if packet.len() > MAX_PACKET_SIZE {
            return Err(TransportError::PacketTooLarge);
        }
        let mut copy: Vec<u8> = Vec::new();
        extend_bytes(&mut copy, packet.as_slice());
        self.in_flight.push(InFlight { seq, sent_at: now, dest, packet: copy });
        Ok(packet)
    }

    /// Takes a received datagram at `now`: an acknowledgement settles its
    /// packet and updates the round-trip estimate; a numbered packet moves the
    /// receive number past it and is acknowledged, its data delivered when
    /// there is any.
    pub fn on_datagram(&mut self, d: &[u8], now: Instant) -> (r: Reaction)
        requires
            !carries_last_number(d@),
        ensures
            match spec_classify(d@) {
                Datagram::Ack(seq) => r matches Reaction::Nothing
                    && final(self).spec_in_flight() == without_seq(old(self).spec_in_flight(), seq)
                    && final(self).spec_recv_seq() == old(self).spec_recv_seq()
                    && (first_with_seq(old(self).spec_in_flight(), seq) is None ==> final(self).spec_rtt() == old(self).spec_rtt()),
                Datagram::Data(seq, payload) => r matches Reaction::Acknowledge { ack, payload: p }
                    && ack@ == spec_ack(seq)
                    && (if payload.len() > 0 { p matches Some(q) && q@ == payload } else { p is None })
                    && final(self).spec_recv_seq() == seq + 1
                    && final(self).spec_in_flight() == old(self).spec_in_flight()
                    && final(self).spec_rtt() == old(self).spec_rtt(),
                Datagram::Ignored => r matches Reaction::Nothing
                    && final(self).spec_in_flight() == old(self).spec_in_flight()
                    && final(self).spec_recv_seq() == old(self).spec_recv_seq()
                    && final(self).spec_rtt() == old(self).spec_rtt(),
            },
            final(self).spec_send_seq() == old(self).spec_send_seq(),
    {
        let (kind, seq, payload) = classify(d);
        if kind == 0 {
            self.handle_ack(seq, now);
            Reaction::Nothing
        } else if kind == 1 {
            self.recv_seq = seq + 1;
            let ack = ack_bytes(seq);
            if payload.len() > 0 {
                Reaction::Acknowledge { ack, payload: Some(payload) }
            } else {
                Reaction::Acknowledge { ack, payload: None }
            }
        } else {
            Reaction::Nothing
        }
    }

    /// Settles packet `seq`: it leaves the in-flight list, and the time since
    /// it was sent updates the round-trip estimate.
    pub fn handle_ack(&mut self, seq: u32, now: Instant)
        ensures
            final(self).spec_in_flight() == without_seq(old(self).spec_in_flight(), seq),
            final(self).spec_send_seq() == old(self).spec_send_seq(),
            final(self).spec_recv_seq() == old(self).spec_recv_seq(),
            match first_with_seq(old(self).spec_in_flight(), seq) {
                None => final(self).spec_rtt() == old(self).spec_rtt(),
                Some(p) => {
                    let sample = elapsed_nanos(now, p.sent_at) / 1_000_000;
                    let (e, v) = spec_rtt_update(millis(old(self).spec_rtt().0), millis(old(self).spec_rtt().1), sample);
                    final(self).spec_rtt().0@ == e * 1_000_000 && final(self).spec_rtt().1@ == v * 1_000_000
                },
            },
    {
        let mut found: Option<Instant> = None;
        let mut kept: Vec<InFlight> = Vec::new();
        let mut rest: Vec<InFlight> = Vec::new();
        std::mem::swap(&mut rest, &mut self.in_flight);
        let ghost before = rest@;
        let ghost n = before.len();
        let ghost keep = |x: InFlight| x.seq != seq;
        while rest.len() > 0
            invariant
                rest@.len() <= n,
                n == before.len(),
                rest@ == before.skip(n - rest@.len()),
                keep == (|x: InFlight| x.seq != seq),
                kept@ == before.take(n - rest@.len()).filter(keep),
                match found {
                    Some(t) => first_with_seq(before, seq) matches Some(p) && p.sent_at == t,
                    None => first_with_seq(before, seq) == first_with_seq(rest@, seq),
                },
            decreases rest@.len(),
        {
            let ghost done = n - rest@.len();
            let ghost r0 = rest@;
            let x = rest.remove(0);
            proof {
                assert(x == before[done]);
                assert(rest@ =~= before.skip(n - rest@.len()));
                assert(before.take(done + 1).drop_last() =~= before.take(done));
                assert(before.take(done + 1).last() == before[done]);
                assert(r0.skip(1) =~= rest@);
                reveal(Seq::filter);
            }
            if x.seq != seq {
                kept.push(x);
            } else if found.is_none() {
                found = Some(x.sent_at);
            }
        }
        proof {
            assert(before.take(n as int) =~= before);
        }
        self.in_flight = kept;
        if let Some(sent_at) = found {
            let sample = now.saturating_duration_since(sent_at).as_millis();
            let est = self.rtt_estimate.as_millis();
            let var = self.rtt_variance.as_millis();
            let dev = if est >= sample { est - sample } else { sample - est };
            let new_var = var / 4 * 3 + (var % 4) * 3 / 4 + dev / 4;
            let new_est = est / 8 * 7 + (est % 8) * 7 / 8 + sample / 8;
            proof {
                lemma_quarters(var, dev);
                lemma_eighths(est, sample);
                assert(new_var * 1_000_000 <= DURATION_MAX_NANOS) by (nonlinear_arith)
                    requires new_var <= DURATION_MAX_NANOS / 1_000_000;
                assert(new_est * 1_000_000 <= DURATION_MAX_NANOS) by (nonlinear_arith)
                    requires new_est <= DURATION_MAX_NANOS / 1_000_000;
            }
            self.rtt_variance = Duration::from_nanos_u128(new_var * 1_000_000);
            self.rtt_estimate = Duration::from_nanos_u128(new_est * 1_000_000);
        }
    }

    /// The packets overdue at `now` and where to send them again, oldest
    /// first: those sent longer ago than twice the estimate and four times
    /// the variation.
    pub fn retransmit_due(&self, now: Instant) -> (due: Vec<(SocketAddr, Vec<u8>)>)
        ensures
            due@.len() == self.spec_in_flight().filter(
                |p: InFlight| overdue(p, now, spec_timeout(self.spec_rtt().0, self.spec_rtt().1)),
            ).len(),
            forall|i: int| 0 <= i < due@.len() ==> {
                let p = self.spec_in_flight().filter(
                    |p: InFlight| overdue(p, now, spec_timeout(self.spec_rtt().0, self.spec_rtt().1)),
                )[i];
                #[trigger] due@[i].0 == p.dest && due@[i].1@ == p.packet@
            },
    {
        let ghost t = spec_timeout(self.rtt_estimate, self.rtt_variance);
        let ghost keep = |p: InFlight| overdue(p, now, t);
        let timeout_nanos: u128 = self.rtt_estimate.as_nanos() * 2 + self.rtt_variance.as_nanos() * 4;
        let mut due: Vec<(SocketAddr, Vec<u8>)> = Vec::new();
        let mut i: usize = 0;
        while i < self.in_flight.len()
            invariant
                i <= self.in_flight@.len(),
                timeout_nanos == t,
                keep == (|p: InFlight| overdue(p, now, t)),
                due@.len() == self.in_flight@.take(i as int).filter(keep).len(),
                forall|k: int| 0 <= k < due@.len() ==> {
                    let p = self.in_flight@.take(i as int).filter(keep)[k];
                    #[trigger] due@[k].0 == p.dest && due@[k].1@ == p.packet@
                },
            decreases self.in_flight@.len() - i,
        {
            let p = &self.in_flight[i];
            proof {
                assert(self.in_flight@.take(i as int + 1).drop_last() =~= self.in_flight@.take(i as int));
                assert(self.in_flight@.take(i as int + 1).last() == self.in_flight@[i as int]);
                reveal(Seq::filter);
            }
            let elapsed = now.saturating_duration_since(p.sent_at).as_nanos();
            if elapsed > timeout_nanos {
                let mut copy: Vec<u8> = Vec::new();
                extend_bytes(&mut copy, p.packet.as_slice());
                due.push((p.dest, copy));
            }
            i = i + 1;
        }
        proof {
            assert(self.in_flight@.take(self.in_flight@.len() as int) =~= self.in_flight@);
        }
        due
    }
}

/// Three quarters of one value and a quarter of another, rounded down in
/// parts, are the rounded-down weighted sum, and no more than the larger.
proof fn lemma_quarters(var: u128, dev: u128)
    ensures
        var / 4 * 3 + (var % 4) * 3 / 4 + dev / 4 == var * 3 / 4 + dev / 4,
        var * 3 / 4 + dev / 4 <= if var >= dev { var as int } else { dev as int },
{
    assert(var / 4 * 3 + (var % 4) * 3 / 4 == var * 3 / 4) by (nonlinear_arith);
    assert(var * 3 / 4 + dev / 4 <= if var >= dev { var as int } else { dev as int }) by (nonlinear_arith);
}

/// The same for seven eighths and an eighth.
proof fn lemma_eighths(est: u128, sample: u128)
    ensures
        est / 8 * 7 + (est % 8) * 7 / 8 + sample / 8 == est * 7 / 8 + sample / 8,
        est * 7 / 8 + sample / 8 <= if est >= sample { est as int } else { sample as int },
{
    assert(est / 8 * 7 + (est % 8) * 7 / 8 == est * 7 / 8) by (nonlinear_arith);
    assert(est * 7 / 8 + sample / 8 <= if est >= sample { est as int } else { sample as int }) by (nonlinear_arith);
}

/// An acknowledged packet is settled: no packet with its number is left in
/// flight, so it is never sent again.
pub proof fn lemma_ack_settles(f: Seq<InFlight>, seq: u32, i: int)
    requires
        0 <= i < without_seq(f, seq).len(),
    ensures
        without_seq(f, seq)[i].seq != seq,
{
    let g = without_seq(f, seq);
    assert(g.contains(g[i]));
}

/// The round-trip estimate and its variation never exceed the larger of
/// their old value and what the sample contributes.
pub proof fn lemma_rtt_bounded(est: nat, var: nat, sample: nat)
    ensures
        spec_rtt_update(est, var, sample).0 <= if est >= sample { est } else { sample },
        spec_rtt_update(est, var, sample).1 <= if var >= (if est >= sample { est - sample } else { sample - est }) {
            var
        } else {
            (if est >= sample { est - sample } else { sample - est }) as nat
        },
{
    let dev: nat = (if est >= sample { est - sample } else { sample - est }) as nat;
    assert(est * 7 / 8 + sample / 8 <= if est >= sample { est } else { sample }) by (nonlinear_arith);
    assert(var * 3 / 4 + dev / 4 <= if var >= dev { var } else { dev }) by (nonlinear_arith);
}
} // verus!
