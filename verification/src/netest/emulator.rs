//! The emulator's decisions for each packet: whether it is dropped,
//! corrupted, duplicated or reordered, when it is delivered, and which
//! pending packets are due. The random draws are made here; moving packets
//! between channels is left to the caller.

use vstd::prelude::*;
use std::collections::VecDeque;
use crate::common::entropy::random_in_range;
use crate::common::time::{Duration, Instant, fits_duration, DURATION_MAX_NANOS};
use crate::netest::models::{NetworkCondition, Packet, PPM};

verus! {

/// The random draws that decide a packet's fate: four draws below a
/// million compared with the rates, the jitter in milliseconds, and the
/// extra delay of a reordered packet in milliseconds.
#[derive(Debug, Clone, Copy)]
pub struct FateDraws {
    pub loss: u32,
    pub corruption: u32,
    pub duplication: u32,
    pub reorder: u32,
    pub jitter_ms: u64,
    pub reorder_delay_ms: u64,
}

/// What happens to a packet.
#[derive(Debug, Clone, Copy)]
pub struct PacketPlan {
    pub drop: bool,
    pub corrupt: bool,
    pub duplicate: bool,
    pub reorder: bool,
    pub latency: Duration,
    pub extra_delay: Duration,
}

/// The whole milliseconds of a span, cut to 64 bits.
pub open spec fn spec_millis64(d: Duration) -> u64 {
    ((d@ / 1_000_000) % 0x1_0000_0000_0000_0000) as u64
}

/// The latency of a packet: the base latency, plus the jitter draw when the
/// conditions have jitter.
pub open spec fn spec_latency(conds: NetworkCondition, jitter_ms: u64) -> int {
    if spec_millis64(conds.latency_jitter) == 0 {
        conds.base_latency@ as int
    } else {
        conds.base_latency@ + jitter_ms * 1_000_000
    }
}

/// Draws a packet's fate for `conds`: rates below a million, jitter up to
/// the conditions' jitter, a reorder delay of 10 to 49 ms.
pub fn draw_fate(conds: &NetworkCondition) -> (d: FateDraws)
    ensures
        d.loss < PPM && d.corruption < PPM && d.duplication < PPM && d.reorder < PPM,
        d.jitter_ms <= spec_millis64(conds.latency_jitter),
        10 <= d.reorder_delay_ms < 50,
{
    let jitter_max = millis64(&conds.latency_jitter);
    FateDraws {
        loss: random_in_range(0, (PPM - 1) as u64) as u32,
        corruption: random_in_range(0, (PPM - 1) as u64) as u32,
        duplication: random_in_range(0, (PPM - 1) as u64) as u32,
        reorder: random_in_range(0, (PPM - 1) as u64) as u32,
        jitter_ms: random_in_range(0, jitter_max),
        reorder_delay_ms: random_in_range(10, 49),
    }
}

/// The whole milliseconds of a span, cut to 64 bits.
fn millis64(d: &Duration) -> (m: u64)
    ensures
        m == spec_millis64(*d),
{
    (d.as_millis() % 0x1_0000_0000_0000_0000) as u64
}

/// The latency of a packet; see `spec_latency`.
pub fn calculate_latency(conds: &NetworkCondition, jitter_ms: u64) -> (d: Duration)
    requires
        fits_duration(spec_latency(*conds, jitter_ms)),
    ensures
        d@ == spec_latency(*conds, jitter_ms),
{
    if millis64(&conds.latency_jitter) == 0 {
        return conds.base_latency;
    }
    conds.base_latency.plus(Duration::from_millis(jitter_ms))
}

/// The plan for a packet under `conds` with the draws `d`: each event
/// happens when its draw is below its rate.
pub open spec fn spec_plan(conds: NetworkCondition, d: FateDraws, p: PacketPlan) -> bool {
    &&& p.drop == (d.loss < conds.loss_rate)
    &&& p.corrupt == (d.corruption < conds.corruption_rate)
    &&& p.duplicate == (d.duplication < conds.duplication_rate)
    &&& p.reorder == (d.reorder < conds.reorder_rate)
    &&& p.latency@ == spec_latency(conds, d.jitter_ms)
    &&& p.extra_delay@ == if p.reorder { d.reorder_delay_ms * 1_000_000 } else { 0 }
}

/// The plan for a packet under `conds` with the draws `d`.
pub fn plan_packet(conds: &NetworkCondition, d: &FateDraws) -> (p: PacketPlan)
    requires
        fits_duration(spec_latency(*conds, d.jitter_ms)),
        d.reorder_delay_ms < 50,
    ensures
        spec_plan(*conds, *d, p),
{
    let reorder = d.reorder < conds.reorder_rate;
    PacketPlan {
        drop: d.loss < conds.loss_rate,
        corrupt: d.corruption < conds.corruption_rate,
        duplicate: d.duplication < conds.duplication_rate,
        reorder,
        latency: calculate_latency(conds, d.jitter_ms),
        extra_delay: if reorder { Duration::from_millis(d.reorder_delay_ms) } else { Duration::from_millis(0) },
    }
}

/// Draws the edits that corrupt a packet of `len` bytes: between one and
/// ten (at most `len`) positions, each with a random byte.
pub fn draw_corruption(len: usize) -> (edits: Vec<(usize, u8)>)
    requires
        len >= 1,
    ensures
        1 <= edits@.len() <= if len < 10 { len as int } else { 10 },
        forall|i: int| 0 <= i < edits@.len() ==> #[trigger] edits@[i].0 < len,
{
    let most: u64 = if len < 10 { len as u64 } else { 10 };
    let count = random_in_range(1, most) as usize;
    let mut edits: Vec<(usize, u8)> = Vec::new();
    let mut i: usize = 0;
    while i < count
        invariant
            i <= count,
            len >= 1,
            edits@.len() == i,
            forall|k: int| 0 <= k < edits@.len() ==> #[trigger] edits@[k].0 < len,
        decreases count - i,
    {
        let idx = random_in_range(0, (len - 1) as u64) as usize;
        let value = random_in_range(0, 255) as u8;
        edits.push((idx, value));
        i = i + 1;
    }
    edits
}

/// The bytes after applying `edits` in order.
pub open spec fn spec_apply_edits(data: Seq<u8>, edits: Seq<(usize, u8)>) -> Seq<u8>
    decreases edits.len(),
{
    if edits.len() == 0 {
        data
    } else {
        spec_apply_edits(data, edits.drop_last()).update(edits.last().0 as int, edits.last().1)
    }
}

/// Applies `edits` to `data` in order.
pub fn corrupt_bytes(data: &mut Vec<u8>, edits: &[(usize, u8)])
    requires
        forall|i: int| 0 <= i < edits@.len() ==> #[trigger] edits@[i].0 < old(data)@.len(),
    ensures
        final(data)@ == spec_apply_edits(old(data)@, edits@),
{
    let mut i: usize = 0;
    while i < edits.len()
        invariant
            i <= edits@.len(),
            forall|k: int| 0 <= k < edits@.len() ==> #[trigger] edits@[k].0 < old(data)@.len(),
            data@.len() == old(data)@.len(),
            data@ == spec_apply_edits(old(data)@, edits@.take(i as int)),
        decreases edits@.len() - i,
    {
        let (idx, value) = edits[i];
        data.set(idx, value);
        proof {
            assert(edits@.take(i as int + 1).drop_last() =~= edits@.take(i as int));
            assert(edits@.take(i as int + 1).last() == edits@[i as int]);
        }
        i = i + 1;
    }
    proof {
        assert(edits@.take(edits@.len() as int) =~= edits@);
    }
}

/// What the emulator did with an accepted packet, for its metrics.
#[derive(Debug, Clone, Copy)]
pub struct Admission {
    pub dropped: bool,
    pub corrupted: bool,
    pub duplicated: bool,
    pub reordered: bool,
}

/// `at` plus `d` in nanoseconds, or the latest representable instant where
/// that does not fit.
pub open spec fn saturating_at(at: nat, d: nat) -> nat {
    if fits_duration((at + d) as int) { at + d } else { DURATION_MAX_NANOS as nat }
}

/// A copy of `p`: the same bytes, endpoints, send time and identifier.
pub open spec fn same_packet(a: Packet, p: Packet) -> bool {
    &&& a.data@ == p.data@
    &&& a.src == p.src
    &&& a.dst == p.dst
    &&& a.sent_at == p.sent_at
    &&& a.id == p.id
}

/// Packets waiting for their delivery time, in the order they were queued.
pub struct PendingQueue {
    pending: VecDeque<(Instant, Packet)>,
}

impl PendingQueue {
    /// The waiting packets with their delivery times.
    pub closed spec fn spec_pending(&self) -> Seq<(Instant, Packet)> {
        self.pending@
    }

    /// An empty queue.
    pub fn new() -> (q: PendingQueue)
        ensures
            q.spec_pending().len() == 0,
    {
        PendingQueue { pending: VecDeque::new() }
    }

    /// Admits `packet` at `now` according to `plan`: a dropped packet is not
    /// queued; a duplicate is queued for a millisecond later; the packet
    /// itself for its latency later, plus the extra delay when reordered.
    pub fn accept_packet(&mut self, packet: Packet, plan: &PacketPlan, now: Instant) -> (a: Admission)
        ensures
            a.dropped == plan.drop,
            a.corrupted == (!plan.drop && plan.corrupt),
            a.duplicated == (!plan.drop && plan.duplicate),
            a.reordered == (!plan.drop && plan.reorder),
            plan.drop ==> final(self).spec_pending() == old(self).spec_pending(),
            !plan.drop ==> final(self).spec_pending().len() == old(self).spec_pending().len() + if plan.duplicate { 2int } else { 1int },
            !plan.drop ==> final(self).spec_pending().take(old(self).spec_pending().len() as int)
                == old(self).spec_pending(),
            !plan.drop && plan.duplicate ==> ({
                let d = final(self).spec_pending()[old(self).spec_pending().len() as int];
                &&& d.0.since_origin@ == saturating_at(now.since_origin@, 1_000_000)
                &&& same_packet(d.1, packet)
            }),
            !plan.drop ==> final(self).spec_pending().last().1 == packet,
            !plan.drop ==> final(self).spec_pending().last().0.since_origin@ == if plan.reorder {
                saturating_at(saturating_at(now.since_origin@, plan.latency@), plan.extra_delay@)
            } else {
                saturating_at(now.since_origin@, plan.latency@)
            },
    {
        if plan.drop {
            return Admission { dropped: true, corrupted: false, duplicated: false, reordered: false };
        }
        if plan.duplicate {
            let copy = Packet { data: copy_data(&packet.data), src: packet.src, dst: packet.dst, sent_at: packet.sent_at, id: packet.id };
            self.pending.push_back((now.saturating_add(Duration::from_millis(1)), copy));
        }
        let deliver_at = now.saturating_add(plan.latency);
        if plan.reorder {
            self.pending.push_back((deliver_at.saturating_add(plan.extra_delay), packet));
        } else {
            self.pending.push_back((deliver_at, packet));
        }
        Admission { dropped: false, corrupted: plan.corrupt, duplicated: plan.duplicate, reordered: plan.reorder }
    }

    /// Takes the packets at the front of the queue that are due at `now`,
    /// stopping at the first that is not.
    pub fn take_due(&mut self, now: Instant) -> (due: Vec<Packet>)
        ensures
            due@.len() <= old(self).spec_pending().len(),
            final(self).spec_pending() == old(self).spec_pending().skip(due@.len() as int),
            forall|i: int| 0 <= i < due@.len() ==> #[trigger] due@[i] == old(self).spec_pending()[i].1
                && old(self).spec_pending()[i].0.since_origin@ <= now.since_origin@,
            final(self).spec_pending().len() > 0 ==> final(self).spec_pending()[0].0.since_origin@ > now.since_origin@,
    {
        let mut due: Vec<Packet> = Vec::new();
        let ghost start = self.pending@;
        while self.pending.len() > 0 && self.pending[0].0.since_origin.le(&now.since_origin)
            invariant
                due@.len() <= start.len(),
                self.pending@ == start.skip(due@.len() as int),
                forall|i: int| 0 <= i < due@.len() ==> #[trigger] due@[i] == start[i].1
                    && start[i].0.since_origin@ <= now.since_origin@,
            decreases self.pending@.len(),
        {
            let ghost k = due@.len();
            match self.pending.pop_front() {
                Some((_, p)) => {
                    due.push(p);
                    proof {
                        assert(self.pending@ =~= start.skip(due@.len() as int));
                    }
                },
                None => {},
            }
        }
        due
    }
}

/// A copy of packet data.
fn copy_data(data: &Vec<u8>) -> (c: Vec<u8>)
    ensures
        c@ == data@,
{
    let mut c: Vec<u8> = Vec::new();
    crate::common::wire::extend_bytes(&mut c, data.as_slice());
    c
}

} // verus!
