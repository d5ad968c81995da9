//! The Kademlia DHT of the peer-to-peer protocol: 160 buckets of peers
//! indexed by the first bit in which a peer's identifier differs from ours,
//! and values with an expiry time in seconds.

use vstd::prelude::*;
use crate::common::net::SocketAddr;
use crate::common::time::Timestamp;
use crate::fastdht::dht::{ids_equal, lex_le, lex_le_exec, spec_xor};
use crate::p2p::node::NodeId;

verus! {

/// Peers per bucket in the Kademlia paper.
pub const DEFAULT_K: usize = 20;

/// The largest value stored.
pub const MAX_VALUE_SIZE: usize = 65536;

/// The number of buckets.
pub const BUCKET_COUNT: usize = 160;

/// The 20-byte SHA-1 digest of `data`.
pub uninterp spec fn sha1_of(data: Seq<u8>) -> Seq<u8>;

/// Calls `sha1::Sha1::digest`; trusted to return the 20 bytes of the digest,
/// which depend on `data` alone.
#[verifier::external_body]
fn sha1_digest(data: &[u8]) -> (out: Vec<u8>)
    ensures
        out@ == sha1_of(data@),
        out@.len() == 20,
{
    <sha1::Sha1 as sha1::Digest>::digest(data).to_vec()
}

/// A 20-byte DHT key.
#[derive(Debug, Clone, Copy, PartialEq, Eq, Hash, PartialOrd, Ord)]
pub struct DhtKey(pub [u8; 20]);

/// The number of leading zero bits of a byte.
pub open spec fn leading_zeros8(b: u8) -> nat {
    if b >= 128 { 0 } else if b >= 64 { 1 } else if b >= 32 { 2 } else if b >= 16 { 3 }
    else if b >= 8 { 4 } else if b >= 4 { 5 } else if b >= 2 { 6 } else if b >= 1 { 7 } else { 8 }
}

/// The number of leading zero bits of a byte.
fn leading_zeros(b: u8) -> (n: usize)
    ensures
        n == leading_zeros8(b),
{
    if b >= 128 { 0 } else if b >= 64 { 1 } else if b >= 32 { 2 } else if b >= 16 { 3 }
    else if b >= 8 { 4 } else if b >= 4 { 5 } else if b >= 2 { 6 } else if b >= 1 { 7 } else { 8 }
}

/// The position of the first set bit of `x` counted from the most
/// significant bit of its byte `from` on; 159 when none is set.
pub open spec fn first_set_bit(x: Seq<u8>, from: int) -> nat
    decreases x.len() - from,
{
    if from >= x.len() {
        159
    } else if x[from] != 0 {
        (from * 8 + leading_zeros8(x[from])) as nat
    } else {
        first_set_bit(x, from + 1)
    }
}

impl DhtKey {
    /// The key of `data`: its SHA-1 digest.
    pub fn from_data(data: &[u8]) -> (k: DhtKey)
        ensures
            k.0@ == sha1_of(data@),
    {
        let digest = sha1_digest(data);
        let mut key = [0u8; 20];
        let mut i: usize = 0;
        while i < 20
            invariant
                i <= 20,
                digest@.len() == 20,
                forall|j: int| 0 <= j < i ==> key@[j] == digest@[j],
            decreases 20 - i,
        {
            key.set(i, digest[i]);
            i = i + 1;
        }
        assert(key@ =~= digest@);
        DhtKey(key)
    }

    /// The XOR distance to `other`.
    pub fn distance(&self, other: &DhtKey) -> (d: [u8; 20])
        ensures
            d@ == spec_xor(self.0@, other.0@),
    {
        let mut result = [0u8; 20];
        let mut i: usize = 0;
        while i < 20
            invariant
                i <= 20,
                result@.len() == 20,
                forall|j: int| 0 <= j < i ==> result@[j] == self.0@[j] ^ other.0@[j],
            decreases 20 - i,
        {
            result.set(i, self.0[i] ^ other.0[i]);
            i = i + 1;
        }
        assert(result@ =~= spec_xor(self.0@, other.0@));
        result
    }

    /// The bucket `other` falls in: the position of the first bit in which
    /// the keys differ, 159 for equal keys.
    pub fn bucket_distance(&self, other: &DhtKey) -> (b: usize)
        ensures
            b == first_set_bit(spec_xor(self.0@, other.0@), 0),
    {
        let xor = self.distance(other);
        let mut i: usize = 0;
        while i < 20
            invariant
                i <= 20,
                xor@.len() == 20,
                xor@ == spec_xor(self.0@, other.0@),
                first_set_bit(xor@, 0) == first_set_bit(xor@, i as int),
            decreases 20 - i,
        {
            let byte = xor[i];
            if byte != 0 {
                assert(first_set_bit(xor@, i as int) == i * 8 + leading_zeros8(byte));
                return i * 8 + leading_zeros(byte);
            }
            i = i + 1;
        }
        159
    }
}

/// A stored value.
#[derive(Debug, Clone)]
pub struct DhtValue {
    pub data: Vec<u8>,
    pub expiration_time: u64,
    pub publisher: NodeId,
    pub last_published: u64,
}

/// A peer in a bucket; `last_seen` is in seconds since the UNIX epoch.
#[derive(Debug, Clone, Copy)]
pub struct PeerInfo {
    pub node_id: NodeId,
    pub address: SocketAddr,
    pub last_seen: u64,
}

/// Identifiers in strictly increasing lexicographic order: `a` before `b`.
pub open spec fn id_before(a: NodeId, b: NodeId) -> bool {
    lex_le(a.0@, b.0@) && a.0@ != b.0@
}

/// The first position in `peers` whose identifier is not before `id`.
pub open spec fn insert_position(peers: Seq<PeerInfo>, id: NodeId) -> int
    decreases peers.len(),
{
    if peers.len() == 0 {
        0
    } else if id_before(peers[0].node_id, id) {
        1 + insert_position(peers.drop_first(), id)
    } else {
        0
    }
}

/// The position of the peer with identifier `id`, if any.
pub open spec fn position_of(peers: Seq<PeerInfo>, id: NodeId) -> Option<int>
    decreases peers.len(),
{
    if peers.len() == 0 {
        None
    } else if peers[0].node_id.0@ == id.0@ {
        Some(0)
    } else {
        match position_of(peers.drop_first(), id) {
            Some(i) => Some(i + 1),
            None => None,
        }
    }
}

/// The bucket after adding `peer` at time `now`: a known peer gets the new
/// address and time; a new one is inserted in identifier order when there
/// is room for it.
pub open spec fn spec_bucket_add(peers: Seq<PeerInfo>, k: nat, peer: PeerInfo, now: u64) -> Seq<PeerInfo> {
    match position_of(peers, peer.node_id) {
        Some(i) => peers.update(i, PeerInfo { last_seen: now, address: peer.address, ..peers[i] }),
        None => if peers.len() < k {
            peers.insert(insert_position(peers, peer.node_id), PeerInfo { last_seen: now, ..peer })
        } else {
            peers
        },
    }
}

/// A Kademlia bucket: at most `k` peers, in identifier order.
struct KBucket {
    peers: Vec<PeerInfo>,
    k: usize,
}

impl KBucket {
    fn new(k: usize) -> (b: KBucket)
        ensures
            b.peers@.len() == 0,
            b.k == k,
    {
        KBucket { peers: Vec::new(), k }
    }

    /// Where the peer with identifier `id` is, if anywhere.
    fn find(&self, id: &NodeId) -> (r: Option<usize>)
        ensures
            match r {
                Some(i) => position_of(self.peers@, *id) == Some(i as int) && i < self.peers@.len(),
                None => position_of(self.peers@, *id) is None,
            },
    {
        let mut i: usize = 0;
        assert(self.peers@.skip(0) =~= self.peers@);
        while i < self.peers.len()
            invariant
                i <= self.peers@.len(),
                position_of(self.peers@, *id) == match position_of(self.peers@.skip(i as int), *id) {
                    Some(j) => Some(j + i),
                    None => None::<int>,
                },
            decreases self.peers@.len() - i,
        {
            proof {
                assert(self.peers@.skip(i as int).drop_first() =~= self.peers@.skip(i as int + 1));
            }
            if ids_equal(&self.peers[i].node_id.0, &id.0) {
                return Some(i);
            }
            i = i + 1;
        }
        None
    }

    /// The position at which the identifier `id` goes.
    fn position_for(&self, id: &NodeId) -> (p: usize)
        ensures
            p == insert_position(self.peers@, *id),
            p <= self.peers@.len(),
    {
        let mut i: usize = 0;
        proof {
            assert(self.peers@.skip(0) =~= self.peers@);
        }
        while i < self.peers.len() && lex_le_exec(&self.peers[i].node_id.0, &id.0)
            && !ids_equal(&self.peers[i].node_id.0, &id.0)
            invariant
                i <= self.peers@.len(),
                insert_position(self.peers@, *id) == i + insert_position(self.peers@.skip(i as int), *id),
            decreases self.peers@.len() - i,
        {
            proof {
                assert(self.peers@.skip(i as int).drop_first() =~= self.peers@.skip(i as int + 1));
            }
            i = i + 1;
        }
        i
    }

    /// Adds `peer` seen at `now`; see `spec_bucket_add`.
    fn add_at(&mut self, peer: PeerInfo, now: u64)
        ensures
            final(self).peers@ == spec_bucket_add(old(self).peers@, old(self).k as nat, peer, now),
            final(self).k == old(self).k,
    {
        match self.find(&peer.node_id) {
            Some(i) => {
                let existing = self.peers[i];
                self.peers.set(i, PeerInfo { last_seen: now, address: peer.address, ..existing });
            },
            None => {
                if self.peers.len() < self.k {
                    let pos = self.position_for(&peer.node_id);
                    self.peers.insert(pos, PeerInfo { last_seen: now, ..peer });
                }
            },
        }
    }

    /// The first `limit` peers.
    fn get_peers(&self, limit: usize) -> (r: Vec<PeerInfo>)
        ensures
            r@ == if limit < self.peers@.len() { self.peers@.take(limit as int) } else { self.peers@ },
    {
        let mut r: Vec<PeerInfo> = Vec::new();
        let mut i: usize = 0;
        while i < limit && i < self.peers.len()
            invariant
                i <= self.peers@.len(),
                i <= limit,
                r@ == self.peers@.take(i as int),
            decreases self.peers@.len() - i,
        {
            r.push(self.peers[i]);
            proof {
                assert(r@ =~= self.peers@.take(i as int + 1));
            }
            i = i + 1;
        }
        proof {
            if !(limit < self.peers@.len()) {
                assert(self.peers@.take(i as int) =~= self.peers@);
            }
        }
        r
    }
}

/// The bucket a peer with identifier `peer` goes in, for our identifier
/// `own`: the position of the first differing byte times eight plus that
/// byte's highest differing bit counted from the least significant one,
/// at most 159; 159 for equal identifiers.
pub open spec fn spec_peer_bucket(own: Seq<u8>, peer: Seq<u8>) -> nat {
    let x = spec_xor(own, peer);
    peer_bucket_from(x, 0)
}

/// The bucket index from the XOR of the identifiers, looking from byte `from`.
pub open spec fn peer_bucket_from(x: Seq<u8>, from: int) -> nat
    decreases x.len() - from,
{
    if from >= x.len() {
        159
    } else if x[from] != 0 {
        let b = from * 8 + 7 - leading_zeros8(x[from]);
        if b < 159 { b as nat } else { 159 }
    } else {
        peer_bucket_from(x, from + 1)
    }
}

/// The bucket searched first for `key`, for our identifier `own`: as for a
/// peer, over the first 20 bytes.
pub open spec fn spec_start_bucket(own: Seq<u8>, key: Seq<u8>) -> nat {
    peer_bucket_from(spec_xor(own.take(20), key), 0)
}

/// At most `n` peers from the front of `peers`.
pub open spec fn take_upto(peers: Seq<PeerInfo>, n: int) -> Seq<PeerInfo> {
    if n < peers.len() { peers.take(n) } else { peers }
}

/// The peers gathered from bucket `b` upward, after `acc`, until `count`
/// are gathered.
pub open spec fn gather_up(buckets: Seq<Seq<PeerInfo>>, b: int, count: nat, acc: Seq<PeerInfo>) -> Seq<PeerInfo>
    decreases BUCKET_COUNT - b,
{
    if b >= BUCKET_COUNT || acc.len() >= count {
        acc
    } else {
        gather_up(buckets, b + 1, count, acc + take_upto(buckets[b], count - acc.len()))
    }
}

/// The peers gathered from the buckets below `c` downward, after `acc`,
/// until `count` are gathered.
pub open spec fn gather_down(buckets: Seq<Seq<PeerInfo>>, c: int, count: nat, acc: Seq<PeerInfo>) -> Seq<PeerInfo>
    decreases c,
{
    if c <= 0 || acc.len() >= count {
        acc
    } else {
        gather_down(buckets, c - 1, count, acc + take_upto(buckets[c - 1], count - acc.len()))
    }
}

/// Why a DHT operation failed.
#[derive(Debug, Clone)]
pub enum DhtError {
    InvalidKey(String),
    ValueTooLarge(usize),
    Network(String),
}

/// The stored value for `key`, if any.
pub open spec fn spec_value_for(values: Seq<(DhtKey, DhtValue)>, key: Seq<u8>) -> Option<DhtValue>
    decreases values.len(),
{
    if values.len() == 0 {
        None
    } else if values.last().0.0@ == key {
        Some(values.last().1)
    } else {
        spec_value_for(values.drop_last(), key)
    }
}

/// A node's DHT.
pub struct Dht {
    node_id: NodeId,
    k: usize,
    buckets: Vec<KBucket>,
    values: Vec<(DhtKey, DhtValue)>,
}

/// Whether two keys are equal.
fn keys_equal(a: &[u8; 20], b: &[u8; 20]) -> (r: bool)
    ensures
        r == (a@ == b@),
{
    let mut i: usize = 0;
    while i < 20
        invariant
            i <= 20,
            a@.len() == 20 && b@.len() == 20,
            forall|j: int| 0 <= j < i ==> a@[j] == b@[j],
        decreases 20 - i,
    {
        if a[i] != b[i] {
            return false;
        }
        i = i + 1;
    }
    assert(a@ =~= b@);
    true
}

/// The buckets after `peer`, seen at `now` (seconds), is added to the bucket
/// it falls in for a node with identifier `own` and bucket capacity `k`.
pub open spec fn spec_buckets_after_add(buckets: Seq<Seq<PeerInfo>>, own: Seq<u8>, k: nat, peer: PeerInfo, now: u64) -> Seq<Seq<PeerInfo>> {
    let b = spec_peer_bucket(own, peer.node_id.0@) as int;
    buckets.update(b, spec_bucket_add(buckets[b], k, peer, now))
}

/// What a lookup of `key` in `values` gives at time `now` (seconds): the
/// value last stored under `key`, unless it has expired.
pub open spec fn spec_retrieve_at(values: Seq<(DhtKey, DhtValue)>, key: Seq<u8>, now: u64) -> Option<DhtValue> {
    match spec_value_for(values, key) {
        Some(v) => if v.expiration_time < now { None } else { Some(v) },
        None => None,
    }
}

/// Seconds since the UNIX epoch, on the system clock.
fn now_secs() -> u64 {
    Timestamp::now().duration_since_epoch().as_secs()
}

impl Dht {
    /// There are 160 buckets, each with capacity `k`.
    pub closed spec fn wf(&self) -> bool {
        &&& self.buckets@.len() == BUCKET_COUNT
        &&& forall|i: int| 0 <= i < self.buckets@.len() ==> #[trigger] self.buckets@[i].k == self.k
    }

    /// Our identifier.
    pub closed spec fn spec_node_id(&self) -> NodeId {
        self.node_id
    }

    /// The bucket capacity.
    pub closed spec fn spec_k(&self) -> nat {
        self.k as nat
    }

    /// The peers of each bucket.
    pub closed spec fn spec_buckets(&self) -> Seq<Seq<PeerInfo>> {
        Seq::new(self.buckets@.len(), |i: int| self.buckets@[i].peers@)
    }

    /// The stored values, oldest key first.
    pub closed spec fn spec_values(&self) -> Seq<(DhtKey, DhtValue)> {
        self.values@
    }

    /// An empty DHT with buckets of 20.
    pub fn new(node_id: NodeId) -> (d: Dht)
        ensures
            d.wf(),
            d.spec_node_id() == node_id,
            d.spec_k() == DEFAULT_K,
            d.spec_buckets().len() == BUCKET_COUNT,
            forall|i: int| 0 <= i < BUCKET_COUNT ==> #[trigger] d.spec_buckets()[i].len() == 0,
            d.spec_values().len() == 0,
    {
        Self::new_with_k(node_id, DEFAULT_K)
    }

    /// An empty DHT with buckets of `k`.
    pub fn new_with_k(node_id: NodeId, k: usize) -> (d: Dht)
        ensures
            d.wf(),
            d.spec_node_id() == node_id,
            d.spec_k() == k,
            d.spec_buckets().len() == BUCKET_COUNT,
            forall|i: int| 0 <= i < BUCKET_COUNT ==> #[trigger] d.spec_buckets()[i].len() == 0,
            d.spec_values().len() == 0,
    {
        let mut buckets: Vec<KBucket> = Vec::new();
        let mut i: usize = 0;
        while i < BUCKET_COUNT
            invariant
                i <= BUCKET_COUNT,
                buckets@.len() == i,
                forall|j: int| 0 <= j < i ==> #[trigger] buckets@[j].k == k && buckets@[j].peers@.len() == 0,
            decreases BUCKET_COUNT - i,
        {
            buckets.push(KBucket::new(k));
            i = i + 1;
        }
        let d = Dht { node_id, k, buckets, values: Vec::new() };
        assert forall|i: int| 0 <= i < BUCKET_COUNT implies #[trigger] d.spec_buckets()[i].len() == 0 by {
            assert(d.buckets@[i].k == k);
            assert(d.spec_buckets()[i] == d.buckets@[i].peers@);
        }
        d
    }

    /// The bucket for the identifier `peer`.
    fn bucket_for(&self, peer: &NodeId) -> (b: usize)
        requires
            self.wf(),
        ensures
            b == spec_peer_bucket(self.node_id.0@, peer.0@),
            b < BUCKET_COUNT,
    {
        let ghost x = spec_xor(self.node_id.0@, peer.0@);
        let mut i: usize = 0;
        while i < 32
            invariant
                i <= 32,
                x == spec_xor(self.node_id.0@, peer.0@),
                x.len() == 32,
                peer_bucket_from(x, 0) == peer_bucket_from(x, i as int),
            decreases 32 - i,
        {
            let byte = self.node_id.0[i] ^ peer.0[i];
            if byte != 0 {
                let b = i * 8 + 7 - leading_zeros(byte);
                return if b < 159 { b } else { 159 };
            }
            i = i + 1;
        }
        159
    }

    /// Adds `peer` seen at `now` (seconds) to its bucket.
    pub fn add_peer_at(&mut self, peer: PeerInfo, now: u64)
        requires
            old(self).wf(),
        ensures
            final(self).wf(),
            final(self).spec_node_id() == old(self).spec_node_id(),
            final(self).spec_values() == old(self).spec_values(),
            final(self).spec_k() == old(self).spec_k(),
            final(self).spec_buckets() == old(self).spec_buckets().update(
                spec_peer_bucket(old(self).spec_node_id().0@, peer.node_id.0@) as int,
                spec_bucket_add(
                    old(self).spec_buckets()[spec_peer_bucket(old(self).spec_node_id().0@, peer.node_id.0@) as int],
                    old(self).spec_k(),
                    peer,
                    now,
                ),
            ),
    {
        let b = self.bucket_for(&peer.node_id);
        let mut buckets: Vec<KBucket> = Vec::new();
        std::mem::swap(&mut buckets, &mut self.buckets);
        let mut bucket = buckets.remove(b);
        bucket.add_at(peer, now);
        buckets.insert(b, bucket);
        proof {
            assert forall|i: int| 0 <= i < buckets@.len() implies #[trigger] buckets@[i].k == self.k by {
                if i != b {
                    assert(buckets@[i] == old(self).buckets@[i]);
                }
            }
        }
        self.buckets = buckets;
        proof {
            assert(self.spec_buckets() =~= old(self).spec_buckets().update(
                b as int,
                spec_bucket_add(old(self).spec_buckets()[b as int], old(self).spec_k(), peer, now),
            ));
        }
    }

    /// Adds `peer`, seen now, to its bucket: `add_peer_at` with the clock's
    /// reading in seconds, which can be any value.
    pub fn add_peer(&mut self, peer: PeerInfo)
        requires
            old(self).wf(),
        ensures
            final(self).wf(),
            final(self).spec_node_id() == old(self).spec_node_id(),
            final(self).spec_values() == old(self).spec_values(),
            final(self).spec_k() == old(self).spec_k(),
            exists|now: u64|
                #[trigger] spec_buckets_after_add(
                    old(self).spec_buckets(),
                    old(self).spec_node_id().0@,
                    old(self).spec_k(),
                    peer,
                    now,
                ) == final(self).spec_buckets(),
    {
        let now = now_secs();
        self.add_peer_at(peer, now);
        assert(spec_buckets_after_add(old(self).spec_buckets(), old(self).spec_node_id().0@, old(self).spec_k(), peer, now)
            == self.spec_buckets());
    }

    /// Up to `count` known peers near `key`: the buckets from the one `key`
    /// falls in to the last, then the ones before it, nearest first, each in
    /// identifier order.
    pub fn find_closest_peers(&self, key: &DhtKey, count: usize) -> (r: Vec<PeerInfo>)
        requires
            self.wf(),
        ensures
            r@ == gather_down(
                self.spec_buckets(),
                spec_start_bucket(self.spec_node_id().0@, key.0@) as int,
                count as nat,
                gather_up(
                    self.spec_buckets(),
                    spec_start_bucket(self.spec_node_id().0@, key.0@) as int,
                    count as nat,
                    Seq::empty(),
                ),
            ),
    {
        let mut results: Vec<PeerInfo> = Vec::new();
        let start = self.start_bucket(key);
        let ghost bs = self.spec_buckets();
        let mut b: usize = start;
        while b < BUCKET_COUNT && results.len() < count
            invariant
                self.wf(),
                bs == self.spec_buckets(),
                start <= b <= BUCKET_COUNT,
                results@.len() <= count,
                gather_up(bs, start as int, count as nat, Seq::empty()) == gather_up(bs, b as int, count as nat, results@),
            decreases BUCKET_COUNT - b,
        {
            self.append_from_bucket(&mut results, b, count);
            b = b + 1;
        }
        let mut c: usize = start;
        while c > 0 && results.len() < count
            invariant
                self.wf(),
                bs == self.spec_buckets(),
                c <= start,
                start < BUCKET_COUNT,
                results@.len() <= count,
                gather_down(bs, start as int, count as nat, gather_up(bs, start as int, count as nat, Seq::empty()))
                    == gather_down(bs, c as int, count as nat, results@),
            decreases c,
        {
            self.append_from_bucket(&mut results, c - 1, count);
            c = c - 1;
        }
        results
    }

    /// The bucket searched first for `key`.
    fn start_bucket(&self, key: &DhtKey) -> (b: usize)
        ensures
            b == spec_start_bucket(self.spec_node_id().0@, key.0@),
            b < BUCKET_COUNT,
    {
        let ghost x = spec_xor(self.node_id.0@.take(20), key.0@);
        let mut i: usize = 0;
        while i < 20
            invariant
                i <= 20,
                x == spec_xor(self.node_id.0@.take(20), key.0@),
                x.len() == 20,
                peer_bucket_from(x, 0) == peer_bucket_from(x, i as int),
            decreases 20 - i,
        {
            let byte = self.node_id.0[i] ^ key.0[i];
            assert(byte == x[i as int]);
            if byte != 0 {
                let b = i * 8 + 7 - leading_zeros(byte);
                return if b < 159 { b } else { 159 };
            }
            i = i + 1;
        }
        159
    }

    /// Appends peers of bucket `b` to `results`, up to `count` in all.
    fn append_from_bucket(&self, results: &mut Vec<PeerInfo>, b: usize, count: usize)
        requires
            self.wf(),
            b < BUCKET_COUNT,
            old(results)@.len() <= count,
        ensures
            final(results)@ == old(results)@ + take_upto(self.spec_buckets()[b as int], count - old(results)@.len()),
            final(results)@.len() <= count,
    {
        let more = self.buckets[b].get_peers(count - results.len());
        let ghost before = results@;
        let mut i: usize = 0;
        while i < more.len()
            invariant
                i <= more@.len(),
                results@ == before + more@.take(i as int),
            decreases more@.len() - i,
        {
            results.push(more[i]);
            proof {
                assert(results@ =~= before + more@.take(i as int + 1));
            }
            i = i + 1;
        }
        proof {
            assert(more@.take(more@.len() as int) =~= more@);
            assert(self.spec_buckets()[b as int] == self.buckets@[b as int].peers@);
        }
    }

    /// Stores `value` under `key` at time `now` (seconds) for `ttl` seconds,
    /// replacing an earlier value; values over 64 KiB are refused.
    pub fn store_at(&mut self, key: DhtKey, value: Vec<u8>, publisher: NodeId, ttl: u64, now: u64) -> (r: Result<(), DhtError>)
        requires
            now + ttl <= u64::MAX,
        ensures
            final(self).spec_node_id() == old(self).spec_node_id(),
            final(self).spec_buckets() == old(self).spec_buckets(),
            value@.len() > MAX_VALUE_SIZE ==> (r matches Err(DhtError::ValueTooLarge(n)) && n == value@.len())
                && final(self).spec_values() == old(self).spec_values(),
            value@.len() <= MAX_VALUE_SIZE ==> r is Ok && spec_value_for(final(self).spec_values(), key.0@)
                == Some(DhtValue { data: value, expiration_time: (now + ttl) as u64, publisher, last_published: now }),
            value@.len() <= MAX_VALUE_SIZE ==> forall|k: Seq<u8>| k != key.0@ ==> #[trigger] spec_value_for(
                final(self).spec_values(),
                k,
            ) == spec_value_for(old(self).spec_values(), k),
    {
        if value.len() > MAX_VALUE_SIZE {
            return Err(DhtError::ValueTooLarge(value.len()));
        }
        let entry = DhtValue { data: value, expiration_time: now + ttl, publisher, last_published: now };
        let ghost before = self.values@;
        let mut values: Vec<(DhtKey, DhtValue)> = Vec::new();
        std::mem::swap(&mut values, &mut self.values);
        let mut i: usize = 0;
        while i < values.len() && !keys_equal(&values[i].0.0, &key.0)
            invariant
                i <= values@.len(),
                values@ == before,
            decreases values@.len() - i,
        {
            i = i + 1;
        }
        if i < values.len() {
            let _ = values.remove(i);
            proof {
                assert forall|k: Seq<u8>| k != key.0@ implies #[trigger] spec_value_for(values@, k)
                    == spec_value_for(before, k) by {
                    lemma_value_for_remove(before, i as int, k);
                }
            }
        }
        let ghost mid = values@;
        values.push((key, entry));
        proof {
            assert(values@.drop_last() =~= mid);
            assert forall|k: Seq<u8>| k != key.0@ implies #[trigger] spec_value_for(values@, k)
                == spec_value_for(before, k) by {
                assert(spec_value_for(values@, k) == spec_value_for(mid, k));
            }
        }
        self.values = values;
        Ok(())
    }

    /// Stores `value` under `key` for `ttl` seconds from now (the expiry is
    /// the latest time where that does not fit).
    pub fn store(&mut self, key: DhtKey, value: Vec<u8>, publisher: NodeId, ttl: u64) -> (r: Result<(), DhtError>)
        ensures
            final(self).spec_node_id() == old(self).spec_node_id(),
            final(self).spec_buckets() == old(self).spec_buckets(),
            value@.len() > MAX_VALUE_SIZE ==> (r matches Err(DhtError::ValueTooLarge(n)) && n == value@.len())
                && final(self).spec_values() == old(self).spec_values(),
            value@.len() <= MAX_VALUE_SIZE ==> r is Ok && (spec_value_for(final(self).spec_values(), key.0@) matches Some(v)
                && v.data == value && v.publisher == publisher && v.last_published <= v.expiration_time
                && v.expiration_time == if v.last_published + ttl <= u64::MAX { (v.last_published + ttl) as u64 } else { u64::MAX }),
            value@.len() <= MAX_VALUE_SIZE ==> forall|k: Seq<u8>| k != key.0@ ==> #[trigger] spec_value_for(
                final(self).spec_values(),
                k,
            ) == spec_value_for(old(self).spec_values(), k),
    {
        let now = now_secs();
        let ttl = if now as u128 + ttl as u128 <= u64::MAX as u128 { ttl } else { u64::MAX - now };
        self.store_at(key, value, publisher, ttl, now)
    }

    /// The unexpired value under `key` at time `now` (seconds).
    pub fn retrieve_at(&self, key: &DhtKey, now: u64) -> (r: Option<&DhtValue>)
        ensures
            match spec_value_for(self.spec_values(), key.0@) {
                Some(v) => if v.expiration_time < now { r is None } else { r == Some(&v) },
                None => r is None,
            },
    {
        let mut i: usize = self.values.len();
        assert(self.values@.take(i as int) =~= self.values@);
        while i > 0 && !keys_equal(&self.values[i - 1].0.0, &key.0)
            invariant
                i <= self.values@.len(),
                spec_value_for(self.values@, key.0@) == spec_value_for(self.values@.take(i as int), key.0@),
            decreases i,
        {
            proof {
                assert(self.values@.take(i as int).drop_last() =~= self.values@.take(i as int - 1));
            }
            i = i - 1;
        }
        if i == 0 {
            return None;
        }
        proof {
            assert(self.values@.take(i as int).last() == self.values@[i as int - 1]);
        }
        let v = &self.values[i - 1].1;
        if v.expiration_time < now {
            None
        } else {
            Some(v)
        }
    }

    /// The unexpired value under `key`, now: `retrieve_at` with the clock's
    /// reading in seconds, which can be any value.
    pub fn retrieve(&self, key: &DhtKey) -> (r: Option<&DhtValue>)
        ensures
            exists|now: u64| #[trigger] spec_retrieve_at(self.spec_values(), key.0@, now) == match r {
                Some(v) => Some(*v),
                None => None::<DhtValue>,
            },
    {
        let now = now_secs();
        let r = self.retrieve_at(key, now);
        assert(spec_retrieve_at(self.spec_values(), key.0@, now) == match r {
            Some(v) => Some(*v),
            None => None::<DhtValue>,
        });
        r
    }

    /// Whether some bucket holds the peer `node_id`.
    pub fn is_known_peer(&self, node_id: &NodeId) -> (b: bool)
        ensures
            b == exists|i: int| 0 <= i < self.spec_buckets().len() && #[trigger] position_of(self.spec_buckets()[i], *node_id) is Some,
    {
        let mut i: usize = 0;
        while i < self.buckets.len()
            invariant
                i <= self.buckets@.len(),
                forall|j: int| 0 <= j < i ==> #[trigger] position_of(self.spec_buckets()[j], *node_id) is None,
            decreases self.buckets@.len() - i,
        {
            if self.buckets[i].find(node_id).is_some() {
                assert(position_of(self.spec_buckets()[i as int], *node_id) is Some);
                return true;
            }
            i = i + 1;
        }
        false
    }
}

/// Removing an entry of another key changes no lookup but its own.
proof fn lemma_value_for_remove(values: Seq<(DhtKey, DhtValue)>, i: int, k: Seq<u8>)
    requires
        0 <= i < values.len(),
        values[i].0.0@ != k,
    ensures
        spec_value_for(values.remove(i), k) == spec_value_for(values, k),
    decreases values.len(),
{
    if i == values.len() - 1 {
        assert(values.remove(i) =~= values.drop_last());
    } else {
        assert(values.remove(i).last() == values.last());
        assert(values.remove(i).drop_last() =~= values.drop_last().remove(i));
        if values.last().0.0@ != k {
            lemma_value_for_remove(values.drop_last(), i, k);
        }
    }
}

} // verus!
