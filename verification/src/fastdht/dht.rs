//! Value storage with expiry, and the peer list searched by XOR distance.

use vstd::prelude::*;
use std::collections::VecDeque;
use crate::common::net::SocketAddr;
use crate::common::time::{Duration, Timestamp, DURATION_MAX_NANOS};
use crate::common::wire::extend_bytes;

verus! {

/// Why a DHT operation failed.
#[derive(Debug, Clone)]
pub enum DhtError {
    NodeNotFound(String),
    Timeout,
    Storage(String),
    Network(String),
}

/// A peer known to the DHT; its reputation is in thousandths.
#[derive(Debug, Clone, Copy)]
pub struct Peer {
    pub id: [u8; 32],
    pub addr: SocketAddr,
    pub last_seen: Timestamp,
    pub reputation: u32,
}

impl Peer {
    /// A peer last seen at `now`, with full reputation.
    pub fn new_at(id: [u8; 32], addr: SocketAddr, now: Timestamp) -> (p: Peer)
        ensures
            p.id == id,
            p.addr == addr,
            p.last_seen == now,
            p.reputation == 1000,
    {
        Peer { id, addr, last_seen: now, reputation: 1000 }
    }

    /// A peer seen just now, with full reputation.
    pub fn new(id: [u8; 32], addr: SocketAddr) -> (p: Peer)
        ensures
            p.id == id,
            p.addr == addr,
            p.reputation == 1000,
    {
        Peer::new_at(id, addr, Timestamp::now())
    }
}

/// How the DHT sizes its tables and times out.
#[derive(Debug, Clone, Copy)]
pub struct DhtConfig {
    pub bucket_size: usize,
    pub replication_factor: usize,
    pub node_timeout: Duration,
    pub query_timeout: Duration,
    pub alpha: usize,
    pub k: usize,
}

impl Default for DhtConfig {
    /// Buckets of 20, replication 3, an hour before a node times out, five
    /// seconds per query, 3 concurrent queries.
    fn default() -> (c: DhtConfig)
        ensures
            c.bucket_size == 20,
            c.replication_factor == 3,
            c.node_timeout@ == 3_600_000_000_000,
            c.query_timeout@ == 5_000_000_000,
            c.alpha == 3,
            c.k == 20,
    {
        DhtConfig {
            bucket_size: 20,
            replication_factor: 3,
            node_timeout: Duration::from_secs(3600),
            query_timeout: Duration::from_secs(5),
            alpha: 3,
            k: 20,
        }
    }
}

/// A stored value.
#[derive(Debug)]
pub struct DhtValue {
    pub key: [u8; 32],
    pub value: Vec<u8>,
    pub expiration: Timestamp,
    pub publisher: [u8; 32],
}

impl Clone for DhtValue {
    /// An equal value.
    fn clone(&self) -> (c: Self)
        ensures
            c.key == self.key,
            c.value@ == self.value@,
            c.expiration == self.expiration,
            c.publisher == self.publisher,
    {
        let mut value: Vec<u8> = Vec::new();
        extend_bytes(&mut value, self.value.as_slice());
        assert(value@ =~= self.value@);
        DhtValue { key: self.key, value, expiration: self.expiration, publisher: self.publisher }
    }
}

impl DhtValue {
    /// Whether the value expired before `now`.
    pub fn is_expired_at(&self, now: Timestamp) -> (b: bool)
        ensures
            b == (self.expiration@ < now@),
    {
        self.expiration.is_before(now)
    }

    /// Whether the value has expired.
    pub fn is_expired(&self) -> (b: bool)
        ensures
            exists|now: Timestamp| #![trigger now@] b == (self.expiration@ < now@),
    {
        self.is_expired_at(Timestamp::now())
    }
}

/// The XOR of two identifiers, byte by byte.
pub open spec fn spec_xor(a: Seq<u8>, b: Seq<u8>) -> Seq<u8> {
    Seq::new(a.len(), |i: int| a[i] ^ b[i])
}

/// The XOR distance between two identifiers.
pub fn xor_distance(a: &[u8; 32], b: &[u8; 32]) -> (d: [u8; 32])
    ensures
        d@ == spec_xor(a@, b@),
{
    let mut result = [0u8; 32];
    let mut i: usize = 0;
    while i < 32
        invariant
            i <= 32,
            result@.len() == 32,
            forall|j: int| 0 <= j < i ==> result@[j] == a@[j] ^ b@[j],
        decreases 32 - i,
    {
        result.set(i, a[i] ^ b[i]);
        i = i + 1;
    }
    assert(result@ =~= spec_xor(a@, b@));
    result
}

/// Byte strings in lexicographic order: `a` is not after `b`.
pub open spec fn lex_le(a: Seq<u8>, b: Seq<u8>) -> bool
    decreases a.len(),
{
    if a.len() == 0 || b.len() == 0 {
        true
    } else if a[0] != b[0] {
        a[0] < b[0]
    } else {
        lex_le(a.drop_first(), b.drop_first())
    }
}

/// Whether `a` is not after `b` in lexicographic order.
pub(crate) fn lex_le_exec(a: &[u8; 32], b: &[u8; 32]) -> (r: bool)
    ensures
        r == lex_le(a@, b@),
{
    let mut i: usize = 0;
    assert(a@.skip(0) =~= a@ && b@.skip(0) =~= b@);
    while i < 32
        invariant
            i <= 32,
            a@.len() == 32 && b@.len() == 32,
            lex_le(a@, b@) == lex_le(a@.skip(i as int), b@.skip(i as int)),
        decreases 32 - i,
    {
        proof {
            assert(a@.skip(i as int).drop_first() =~= a@.skip(i as int + 1));
            assert(b@.skip(i as int).drop_first() =~= b@.skip(i as int + 1));
        }
        if a[i] != b[i] {
            return a[i] < b[i];
        }
        i = i + 1;
    }
    true
}

/// Whether peer `a` is not farther than peer `b` from `target`.
pub open spec fn closer_or_equal(a: Peer, b: Peer, target: Seq<u8>) -> bool {
    lex_le(spec_xor(a.id@, target), spec_xor(b.id@, target))
}

/// `sorted` with `p` inserted after every peer not farther than it.
pub open spec fn insert_by_distance(sorted: Seq<Peer>, p: Peer, target: Seq<u8>) -> Seq<Peer>
    decreases sorted.len(),
{
    if sorted.len() == 0 {
        seq![p]
    } else if closer_or_equal(sorted.last(), p, target) {
        sorted.push(p)
    } else {
        insert_by_distance(sorted.drop_last(), p, target).push(sorted.last())
    }
}

/// The peers in increasing distance from `target`, ties in their order.
pub open spec fn sort_by_distance(peers: Seq<Peer>, target: Seq<u8>) -> Seq<Peer>
    decreases peers.len(),
{
    if peers.len() == 0 {
        peers
    } else {
        insert_by_distance(sort_by_distance(peers.drop_last(), target), peers.last(), target)
    }
}

/// The stored value for `key`, if any.
pub open spec fn spec_lookup(store: Seq<DhtValue>, key: Seq<u8>) -> Option<DhtValue>
    decreases store.len(),
{
    if store.len() == 0 {
        None
    } else if store.last().key@ == key {
        Some(store.last())
    } else {
        spec_lookup(store.drop_last(), key)
    }
}

/// The time `ttl` after `now`, or the latest representable time where that
/// does not fit.
pub open spec fn spec_expiry(now: Timestamp, ttl: Duration) -> nat {
    if now@ + ttl@ <= DURATION_MAX_NANOS { (now@ + ttl@) as nat } else { DURATION_MAX_NANOS as nat }
}

/// A DHT node's values and known peers.
#[derive(Debug)]
pub struct Dht {
    config: DhtConfig,
    store: Vec<DhtValue>,
    nodes: VecDeque<Peer>,
    own_id: [u8; 32],
}

/// Whether two identifiers are equal.
pub(crate) fn ids_equal(a: &[u8; 32], b: &[u8; 32]) -> (r: bool)
    ensures
        r == (a@ == b@),
{
    let mut i: usize = 0;
    while i < 32
        invariant
            i <= 32,
            a@.len() == 32 && b@.len() == 32,
            forall|j: int| 0 <= j < i ==> a@[j] == b@[j],
        decreases 32 - i,
    {
        if a[i] != b[i] {
            return false;
        }
        i = i + 1;
    }
    assert(a@ =~= b@);
    true
}

impl Dht {
    /// Each key is stored once.
    #[verifier::type_invariant]
    spec fn well_formed(self) -> bool {
        forall|i: int, j: int|
            0 <= i < j < self.store@.len() ==> #[trigger] self.store@[i].key@ != #[trigger] self.store@[j].key@
    }

    /// The configuration.
    pub closed spec fn spec_config(&self) -> DhtConfig {
        self.config
    }

    /// The stored values.
    pub closed spec fn spec_store(&self) -> Seq<DhtValue> {
        self.store@
    }

    /// The known peers, oldest first.
    pub closed spec fn spec_nodes(&self) -> Seq<Peer> {
        self.nodes@
    }

    /// This node's identifier.
    pub closed spec fn spec_own_id(&self) -> Seq<u8> {
        self.own_id@
    }

    /// An empty DHT for the node `own_id`.
    pub fn new(config: DhtConfig, own_id: [u8; 32]) -> (d: Dht)
        ensures
            d.spec_config() == config,
            d.spec_own_id() == own_id@,
            d.spec_store().len() == 0,
            d.spec_nodes().len() == 0,
    {
        Dht { config, store: Vec::new(), nodes: VecDeque::new(), own_id }
    }

    /// The position of `key` in the store, or the store's length.
    fn find(&self, key: &[u8; 32]) -> (i: usize)
        ensures
            i <= self.spec_store().len(),
            forall|k: int| 0 <= k < i ==> #[trigger] self.spec_store()[k].key@ != key@,
            i < self.spec_store().len() ==> self.spec_store()[i as int].key@ == key@,
    {
        let mut i: usize = 0;
        while i < self.store.len() && !ids_equal(&self.store[i].key, key)
            invariant
                i <= self.store@.len(),
                forall|k: int| 0 <= k < i ==> #[trigger] self.store@[k].key@ != key@,
            decreases self.store@.len() - i,
        {
            i = i + 1;
        }
        i
    }

    /// Stores `value` under `key` until `ttl` after `now`, published by this
    /// node, replacing an earlier value for `key`.
    pub fn store_at(&mut self, key: [u8; 32], value: Vec<u8>, ttl: Duration, now: Timestamp)
        ensures
            final(self).spec_config() == old(self).spec_config(),
            final(self).spec_nodes() == old(self).spec_nodes(),
            final(self).spec_own_id() == old(self).spec_own_id(),
            spec_lookup(final(self).spec_store(), key@) matches Some(v) && v.key == key && v.value
                == value && v.expiration@ == spec_expiry(now, ttl) && v.publisher@ == old(
                self,
            ).spec_own_id(),
            forall|k: Seq<u8>| k != key@ ==> #[trigger] spec_lookup(final(self).spec_store(), k)
                == spec_lookup(old(self).spec_store(), k),
    {
        proof {
            use_type_invariant(&*self);
        }
        let expiration = match now.checked_add(ttl) {
            Some(t) => t,
            None => Timestamp::new(Duration::from_nanos_u128(DURATION_MAX_NANOS)),
        };
        let entry = DhtValue { key, value, expiration, publisher: self.own_id };
        let i = self.find(&key);
        let ghost before = self.store@;
        let mut store: Vec<DhtValue> = Vec::new();
        std::mem::swap(&mut store, &mut self.store);
        if i < store.len() {
            store.remove(i);
        }
        store.push(entry);
        proof {
            let after = store@;
            assert forall|a: int, b: int| 0 <= a < b < after.len() implies #[trigger] after[a].key@
                != #[trigger] after[b].key@ by {
                if b == after.len() - 1 {
                    let oa = if i < before.len() && a >= i { a + 1 } else { a };
                    assert(after[a] == before[oa]);
                } else {
                    let oa = if i < before.len() && a >= i { a + 1 } else { a };
                    let ob = if i < before.len() && b >= i { b + 1 } else { b };
                    assert(after[a] == before[oa]);
                    assert(after[b] == before[ob]);
                }
            }
            assert(after.last() == entry);
            assert forall|k: Seq<u8>| k != key@ implies #[trigger] spec_lookup(after, k) == spec_lookup(before, k) by {
                assert(after.drop_last() =~= if i < before.len() { before.remove(i as int) } else { before });
                if i < before.len() {
                    lemma_lookup_remove(before, i as int, k);
                }
            }
        }
        self.store = store;
    }

    /// Stores `value` under `key` for `ttl` from now, published by this node.
    pub fn store(&mut self, key: [u8; 32], value: Vec<u8>, ttl: Duration)
        ensures
            spec_lookup(final(self).spec_store(), key@) matches Some(v) && v.key == key && v.value
                == value && v.publisher@ == old(self).spec_own_id(),
            forall|k: Seq<u8>| k != key@ ==> #[trigger] spec_lookup(final(self).spec_store(), k)
                == spec_lookup(old(self).spec_store(), k),
    {
        self.store_at(key, value, ttl, Timestamp::now());
    }

    /// The value stored under `key`, expired or not.
    pub fn retrieve(&self, key: &[u8; 32]) -> (v: Option<&DhtValue>)
        ensures
            match v {
                Some(x) => spec_lookup(self.spec_store(), key@) == Some(*x),
                None => spec_lookup(self.spec_store(), key@) is None,
            },
    {
        proof {
            use_type_invariant(self);
        }
        let i = self.find(key);
        proof {
            lemma_lookup_index(self.store@, key@, i as int);
        }
        if i < self.store.len() {
            Some(&self.store[i])
        } else {
            None
        }
    }

    /// Drops the values that expired before `now`, and the peers not seen
    /// within the node timeout before `now`.
    pub fn cleanup_expired_at(&mut self, now: Timestamp)
        ensures
            final(self).spec_config() == old(self).spec_config(),
            final(self).spec_own_id() == old(self).spec_own_id(),
            final(self).spec_store() == old(self).spec_store().filter(|v: DhtValue| !(v.expiration@ < now@)),
            final(self).spec_nodes() == old(self).spec_nodes().filter(
                |p: Peer| (if now@ < p.last_seen@ { 0 } else { now@ - p.last_seen@ }) < old(self).spec_config().node_timeout@,
            ),
    {
        proof {
            use_type_invariant(&*self);
        }
        let ghost keep_value = |v: DhtValue| !(v.expiration@ < now@);
        let ghost before = self.store@;
        let mut store: Vec<DhtValue> = Vec::new();
        std::mem::swap(&mut store, &mut self.store);
        let mut kept: Vec<DhtValue> = Vec::new();
        let ghost n = before.len();
        while store.len() > 0
            invariant
                store@.len() <= n,
                n == before.len(),
                store@ == before.skip(n - store@.len()),
                keep_value == (|v: DhtValue| !(v.expiration@ < now@)),
                kept@ == before.take(n - store@.len()).filter(keep_value),
            decreases store@.len(),
        {
            let ghost done = n - store@.len();
            let v = store.remove(0);
            proof {
                assert(v == before[done]);
                assert(store@ =~= before.skip(n - store@.len()));
                assert(before.take(done + 1).drop_last() =~= before.take(done));
                assert(before.take(done + 1).last() == before[done]);
                reveal(Seq::filter);
            }
            if !v.is_expired_at(now) {
                kept.push(v);
            }
        }
        proof {
            assert(before.take(n as int) =~= before);
            lemma_filter_keeps_unique(before, keep_value);
        }
        self.store = kept;
        let timeout = self.config.node_timeout;
        let ghost keep_node = |p: Peer| (if now@ < p.last_seen@ { 0 } else { now@ - p.last_seen@ }) < timeout@;
        let ghost nodes_before = self.nodes@;
        let mut kept_nodes: VecDeque<Peer> = VecDeque::new();
        let mut j: usize = 0;
        while j < self.nodes.len()
            invariant
                j <= self.nodes@.len(),
                self.nodes@ == nodes_before,
                keep_node == (|p: Peer| (if now@ < p.last_seen@ { 0 } else { now@ - p.last_seen@ }) < timeout@),
                kept_nodes@ == nodes_before.take(j as int).filter(keep_node),
            decreases self.nodes@.len() - j,
        {
            proof {
                assert(nodes_before.take(j as int + 1).drop_last() =~= nodes_before.take(j as int));
                reveal(Seq::filter);
            }
            let p = self.nodes[j];
            let age = now.duration_since(p.last_seen);
            if age.lt(&timeout) {
                kept_nodes.push_back(p);
            }
            j = j + 1;
        }
        proof {
            assert(nodes_before.take(nodes_before.len() as int) =~= nodes_before);
        }
        self.nodes = kept_nodes;
    }

    /// Drops expired values and timed-out peers, as of now.
    pub fn cleanup_expired(&mut self)
        ensures
            final(self).spec_config() == old(self).spec_config(),
            final(self).spec_own_id() == old(self).spec_own_id(),
            exists|now: Timestamp|
                #![trigger now@]
                final(self).spec_store() == old(self).spec_store().filter(|v: DhtValue| !(v.expiration@ < now@))
                    && final(self).spec_nodes() == old(self).spec_nodes().filter(
                    |p: Peer| (if now@ < p.last_seen@ { 0 } else { now@ - p.last_seen@ }) < old(self).spec_config().node_timeout@,
                ),
    {
        self.cleanup_expired_at(Timestamp::now());
    }

    /// Appends `peer`, then drops the oldest peers beyond ten buckets' worth.
    pub fn add_peer(&mut self, peer: Peer)
        requires
            old(self).spec_config().bucket_size * 10 <= usize::MAX,
        ensures
            final(self).spec_config() == old(self).spec_config(),
            final(self).spec_store() == old(self).spec_store(),
            final(self).spec_own_id() == old(self).spec_own_id(),
            final(self).spec_nodes() == ({
                let all = old(self).spec_nodes().push(peer);
                let cap = old(self).spec_config().bucket_size * 10;
                if all.len() > cap { all.skip(all.len() - cap) } else { all }
            }),
    {
        proof {
            use_type_invariant(&*self);
        }
        let cap = self.config.bucket_size * 10;
        let ghost all = self.nodes@.push(peer);
        let mut nodes: VecDeque<Peer> = VecDeque::new();
        std::mem::swap(&mut nodes, &mut self.nodes);
        nodes.push_back(peer);
        while nodes.len() > cap
            invariant
                nodes@.len() <= all.len(),
                all.len() > cap ==> nodes@ == all.skip(all.len() - nodes@.len()) && nodes@.len() >= cap,
                all.len() <= cap ==> nodes@ == all,
            decreases nodes@.len(),
        {
            let ghost prev = nodes@;
            let _ = nodes.pop_front();
            proof {
                assert(all.len() > cap);
                assert(prev == all.skip(all.len() - prev.len()));
                assert(nodes@ =~= prev.subrange(1, prev.len() as int));
                let m = all.len() - nodes@.len();
                assert(all.skip(m).len() == nodes@.len());
                assert forall|k: int| 0 <= k < nodes@.len() implies nodes@[k] == all.skip(m)[k] by {
                    assert(nodes@[k] == prev[k + 1]);
                    assert(prev[k + 1] == all[all.len() - prev.len() + k + 1]);
                }
                assert(nodes@ =~= all.skip(m));
            }
        }
        proof {
            if all.len() <= cap {
                assert(nodes@ == all);
            }
        }
        self.nodes = nodes;
    }

    /// The `count` known peers closest to `target`, nearest first (ties in
    /// the order the peers were added).
    pub fn find_closest(&self, target: &[u8; 32], count: usize) -> (r: Vec<Peer>)
        ensures
            r@ == ({
                let sorted = sort_by_distance(self.spec_nodes(), target@);
                if count < sorted.len() { sorted.take(count as int) } else { sorted }
            }),
    {
        let mut sorted: Vec<Peer> = Vec::new();
        let mut i: usize = 0;
        while i < self.nodes.len()
            invariant
                i <= self.nodes@.len(),
                sorted@ == sort_by_distance(self.nodes@.take(i as int), target@),
            decreases self.nodes@.len() - i,
        {
            let p = self.nodes[i];
            proof {
                assert(self.nodes@.take(i as int + 1).drop_last() =~= self.nodes@.take(i as int));
            }
            insert_sorted(&mut sorted, p, target);
            i = i + 1;
        }
        proof {
            assert(self.nodes@.take(self.nodes@.len() as int) =~= self.nodes@);
            lemma_sort_len(self.nodes@, target@);
        }
        sorted.truncate(count);
        sorted
    }

    /// The number of known peers.
    pub fn node_count(&self) -> (n: usize)
        ensures
            n == self.spec_nodes().len(),
    {
        self.nodes.len()
    }

    /// The number of stored values.
    pub fn store_size(&self) -> (n: usize)
        ensures
            n == self.spec_store().len(),
    {
        self.store.len()
    }
}

/// Inserts `p` into `sorted` after every peer not farther from `target`.
fn insert_sorted(sorted: &mut Vec<Peer>, p: Peer, target: &[u8; 32])
    ensures
        final(sorted)@ == insert_by_distance(old(sorted)@, p, target@),
{
    let dp = xor_distance(&p.id, target);
    let mut j: usize = sorted.len();
    proof {
        assert(sorted@.take(j as int) =~= sorted@);
        assert(insert_by_distance(sorted@, p, target@) =~= insert_by_distance(sorted@.take(j as int), p, target@)
            + sorted@.skip(j as int));
    }
    while j > 0 && !lex_le_exec(&xor_distance(&sorted[j - 1].id, target), &dp)
        invariant
            j <= sorted@.len(),
            sorted@ == old(sorted)@,
            dp@ == spec_xor(p.id@, target@),
            insert_by_distance(old(sorted)@, p, target@) == insert_by_distance(sorted@.take(j as int), p, target@)
                + sorted@.skip(j as int),
        decreases j,
    {
        proof {
            let pre = sorted@.take(j as int);
            assert(pre.drop_last() =~= sorted@.take(j as int - 1));
            assert(pre.last() == sorted@[j as int - 1]);
            assert(!closer_or_equal(pre.last(), p, target@));
            assert(insert_by_distance(pre, p, target@) == insert_by_distance(sorted@.take(j as int - 1), p, target@).push(
                sorted@[j as int - 1],
            ));
            assert(insert_by_distance(sorted@.take(j as int - 1), p, target@).push(sorted@[j as int - 1])
                + sorted@.skip(j as int) =~= insert_by_distance(sorted@.take(j as int - 1), p, target@)
                + sorted@.skip(j as int - 1));
        }
        j = j - 1;
    }
    proof {
        let pre = sorted@.take(j as int);
        if j == 0 {
            assert(pre.len() == 0);
            assert(insert_by_distance(pre, p, target@) =~= pre.push(p));
        } else {
            assert(pre.last() == sorted@[j as int - 1]);
            assert(closer_or_equal(pre.last(), p, target@));
            assert(insert_by_distance(pre, p, target@) =~= pre.push(p));
        }
        assert(pre.push(p) + sorted@.skip(j as int) =~= sorted@.insert(j as int, p));
    }
    sorted.insert(j, p);
}

/// Sorting keeps the number of peers.
proof fn lemma_sort_len(peers: Seq<Peer>, target: Seq<u8>)
    ensures
        sort_by_distance(peers, target).len() == peers.len(),
    decreases peers.len(),
{
    if peers.len() > 0 {
        lemma_sort_len(peers.drop_last(), target);
        lemma_insert_len(sort_by_distance(peers.drop_last(), target), peers.last(), target);
    }
}

/// Inserting adds one peer.
proof fn lemma_insert_len(sorted: Seq<Peer>, p: Peer, target: Seq<u8>)
    ensures
        insert_by_distance(sorted, p, target).len() == sorted.len() + 1,
    decreases sorted.len(),
{
    if sorted.len() > 0 && !closer_or_equal(sorted.last(), p, target) {
        lemma_insert_len(sorted.drop_last(), p, target);
    }
}

/// The lookup finds the entry at the first position holding the key.
proof fn lemma_lookup_index(store: Seq<DhtValue>, key: Seq<u8>, i: int)
    requires
        0 <= i <= store.len(),
        forall|k: int| 0 <= k < i ==> #[trigger] store[k].key@ != key,
        i < store.len() ==> store[i].key@ == key,
        forall|a: int, b: int| 0 <= a < b < store.len() ==> #[trigger] store[a].key@ != #[trigger] store[b].key@,
    ensures
        spec_lookup(store, key) == if i < store.len() { Some(store[i]) } else { None::<DhtValue> },
    decreases store.len(),
{
    if store.len() > 0 {
        if store.last().key@ == key {
            if i < store.len() - 1 {
                assert(store[i].key@ != store[store.len() - 1].key@);
            }
        } else {
            lemma_lookup_index(store.drop_last(), key, if i < store.len() { i } else { store.len() - 1 });
        }
    }
}

/// Removing the entry at `i` changes no other key's lookup.
proof fn lemma_lookup_remove(store: Seq<DhtValue>, i: int, k: Seq<u8>)
    requires
        0 <= i < store.len(),
        store[i].key@ != k,
    ensures
        spec_lookup(store.remove(i), k) == spec_lookup(store, k),
    decreases store.len(),
{
    if i == store.len() - 1 {
        assert(store.remove(i) =~= store.drop_last());
    } else {
        assert(store.remove(i).last() == store.last());
        assert(store.remove(i).drop_last() =~= store.drop_last().remove(i));
        if store.last().key@ != k {
            lemma_lookup_remove(store.drop_last(), i, k);
        }
    }
}

/// Keeping some entries keeps the keys distinct.
proof fn lemma_filter_keeps_unique(store: Seq<DhtValue>, keep: spec_fn(DhtValue) -> bool)
    requires
        forall|a: int, b: int| 0 <= a < b < store.len() ==> #[trigger] store[a].key@ != #[trigger] store[b].key@,
    ensures
        forall|a: int, b: int|
            0 <= a < b < store.filter(keep).len() ==> #[trigger] store.filter(keep)[a].key@
                != #[trigger] store.filter(keep)[b].key@,
    decreases store.len(),
{
    reveal(Seq::filter);
    if store.len() > 0 {
        let rest = store.drop_last();
        lemma_filter_keeps_unique(rest, keep);
        let f = rest.filter(keep);
        if keep(store.last()) {
            assert forall|a: int| 0 <= a < f.len() implies #[trigger] f[a].key@ != store.last().key@ by {
                rest.lemma_filter_contains_rev(keep, f[a]);
                let k = choose|k: int| 0 <= k < rest.len() && rest[k] == f[a];
                assert(store[k] == rest[k]);
            }
            assert(store.filter(keep) == f.push(store.last()));
        }
    }
}

/// A value stored is found again under its key, and storing leaves the
/// other keys' values alone (read back through `spec_lookup`).
pub proof fn lemma_store_then_lookup(store: Seq<DhtValue>, entry: DhtValue)
    requires
        forall|a: int, b: int| 0 <= a < b < store.len() ==> #[trigger] store[a].key@ != #[trigger] store[b].key@,
        forall|k: int| 0 <= k < store.len() ==> #[trigger] store[k].key@ != entry.key@,
    ensures
        spec_lookup(store.push(entry), entry.key@) == Some(entry),
{
    assert(store.push(entry).last() == entry);
}

} // verus!
