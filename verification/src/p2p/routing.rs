//! Message routing: the messages of the peer-to-peer protocol, the cache
//! that recognises messages seen before, the routing table, and the choice
//! between sending directly, relaying through the nearest peers and
//! broadcasting. Sending itself is left to the caller.

use vstd::prelude::*;
use crate::common::entropy::random_u64;
use crate::common::net::SocketAddr;
use crate::common::time::Timestamp;
use crate::p2p::dht::{Dht, DhtKey, PeerInfo, spec_start_bucket, gather_down, gather_up};
use crate::p2p::node::NodeId;

verus! {

/// A peer's identity and address.
#[derive(Debug, Clone, Copy)]
pub struct NodeInfo {
    pub node_id: NodeId,
    pub address: SocketAddr,
}

/// What a message asks or carries.
#[derive(Debug, Clone)]
pub enum P2PMessageType {
    Ping,
    Pong,
    FindNode(NodeId),
    FoundNode(Vec<NodeInfo>),
    FindValue(DhtKey),
    FoundValue { key: DhtKey, value: Vec<u8> },
    Store { key: DhtKey, value: Vec<u8>, ttl: u64 },
    Relay { target: NodeId, data: Vec<u8> },
    Application(Vec<u8>),
}

/// A message between peers; `to` is `None` for a broadcast, and the time is
/// in seconds since the UNIX epoch.
#[derive(Debug, Clone)]
pub struct P2PMessage {
    pub message_id: u64,
    pub from: NodeId,
    pub to: Option<NodeId>,
    pub message_type: P2PMessageType,
    pub timestamp: u64,
    pub signature: Option<Vec<u8>>,
}

impl P2PMessage {
    /// An unsigned message with the given identifier and time.
    pub fn with_id(
        message_id: u64,
        from: NodeId,
        to: Option<NodeId>,
        message_type: P2PMessageType,
        timestamp: u64,
    ) -> (m: P2PMessage)
        ensures
            m == (P2PMessage { message_id, from, to, message_type, timestamp, signature: None }),
    {
        P2PMessage { message_id, from, to, message_type, timestamp, signature: None }
    }

    /// An unsigned message with a random identifier, stamped now.
    pub fn new(from: NodeId, to: Option<NodeId>, message_type: P2PMessageType) -> (m: P2PMessage)
        ensures
            m.from == from,
            m.to == to,
            m.message_type == message_type,
            m.signature is None,
    {
        let timestamp = Timestamp::now().duration_since_epoch().as_secs();
        Self::with_id(random_u64(), from, to, message_type, timestamp)
    }
}

/// What is known of a peer; its reliability is in thousandths.
#[derive(Debug, Clone, Copy)]
pub struct RoutingEntry {
    pub node_id: NodeId,
    pub address: SocketAddr,
    pub last_seen: u64,
    pub reliability: u32,
    pub latency_ms: Option<u64>,
}

/// Why a message could not be routed.
#[derive(Debug)]
pub enum RoutingError {
    UnknownDestination(NodeId),
    MessageExpired,
    InvalidMessage(String),
}

/// How a message leaves this node.
#[derive(Debug)]
pub enum RouteDecision {
    /// Straight to the addressee, who is connected.
    Direct(NodeId),
    /// Through these peers, the nearest known to the addressee.
    Relay(Vec<PeerInfo>),
    /// To every connected peer.
    Broadcast,
}

/// How many cached messages leave the cache when it is full.
pub const CACHE_EVICTION: usize = 10;

/// The number of peers a relayed message is offered to.
pub const RELAY_FANOUT: usize = 5;

/// The cache after the oldest messages leave a full cache.
pub open spec fn spec_evict(cache: Seq<P2PMessage>, max: nat) -> Seq<P2PMessage> {
    if cache.len() >= max {
        if cache.len() <= CACHE_EVICTION { Seq::empty() } else { cache.skip(CACHE_EVICTION as int) }
    } else {
        cache
    }
}

/// The cache after `m` is added: a full cache drops its oldest messages,
/// an earlier message with the same identifier is replaced, and `m` comes
/// last.
pub open spec fn spec_cache_add(cache: Seq<P2PMessage>, max: nat, m: P2PMessage) -> Seq<P2PMessage> {
    spec_evict(cache, max).filter(|x: P2PMessage| x.message_id != m.message_id).push(m)
}

/// Whether a message with identifier `id` is cached.
pub open spec fn spec_seen(cache: Seq<P2PMessage>, id: u64) -> bool {
    exists|i: int| 0 <= i < cache.len() && #[trigger] cache[i].message_id == id
}

/// The position of the first entry for `id` in the routing table.
pub open spec fn entry_index(table: Seq<RoutingEntry>, id: Seq<u8>) -> Option<int>
    decreases table.len(),
{
    if table.len() == 0 {
        None
    } else if table[0].node_id.0@ == id {
        Some(0)
    } else {
        match entry_index(table.skip(1), id) {
            Some(i) => Some(i + 1),
            None => None,
        }
    }
}

/// The routing table after `entry` is recorded: it replaces the entry for
/// the same peer, or is appended.
pub open spec fn spec_update_peer(table: Seq<RoutingEntry>, entry: RoutingEntry) -> Seq<RoutingEntry> {
    match entry_index(table, entry.node_id.0@) {
        Some(i) => table.update(i, entry),
        None => table.push(entry),
    }
}

/// The nearest known peers to the key `key`, as the DHT finds them.
pub open spec fn spec_relay_peers(dht: &Dht, key: Seq<u8>, count: nat) -> Seq<PeerInfo> {
    gather_down(
        dht.spec_buckets(),
        spec_start_bucket(dht.spec_node_id().0@, key) as int,
        count,
        gather_up(dht.spec_buckets(), spec_start_bucket(dht.spec_node_id().0@, key) as int, count, Seq::empty()),
    )
}

/// The DHT key of a node: the first twenty bytes of its identifier.
fn node_key(id: &NodeId) -> (k: [u8; 20])
    ensures
        k@ == spec_node_key(*id),
{
    let mut k = [0u8; 20];
    let mut i: usize = 0;
    while i < 20
        invariant
            i <= 20,
            id.0@.len() == 32,
            forall|j: int| 0 <= j < i ==> k@[j] == id.0@[j],
        decreases 20 - i,
    {
        k.set(i, id.0[i]);
        i = i + 1;
    }
    assert(k@ =~= spec_node_key(*id));
    k
}

/// The DHT key of a node: the first twenty bytes of its identifier.
pub open spec fn spec_node_key(id: NodeId) -> Seq<u8> {
    id.0@.take(20)
}

/// The routing table, the cache of messages seen, and the cache's limit.
pub struct MessageRouter {
    routing_table: Vec<RoutingEntry>,
    message_cache: Vec<P2PMessage>,
    max_cache_size: usize,
}

/// Whether `e` is not the entry for `id`.
fn other_peer(e: &RoutingEntry, id: &NodeId) -> (b: bool)
    ensures
        b == (e.node_id.0@ != id.0@),
{
    !e.node_id.same_id(id)
}

proof fn lemma_entry_index_found(table: Seq<RoutingEntry>, id: Seq<u8>, i: int)
    requires
        0 <= i < table.len(),
        table[i].node_id.0@ == id,
        forall|j: int| 0 <= j < i ==> table[j].node_id.0@ != id,
    ensures
        entry_index(table, id) == Some(i),
    decreases i,
{
    if i > 0 {
        lemma_entry_index_found(table.skip(1), id, i - 1);
    }
}

proof fn lemma_entry_index_absent(table: Seq<RoutingEntry>, id: Seq<u8>)
    requires
        forall|j: int| 0 <= j < table.len() ==> table[j].node_id.0@ != id,
    ensures
        entry_index(table, id) is None,
    decreases table.len(),
{
    if table.len() > 0 {
        lemma_entry_index_absent(table.skip(1), id);
    }
}

/// The position `entry_index` gives is in range and holds the entry.
proof fn lemma_entry_index_sound(table: Seq<RoutingEntry>, id: Seq<u8>)
    ensures
        entry_index(table, id) matches Some(i) ==> 0 <= i < table.len() && table[i].node_id.0@ == id,
    decreases table.len(),
{
    if table.len() > 0 {
        lemma_entry_index_sound(table.skip(1), id);
    }
}

impl MessageRouter {
    /// The routing table.
    pub closed spec fn spec_table(&self) -> Seq<RoutingEntry> {
        self.routing_table@
    }

    /// The cached messages, oldest first.
    pub closed spec fn spec_cache(&self) -> Seq<P2PMessage> {
        self.message_cache@
    }

    /// The cache's limit.
    pub closed spec fn spec_max_cache_size(&self) -> nat {
        self.max_cache_size as nat
    }

    /// An empty router whose cache holds about `max_cache_size` messages.
    pub fn new(max_cache_size: usize) -> (r: MessageRouter)
        ensures
            r.spec_table().len() == 0,
            r.spec_cache().len() == 0,
            r.spec_max_cache_size() == max_cache_size,
    {
        MessageRouter { routing_table: Vec::new(), message_cache: Vec::new(), max_cache_size }
    }

    /// Adds `message` to the cache; see `spec_cache_add`.
    fn cache_message(&mut self, message: P2PMessage)
        ensures
            final(self).spec_cache() == spec_cache_add(old(self).spec_cache(), old(self).spec_max_cache_size(), message),
            final(self).spec_table() == old(self).spec_table(),
            final(self).spec_max_cache_size() == old(self).spec_max_cache_size(),
    {
        let mut old_cache: Vec<P2PMessage> = Vec::new();
        std::mem::swap(&mut old_cache, &mut self.message_cache);
        let ghost before = old_cache@;
        if old_cache.len() >= self.max_cache_size {
            if old_cache.len() <= CACHE_EVICTION {
                old_cache.clear();
            } else {
                let mut n: usize = 0;
                while n < CACHE_EVICTION
                    invariant
                        n <= CACHE_EVICTION,
                        before.len() > CACHE_EVICTION,
                        old_cache@ == before.skip(n as int),
                    decreases CACHE_EVICTION - n,
                {
                    old_cache.remove(0);
                    assert(old_cache@ =~= before.skip(n as int + 1));
                    n = n + 1;
                }
            }
        }
        let ghost evicted = old_cache@;
        assert(evicted =~= spec_evict(before, self.max_cache_size as nat));
        let id = message.message_id;
        let ghost keep = |x: P2PMessage| x.message_id != id;
        let mut kept: Vec<P2PMessage> = Vec::new();
        let ghost n = evicted.len();
        while old_cache.len() > 0
            invariant
                old_cache@.len() <= n,
                n == evicted.len(),
                old_cache@ == evicted.skip(n - old_cache@.len()),
                keep == (|x: P2PMessage| x.message_id != id),
                kept@ == evicted.take(n - old_cache@.len()).filter(keep),
            decreases old_cache@.len(),
        {
            let ghost done = n - old_cache@.len();
            let x = old_cache.remove(0);
            proof {
                assert(x == evicted[done]);
                assert(old_cache@ =~= evicted.skip(n - old_cache@.len()));
                assert(evicted.take(done + 1).drop_last() =~= evicted.take(done));
                assert(evicted.take(done + 1).last() == evicted[done]);
                reveal(Seq::filter);
            }
            if x.message_id != id {
                kept.push(x);
            }
        }
        proof {
            assert(evicted.take(n as int) =~= evicted);
        }
        kept.push(message);
        self.message_cache = kept;
    }

    /// Whether a message with identifier `message_id` is cached.
    pub fn has_seen(&self, message_id: u64) -> (b: bool)
        ensures
            b == spec_seen(self.spec_cache(), message_id),
    {
        let mut i: usize = 0;
        while i < self.message_cache.len()
            invariant
                i <= self.message_cache@.len(),
                forall|j: int| 0 <= j < i ==> #[trigger] self.message_cache@[j].message_id != message_id,
            decreases self.message_cache@.len() - i,
        {
            if self.message_cache[i].message_id == message_id {
                return true;
            }
            i = i + 1;
        }
        false
    }

    /// Records what is known of a peer, replacing its earlier entry.
    pub fn update_peer(&mut self, entry: RoutingEntry)
        ensures
            final(self).spec_table() == spec_update_peer(old(self).spec_table(), entry),
            final(self).spec_cache() == old(self).spec_cache(),
            final(self).spec_max_cache_size() == old(self).spec_max_cache_size(),
    {
        let mut i: usize = 0;
        while i < self.routing_table.len()
            invariant
                i <= self.routing_table@.len(),
                self.routing_table@ == old(self).routing_table@,
                self.message_cache@ == old(self).message_cache@,
                self.max_cache_size == old(self).max_cache_size,
                forall|j: int| 0 <= j < i ==> self.routing_table@[j].node_id.0@ != entry.node_id.0@,
            decreases self.routing_table@.len() - i,
        {
            if self.routing_table[i].node_id.same_id(&entry.node_id) {
                proof {
                    lemma_entry_index_found(self.routing_table@, entry.node_id.0@, i as int);
                }
                self.routing_table.set(i, entry);
                return;
            }
            i = i + 1;
        }
        proof {
            lemma_entry_index_absent(self.routing_table@, entry.node_id.0@);
        }
        self.routing_table.push(entry);
    }

    /// The entry for `node_id`, if any.
    pub fn get_peer(&self, node_id: &NodeId) -> (r: Option<RoutingEntry>)
        ensures
            r == match entry_index(self.spec_table(), node_id.0@) {
                Some(i) => Some(self.spec_table()[i]),
                None => None::<RoutingEntry>,
            },
    {
        let mut i: usize = 0;
        while i < self.routing_table.len()
            invariant
                i <= self.routing_table@.len(),
                forall|j: int| 0 <= j < i ==> self.routing_table@[j].node_id.0@ != node_id.0@,
            decreases self.routing_table@.len() - i,
        {
            if self.routing_table[i].node_id.same_id(node_id) {
                proof {
                    lemma_entry_index_found(self.routing_table@, node_id.0@, i as int);
                }
                return Some(self.routing_table[i]);
            }
            i = i + 1;
        }
        proof {
            lemma_entry_index_absent(self.routing_table@, node_id.0@);
        }
        None
    }

    /// Caches `message` and decides how it leaves: directly to a connected
    /// addressee, through the five peers the DHT knows nearest to an
    /// addressee that is not connected (keyed by the first twenty bytes of
    /// its identifier), or to everyone when it has no addressee.
    /// `addressee_connected` says whether the addressee has a connection.
    pub fn route(&mut self, message: P2PMessage, addressee_connected: bool, dht: &Dht) -> (r: Result<RouteDecision, RoutingError>)
        requires
            dht.wf(),
        ensures
            final(self).spec_cache() == spec_cache_add(old(self).spec_cache(), old(self).spec_max_cache_size(), message),
            final(self).spec_table() == old(self).spec_table(),
            final(self).spec_max_cache_size() == old(self).spec_max_cache_size(),
            match message.to {
                Some(target) => if addressee_connected {
                    r matches Ok(RouteDecision::Direct(t)) && t == target
                } else {
                    r matches Ok(RouteDecision::Relay(peers)) && peers@ == spec_relay_peers(
                        dht,
                        spec_node_key(target),
                        RELAY_FANOUT as nat,
                    )
                },
                None => r matches Ok(RouteDecision::Broadcast),
            },
    {
        let to = message.to;
        self.cache_message(message);
        match to {
            Some(target) => {
                if addressee_connected {
                    Ok(RouteDecision::Direct(target))
                } else {
                    let key = DhtKey(node_key(&target));
                    Ok(RouteDecision::Relay(dht.find_closest_peers(&key, RELAY_FANOUT)))
                }
            },
            None => Ok(RouteDecision::Broadcast),
        }
    }
}

/// A message that was cached is recognised as seen: after `route`,
/// `has_seen` of its identifier holds.
pub proof fn lemma_cached_is_seen(cache: Seq<P2PMessage>, max: nat, m: P2PMessage)
    ensures
        spec_seen(spec_cache_add(cache, max, m), m.message_id),
{
    let c = spec_cache_add(cache, max, m);
    assert(c[c.len() - 1] == m);
}

/// What `update_peer` records, `get_peer` gives back for that peer; the
/// entries of other peers are unchanged.
pub proof fn lemma_update_then_get(table: Seq<RoutingEntry>, entry: RoutingEntry, other: Seq<u8>)
    requires
        other != entry.node_id.0@,
    ensures
        ({
            let t = spec_update_peer(table, entry);
            &&& entry_index(t, entry.node_id.0@) matches Some(i) && t[i] == entry
            &&& entry_index(t, other) == entry_index(table, other)
        }),
    decreases table.len(),
{
    let id = entry.node_id.0@;
    let t = spec_update_peer(table, entry);
    if table.len() == 0 {
        assert(t =~= seq![entry]);
        assert(t.skip(1) =~= Seq::<RoutingEntry>::empty());
        assert(entry_index(t.skip(1), other) is None);
        assert(entry_index(t, id) == Some(0int));
        assert(entry_index(t, other) is None);
    } else {
        let rest = table.skip(1);
        lemma_update_then_get(rest, entry, other);
        lemma_entry_index_sound(rest, id);
        if table[0].node_id.0@ == id {
            assert(t == table.update(0, entry));
            assert(t.skip(1) =~= rest);
            assert(entry_index(t, id) == Some(0int));
            assert(entry_index(t, other) == entry_index(table, other));
        } else {
            let tr = spec_update_peer(rest, entry);
            match entry_index(rest, id) {
                Some(j) => {
                    assert(entry_index(table, id) == Some(j + 1));
                    assert(t == table.update(j + 1, entry));
                    assert(t.skip(1) =~= rest.update(j, entry));
                },
                None => {
                    assert(entry_index(table, id) is None);
                    assert(t == table.push(entry));
                    assert(t.skip(1) =~= rest.push(entry));
                },
            }
            assert(t.skip(1) == tr);
            assert(t[0] == table[0]);
            lemma_entry_index_sound(tr, id);
            let i = entry_index(tr, id)->0;
            assert(t[i + 1] == tr[i]);
            assert(entry_index(t, id) == Some(i + 1));
            if table[0].node_id.0@ == other {
                assert(entry_index(t, other) == Some(0int));
            } else {
                assert(entry_index(t, other) == entry_index(table, other));
            }
        }
    }
}
} // verus!
