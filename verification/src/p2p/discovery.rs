//! Peer discovery: the peers found so far, without repeats, lookups in the
//! DHT, and the switch of the LAN beacon. Joining multicast groups and
//! talking to bootstrap nodes is left to the caller.

use vstd::prelude::*;
use crate::common::net::{IpAddr, SocketAddr};
use crate::common::text::str_eq;
use crate::common::time::Timestamp;
use crate::p2p::dht::{Dht, DhtKey, PeerInfo, spec_start_bucket, gather_down, gather_up};
use crate::p2p::node::NodeId;

verus! {

/// How a peer was found.
#[derive(Debug, Clone, Copy, PartialEq, Eq, Structural, Hash)]
pub enum DiscoveryMethod {
    Bootstrap,
    Dht,
    Multicast,
    Manual,
}

/// How discovery runs.
#[derive(Debug, Clone)]
pub struct DiscoveryConfig {
    pub bootstrap_nodes: Vec<SocketAddr>,
    pub enable_multicast: bool,
    pub multicast_addresses: Vec<SocketAddr>,
    pub discovery_interval_seconds: u64,
    pub max_peers_to_find: usize,
}

/// The mDNS group address 224.0.0.251:5353.
pub open spec fn mdns_v4() -> SocketAddr {
    SocketAddr { ip: IpAddr::V4(0xE00000FB), port: 5353 }
}

/// The mDNS group address [ff02::fb]:5353.
pub open spec fn mdns_v6() -> SocketAddr {
    SocketAddr { ip: IpAddr::V6(0xff02_0000_0000_0000_0000_0000_0000_00fb), port: 5353 }
}

impl Default for DiscoveryConfig {
    /// No bootstrap nodes, multicast on the two mDNS groups, a round every
    /// minute, up to fifty peers.
    fn default() -> (c: DiscoveryConfig)
        ensures
            c.bootstrap_nodes@.len() == 0,
            c.enable_multicast,
            c.multicast_addresses@ == seq![mdns_v4(), mdns_v6()],
            c.discovery_interval_seconds == 60,
            c.max_peers_to_find == 50,
    {
        let mut multicast_addresses: Vec<SocketAddr> = Vec::new();
        multicast_addresses.push(SocketAddr { ip: IpAddr::V4(0xE00000FB), port: 5353 });
        multicast_addresses.push(SocketAddr { ip: IpAddr::V6(0xff02_0000_0000_0000_0000_0000_0000_00fb), port: 5353 });
        assert(multicast_addresses@ =~= seq![mdns_v4(), mdns_v6()]);
        DiscoveryConfig {
            bootstrap_nodes: Vec::new(),
            enable_multicast: true,
            multicast_addresses,
            discovery_interval_seconds: 60,
            max_peers_to_find: 50,
        }
    }
}

/// A peer that was found; times are seconds since the UNIX epoch.
#[derive(Debug, Clone)]
pub struct DiscoveredPeer {
    pub node_id: NodeId,
    pub address: SocketAddr,
    pub discovery_method: DiscoveryMethod,
    pub discovered_at: u64,
    pub last_seen: Option<u64>,
    pub version: Option<String>,
}

/// The view of an optional version text.
pub open spec fn version_view(v: Option<String>) -> Option<Seq<char>> {
    match v {
        Some(s) => Some(s@),
        None => None,
    }
}

/// Whether two discovery records are the same in every field.
pub open spec fn same_peer(a: DiscoveredPeer, b: DiscoveredPeer) -> bool {
    &&& a.node_id.0@ == b.node_id.0@
    &&& a.address == b.address
    &&& a.discovery_method == b.discovery_method
    &&& a.discovered_at == b.discovered_at
    &&& a.last_seen == b.last_seen
    &&& version_view(a.version) == version_view(b.version)
}

/// Whether `peers` holds a record the same as `p`.
pub open spec fn holds_peer(peers: Seq<DiscoveredPeer>, p: DiscoveredPeer) -> bool {
    exists|i: int| 0 <= i < peers.len() && same_peer(#[trigger] peers[i], p)
}

/// No two records are the same.
pub open spec fn no_repeats(peers: Seq<DiscoveredPeer>) -> bool {
    forall|i: int, j: int| 0 <= i < j < peers.len() ==> !same_peer(#[trigger] peers[i], #[trigger] peers[j])
}

/// The record of a peer added by hand at `now`.
pub open spec fn manual_peer(node_id: NodeId, address: SocketAddr, now: u64) -> DiscoveredPeer {
    DiscoveredPeer {
        node_id,
        address,
        discovery_method: DiscoveryMethod::Manual,
        discovered_at: now,
        last_seen: Some(now),
        version: None,
    }
}

/// Whether two discovery records are the same in every field.
fn same_record(a: &DiscoveredPeer, b: &DiscoveredPeer) -> (r: bool)
    ensures
        r == same_peer(*a, *b),
{
    if !a.node_id.same_id(&b.node_id) || a.address != b.address || a.discovery_method != b.discovery_method
        || a.discovered_at != b.discovered_at || a.last_seen != b.last_seen {
        return false;
    }
    match (&a.version, &b.version) {
        (Some(x), Some(y)) => str_eq(x.as_str(), y.as_str()),
        (None, None) => true,
        _ => false,
    }
}

/// The peers found, the discovery settings and the DHT to search.
pub struct PeerDiscovery {
    config: DiscoveryConfig,
    discovered_peers: Vec<DiscoveredPeer>,
    dht: Option<Dht>,
}

impl PeerDiscovery {
    /// No record repeats, and a DHT, once given, has its buckets.
    #[verifier::type_invariant]
    spec fn well_formed(self) -> bool {
        &&& no_repeats(self.discovered_peers@)
        &&& (self.dht matches Some(d) ==> d.wf())
    }

    /// The discovery settings.
    pub closed spec fn spec_config(&self) -> DiscoveryConfig {
        self.config
    }

    /// The peers found, in the order they were found.
    pub closed spec fn spec_peers(&self) -> Seq<DiscoveredPeer> {
        self.discovered_peers@
    }

    /// The DHT to search, if one was given.
    pub closed spec fn spec_dht(&self) -> Option<Dht> {
        self.dht
    }

    /// No peers found and no DHT yet.
    pub fn new(config: DiscoveryConfig) -> (d: PeerDiscovery)
        ensures
            d.spec_config() == config,
            d.spec_peers().len() == 0,
            d.spec_dht() is None,
    {
        PeerDiscovery { config, discovered_peers: Vec::new(), dht: None }
    }

    /// The discovery settings: the bootstrap nodes to ask and the multicast
    /// groups to join when the service starts.
    pub fn config(&self) -> (c: &DiscoveryConfig)
        ensures
            *c == self.spec_config(),
    {
        &self.config
    }

    /// Gives the DHT to search.
    pub fn set_dht(&mut self, dht: Dht)
        requires
            dht.wf(),
        ensures
            final(self).spec_dht() == Some(dht),
            final(self).spec_peers() == old(self).spec_peers(),
            final(self).spec_config() == old(self).spec_config(),
    {
        proof {
            use_type_invariant(&*self);
        }
        self.dht = Some(dht);
    }

    /// Records the peer `node_id` at `address`, added by hand at `now`,
    /// unless the same record is already there.
    pub fn add_peer_at(&mut self, node_id: NodeId, address: SocketAddr, now: u64)
        ensures
            final(self).spec_config() == old(self).spec_config(),
            final(self).spec_dht() == old(self).spec_dht(),
            final(self).spec_peers() == if holds_peer(old(self).spec_peers(), manual_peer(node_id, address, now)) {
                old(self).spec_peers()
            } else {
                old(self).spec_peers().push(manual_peer(node_id, address, now))
            },
    {
        proof {
            use_type_invariant(&*self);
        }
        let peer = DiscoveredPeer {
            node_id,
            address,
            discovery_method: DiscoveryMethod::Manual,
            discovered_at: now,
            last_seen: Some(now),
            version: None,
        };
        let mut i: usize = 0;
        while i < self.discovered_peers.len()
            invariant
                i <= self.discovered_peers@.len(),
                peer == manual_peer(node_id, address, now),
                forall|j: int| 0 <= j < i ==> !same_peer(#[trigger] self.discovered_peers@[j], peer),
            decreases self.discovered_peers@.len() - i,
        {
            if same_record(&self.discovered_peers[i], &peer) {
                return;
            }
            i = i + 1;
        }
        let mut peers: Vec<DiscoveredPeer> = Vec::new();
        std::mem::swap(&mut peers, &mut self.discovered_peers);
        let ghost before = peers@;
        peers.push(peer);
        proof {
            assert forall|a: int, b: int| 0 <= a < b < peers@.len() implies !same_peer(
                #[trigger] peers@[a],
                #[trigger] peers@[b],
            ) by {
                if b == peers@.len() - 1 {
                    assert(!same_peer(before[a], peer));
                    assert(peers@[a] == before[a]);
                } else {
                    assert(peers@[a] == before[a] && peers@[b] == before[b]);
                }
            }
        }
        self.discovered_peers = peers;
    }

    /// Records the peer `node_id` at `address`, added by hand now.
    pub fn add_peer(&mut self, node_id: NodeId, address: SocketAddr)
        ensures
            final(self).spec_config() == old(self).spec_config(),
            final(self).spec_dht() == old(self).spec_dht(),
            exists|now: u64| final(self).spec_peers() == if holds_peer(old(self).spec_peers(), manual_peer(node_id, address, now)) {
                old(self).spec_peers()
            } else {
                old(self).spec_peers().push(manual_peer(node_id, address, now))
            },
    {
        let now = Timestamp::now().duration_since_epoch().as_secs();
        self.add_peer_at(node_id, address, now);
    }

    /// The peers found, in the order they were found.
    pub fn get_discovered_peers(&self) -> (peers: Vec<DiscoveredPeer>)
        ensures
            peers@.len() == self.spec_peers().len(),
            forall|i: int| 0 <= i < peers@.len() ==> same_peer(#[trigger] peers@[i], self.spec_peers()[i]),
    {
        let mut peers: Vec<DiscoveredPeer> = Vec::new();
        let mut i: usize = 0;
        while i < self.discovered_peers.len()
            invariant
                i <= self.discovered_peers@.len(),
                peers@.len() == i,
                forall|j: int| 0 <= j < i ==> same_peer(#[trigger] peers@[j], self.discovered_peers@[j]),
            decreases self.discovered_peers@.len() - i,
        {
            let p = &self.discovered_peers[i];
            let version = match &p.version {
                Some(v) => Some(v.clone()),
                None => None,
            };
            peers.push(DiscoveredPeer {
                node_id: p.node_id,
                address: p.address,
                discovery_method: p.discovery_method,
                discovered_at: p.discovered_at,
                last_seen: p.last_seen,
                version,
            });
            i = i + 1;
        }
        peers
    }

    /// Up to `count` peers the DHT knows nearest to `key`; none before a
    /// DHT is given.
    pub fn find_peers_dht(&self, key: &DhtKey, count: usize) -> (r: Result<Vec<PeerInfo>, DiscoveryError>)
        ensures
            match self.spec_dht() {
                Some(d) => r matches Ok(peers) && peers@ == gather_down(
                    d.spec_buckets(),
                    spec_start_bucket(d.spec_node_id().0@, key.0@) as int,
                    count as nat,
                    gather_up(
                        d.spec_buckets(),
                        spec_start_bucket(d.spec_node_id().0@, key.0@) as int,
                        count as nat,
                        Seq::empty(),
                    ),
                ),
                None => r matches Ok(peers) && peers@.len() == 0,
            },
    {
        proof {
            use_type_invariant(self);
        }
        match &self.dht {
            Some(d) => Ok(d.find_closest_peers(key, count)),
            None => Ok(Vec::new()),
        }
    }

    /// Whether a peer with identifier `node_id` was found.
    pub fn has_discovered(&self, node_id: &NodeId) -> (b: bool)
        ensures
            b == exists|i: int| 0 <= i < self.spec_peers().len() && #[trigger] self.spec_peers()[i].node_id.0@ == node_id.0@,
    {
        let mut i: usize = 0;
        while i < self.discovered_peers.len()
            invariant
                i <= self.discovered_peers@.len(),
                forall|j: int| 0 <= j < i ==> #[trigger] self.discovered_peers@[j].node_id.0@ != node_id.0@,
            decreases self.discovered_peers@.len() - i,
        {
            if self.discovered_peers[i].node_id.same_id(node_id) {
                return true;
            }
            i = i + 1;
        }
        false
    }
}

/// Why discovery failed.
#[derive(Debug)]
pub enum DiscoveryError {
    Io(std::io::Error),
    Network(String),
    Dht(String),
}

/// The beacon that announces this node on the LAN, and whether it runs.
#[derive(Debug, Clone, Copy)]
pub struct MulticastBeacon {
    pub local_node_id: NodeId,
    pub port: u16,
    pub running: bool,
}

impl MulticastBeacon {
    /// A stopped beacon for `local_node_id` on `port`.
    pub fn new(local_node_id: NodeId, port: u16) -> (b: MulticastBeacon)
        ensures
            b == (MulticastBeacon { local_node_id, port, running: false }),
    {
        MulticastBeacon { local_node_id, port, running: false }
    }

    /// Starts the beacon.
    pub fn start(&mut self) -> (r: Result<(), DiscoveryError>)
        ensures
            r is Ok,
            *final(self) == (MulticastBeacon { running: true, ..*old(self) }),
    {
        self.running = true;
        Ok(())
    }

    /// Stops the beacon.
    pub fn stop(&mut self)
        ensures
            *final(self) == (MulticastBeacon { running: false, ..*old(self) }),
    {
        self.running = false;
    }
}

/// Adding a peer by hand makes it found, and adding the same record again
/// changes nothing.
pub proof fn lemma_add_peer_idempotent(peers: Seq<DiscoveredPeer>, p: DiscoveredPeer)
    ensures
        ({
            let once = if holds_peer(peers, p) { peers } else { peers.push(p) };
            &&& holds_peer(once, p)
            &&& (if holds_peer(once, p) { once } else { once.push(p) }) == once
        }),
{
    let once = if holds_peer(peers, p) { peers } else { peers.push(p) };
    if !holds_peer(peers, p) {
        assert(same_peer(once[once.len() - 1], p));
    }
}

} // verus!
