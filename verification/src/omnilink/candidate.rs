//! ICE candidates, their priorities and candidate pairs.

use vstd::prelude::*;
use crate::common::entropy::random_u32;
use crate::common::net::SocketAddr;
use crate::common::text::{decimal, with_decimal_suffix};

verus! {

/// The kind of an ICE candidate.
#[derive(Debug, Clone, Copy, PartialEq, Eq, Structural, PartialOrd, Ord)]
pub enum CandidateType {
    /// A local interface address.
    Host,
    /// The address a NAT maps the host to, learnt from a STUN server.
    ServerReflexive,
    /// An address learnt from the peer.
    PeerReflexive,
    /// An address on a TURN relay.
    Relay,
}

/// An ICE candidate priority: type preference in the top byte, local
/// preference in the two bytes below, component in the low byte.
#[derive(Debug, Clone, Copy, PartialEq, Eq, Structural)]
pub struct CandidatePriority(pub u32);

/// The priority made of the low byte of `type_preference`, `local_preference`
/// and `component`.
pub open spec fn spec_priority(type_preference: u16, local_preference: u16, component: u8) -> u32 {
    ((type_preference % 256) * 0x100_0000 + local_preference * 0x100 + component) as u32
}

impl CandidatePriority {
    /// The priority with the given parts; only the low byte of the type
    /// preference fits.
    pub fn from_parts(type_preference: u16, local_preference: u16, component: u8) -> (p: CandidatePriority)
        ensures
            p.0 == spec_priority(type_preference, local_preference, component),
    {
        let priority = ((type_preference as u32) << 24u32) | ((local_preference as u32) << 8u32)
            | (component as u32);
        proof {
            let t = type_preference as u32;
            let l = local_preference as u32;
            let c = component as u32;
            assert(((t << 24u32) | (l << 8u32) | c) == ((t % 256) * 0x100_0000 + l * 0x100 + c) as u32)
                by (bit_vector)
                requires
                    t < 0x10000,
                    l < 0x10000,
                    c < 0x100,
            ;
        }
        CandidatePriority(priority)
    }

    /// The type preference: the top byte.
    pub fn type_preference(&self) -> (t: u16)
        ensures
            t == self.0 / 0x100_0000,
    {
        let p = self.0;
        proof {
            assert(((p >> 24u32) & 0xFFFFu32) == p / 0x100_0000) by (bit_vector);
        }
        ((p >> 24u32) & 0xFFFF) as u16
    }

    /// The local preference: the two bytes below the top.
    pub fn local_preference(&self) -> (l: u16)
        ensures
            l == (self.0 / 0x100) % 0x10000,
    {
        let p = self.0;
        proof {
            assert(((p >> 8u32) & 0xFFFFu32) == (p / 0x100) % 0x10000) by (bit_vector);
        }
        ((p >> 8u32) & 0xFFFF) as u16
    }

    /// The component: the low byte.
    pub fn component(&self) -> (c: u8)
        ensures
            c == self.0 % 0x100,
    {
        let p = self.0;
        proof {
            assert((p & 0xFFu32) == p % 0x100) by (bit_vector);
        }
        (p & 0xFF) as u8
    }
}

/// Taking a priority apart gives back its parts (the type preference cut to
/// its low byte).
pub proof fn lemma_priority_parts(type_preference: u16, local_preference: u16, component: u8)
    ensures
        spec_priority(type_preference, local_preference, component) / 0x100_0000 == type_preference % 256,
        (spec_priority(type_preference, local_preference, component) / 0x100) % 0x10000
            == local_preference,
        spec_priority(type_preference, local_preference, component) % 0x100 == component,
{
    let t = (type_preference % 256) as int;
    let l = local_preference as int;
    let c = component as int;
    let p = t * 0x100_0000 + l * 0x100 + c;
    assert(p < 0x1_0000_0000);
    assert(p / 0x100_0000 == t);
    assert(p / 0x100 == t * 0x10000 + l);
    assert((t * 0x10000 + l) % 0x10000 == l);
    assert(p % 0x100 == c);
}

/// The transport of a candidate.
#[derive(Debug, Clone, Copy, PartialEq, Eq, Structural)]
pub enum Protocol {
    Udp,
    Tcp,
}

/// An ICE candidate.
#[derive(Debug)]
pub struct IceCandidate {
    pub candidate_type: CandidateType,
    pub address: SocketAddr,
    pub base_address: SocketAddr,
    pub protocol: Protocol,
    pub priority: CandidatePriority,
    pub component: u8,
    pub foundation: String,
    pub related_address: Option<SocketAddr>,
}

impl Clone for IceCandidate {
    /// An equal candidate.
    fn clone(&self) -> (c: Self)
        ensures
            c == *self,
    {
        IceCandidate {
            candidate_type: self.candidate_type,
            address: self.address,
            base_address: self.base_address,
            protocol: self.protocol,
            priority: self.priority,
            component: self.component,
            foundation: self.foundation.clone(),
            related_address: self.related_address,
        }
    }
}

/// The type preference of each candidate kind.
pub open spec fn spec_type_preference(t: CandidateType) -> u16 {
    match t {
        CandidateType::Host => 126,
        CandidateType::ServerReflexive => 100,
        CandidateType::PeerReflexive => 110,
        CandidateType::Relay => 1,
    }
}

/// The foundation prefix of each candidate kind.
pub open spec fn spec_foundation_prefix(t: CandidateType) -> Seq<char> {
    match t {
        CandidateType::Host => "host-"@,
        CandidateType::ServerReflexive => "srflx-"@,
        CandidateType::PeerReflexive => "prflx-"@,
        CandidateType::Relay => "relay-"@,
    }
}

/// `c` is a UDP candidate of kind `t` for `address`, `base` and
/// `component`, with the kind's priority and a foundation made of the kind's
/// prefix and a number.
pub open spec fn spec_made_candidate(
    c: IceCandidate,
    t: CandidateType,
    address: SocketAddr,
    base: SocketAddr,
    related: Option<SocketAddr>,
    component: u8,
) -> bool {
    &&& c.candidate_type == t
    &&& c.address == address
    &&& c.base_address == base
    &&& c.protocol == Protocol::Udp
    &&& c.priority.0 == spec_priority(spec_type_preference(t), 65535, component)
    &&& c.component == component
    &&& c.related_address == related
    &&& exists|n: u32| c.foundation@ == spec_foundation_prefix(t) + decimal(n as nat)
}

impl IceCandidate {
    fn make(
        candidate_type: CandidateType,
        address: SocketAddr,
        base_address: SocketAddr,
        related_address: Option<SocketAddr>,
        component: u8,
    ) -> (c: IceCandidate)
        ensures
            spec_made_candidate(c, candidate_type, address, base_address, related_address, component),
    {
        let (prefix, type_preference) = match candidate_type {
            CandidateType::Host => ("host-", 126u16),
            CandidateType::ServerReflexive => ("srflx-", 100u16),
            CandidateType::PeerReflexive => ("prflx-", 110u16),
            CandidateType::Relay => ("relay-", 1u16),
        };
        let n = random_u32();
        let foundation = with_decimal_suffix(prefix, n as u64);
        let c = IceCandidate {
            candidate_type,
            address,
            base_address,
            protocol: Protocol::Udp,
            priority: CandidatePriority::from_parts(type_preference, 65535, component),
            component,
            foundation,
            related_address,
        };
        assert(c.foundation@ == spec_foundation_prefix(candidate_type) + decimal(n as nat));
        c
    }

    /// A host candidate for the local address `address`.
    pub fn new_host(address: SocketAddr, component: u8) -> (c: IceCandidate)
        ensures
            spec_made_candidate(c, CandidateType::Host, address, address, None, component),
    {
        Self::make(CandidateType::Host, address, address, None, component)
    }

    /// A server reflexive candidate: `address` as seen by a STUN server for
    /// the local `base_address`.
    pub fn new_server_reflexive(address: SocketAddr, base_address: SocketAddr, component: u8) -> (c: IceCandidate)
        ensures
            spec_made_candidate(
                c,
                CandidateType::ServerReflexive,
                address,
                base_address,
                Some(base_address),
                component,
            ),
    {
        Self::make(CandidateType::ServerReflexive, address, base_address, Some(base_address), component)
    }

    /// A peer reflexive candidate: `address` as seen by the peer for the
    /// local `base_address`.
    pub fn new_peer_reflexive(address: SocketAddr, base_address: SocketAddr, component: u8) -> (c: IceCandidate)
        ensures
            spec_made_candidate(
                c,
                CandidateType::PeerReflexive,
                address,
                base_address,
                Some(base_address),
                component,
            ),
    {
        Self::make(CandidateType::PeerReflexive, address, base_address, Some(base_address), component)
    }

    /// A relay candidate: `address` on a TURN relay for the local `base_address`.
    pub fn new_relay(address: SocketAddr, base_address: SocketAddr, component: u8) -> (c: IceCandidate)
        ensures
            spec_made_candidate(c, CandidateType::Relay, address, base_address, Some(base_address), component),
    {
        Self::make(CandidateType::Relay, address, base_address, Some(base_address), component)
    }

    /// Whether this is a host candidate.
    pub fn is_host(&self) -> (b: bool)
        ensures
            b == (self.candidate_type == CandidateType::Host),
    {
        self.candidate_type == CandidateType::Host
    }

    /// Whether this is a server reflexive candidate.
    pub fn is_server_reflexive(&self) -> (b: bool)
        ensures
            b == (self.candidate_type == CandidateType::ServerReflexive),
    {
        self.candidate_type == CandidateType::ServerReflexive
    }

    /// Whether this is a peer reflexive candidate.
    pub fn is_peer_reflexive(&self) -> (b: bool)
        ensures
            b == (self.candidate_type == CandidateType::PeerReflexive),
    {
        self.candidate_type == CandidateType::PeerReflexive
    }

    /// Whether this is a relay candidate.
    pub fn is_relay(&self) -> (b: bool)
        ensures
            b == (self.candidate_type == CandidateType::Relay),
    {
        self.candidate_type == CandidateType::Relay
    }

    /// Whether two candidates are the same: the same address and component.
    pub fn same_candidate(&self, other: &IceCandidate) -> (b: bool)
        ensures
            b == (self.address == other.address && self.component == other.component),
    {
        self.address == other.address && self.component == other.component
    }

    /// Whether this candidate ranks above `other`: a higher priority.
    pub fn ranks_above(&self, other: &IceCandidate) -> (b: bool)
        ensures
            b == (self.priority.0 > other.priority.0),
    {
        self.priority.0 > other.priority.0
    }
}

/// The progress of a connectivity check.
#[derive(Debug, Clone, Copy, PartialEq, Eq, Structural)]
pub enum CheckState {
    Waiting,
    InProgress,
    Succeeded,
    Failed,
    Frozen,
}

/// A local and a remote candidate to check together.
#[derive(Debug)]
pub struct CandidatePair {
    pub local: IceCandidate,
    pub remote: IceCandidate,
    pub state: CheckState,
    pub connection_priority: u64,
}

impl Clone for CandidatePair {
    /// An equal pair.
    fn clone(&self) -> (c: Self)
        ensures
            c == *self,
    {
        CandidatePair {
            local: self.local.clone(),
            remote: self.remote.clone(),
            state: self.state,
            connection_priority: self.connection_priority,
        }
    }
}

/// The connection preference of a pair of candidate kinds: host pairs first,
/// then server reflexive pairs, then pairs with a peer reflexive side.
pub open spec fn spec_connection_priority(local: CandidateType, remote: CandidateType) -> u64 {
    if local == CandidateType::Host && remote == CandidateType::Host {
        1000
    } else if local == CandidateType::ServerReflexive && remote == CandidateType::ServerReflexive {
        900
    } else if local == CandidateType::PeerReflexive || remote == CandidateType::PeerReflexive {
        800
    } else {
        700
    }
}

/// The pair priority: half the largest `u64` times the greater candidate
/// priority, plus twice the smaller, plus one for component 1.
pub open spec fn spec_pair_priority(local: IceCandidate, remote: IceCandidate) -> int {
    let g = if local.priority.0 > remote.priority.0 { local.priority.0 } else { remote.priority.0 };
    let d = if local.priority.0 > remote.priority.0 { remote.priority.0 } else { local.priority.0 };
    0x7FFF_FFFF_FFFF_FFFF * g + 2 * d + if local.component == 1 { 1int } else { 0int }
}

impl CandidatePair {
    /// The frozen pair of `local` and `remote` that `new` makes.
    pub open spec fn spec_new(local: IceCandidate, remote: IceCandidate) -> CandidatePair {
        CandidatePair {
            local,
            remote,
            state: CheckState::Frozen,
            connection_priority: spec_connection_priority(local.candidate_type, remote.candidate_type),
        }
    }

    /// A frozen pair with the preference of its candidate kinds.
    pub fn new(local: IceCandidate, remote: IceCandidate) -> (p: CandidatePair)
        ensures
            p.local == local,
            p.remote == remote,
            p.state == CheckState::Frozen,
            p.connection_priority == spec_connection_priority(local.candidate_type, remote.candidate_type),
    {
        let connection_priority = if local.is_host() && remote.is_host() {
            1000
        } else if local.is_server_reflexive() && remote.is_server_reflexive() {
            900
        } else if local.is_peer_reflexive() || remote.is_peer_reflexive() {
            800
        } else {
            700
        };
        CandidatePair { local, remote, state: CheckState::Frozen, connection_priority }
    }

    /// The pair priority; defined where it fits in a `u64`, which needs the
    /// greater candidate priority to be at most 2. For candidates with real
    /// priorities the product overflows, so pairs are ranked by
    /// `wide_priority`, which computes the same number in 128 bits.
    pub fn calculate_priority(&self) -> (p: u64)
        requires
            spec_pair_priority(self.local, self.remote) <= u64::MAX,
        ensures
            p == spec_pair_priority(self.local, self.remote),
    {
        let (g, d) = if self.local.priority.0 > self.remote.priority.0 {
            (self.local.priority.0, self.remote.priority.0)
        } else {
            (self.remote.priority.0, self.local.priority.0)
        };
        let half: u64 = 0x7FFF_FFFF_FFFF_FFFF;
        proof {
            assert(half * (g as int) + 2 * (d as int) <= u64::MAX);
            assert(half * (g as int) <= u64::MAX);
        }
        let bonus: u64 = if self.local.component == 1 { 1 } else { 0 };
        half * (g as u64) + 2 * (d as u64) + bonus
    }

    /// The pair priority computed without overflow, so that any two pairs
    /// can be ranked.
    pub fn wide_priority(&self) -> (p: u128)
        ensures
            p == spec_pair_priority(self.local, self.remote),
    {
        let (g, d) = if self.local.priority.0 > self.remote.priority.0 {
            (self.local.priority.0, self.remote.priority.0)
        } else {
            (self.remote.priority.0, self.local.priority.0)
        };
        let half: u128 = 0x7FFF_FFFF_FFFF_FFFF;
        proof {
            assert(half * (g as int) <= 0x7FFF_FFFF_FFFF_FFFF * 0xFFFF_FFFF) by (nonlinear_arith)
                requires
                    half == 0x7FFF_FFFF_FFFF_FFFF,
                    g <= 0xFFFF_FFFF,
            ;
        }
        let bonus: u128 = if self.local.component == 1 { 1 } else { 0 };
        half * (g as u128) + 2 * (d as u128) + bonus
    }

    /// Whether two pairs join the same candidates.
    pub fn same_pair(&self, other: &CandidatePair) -> (b: bool)
        ensures
            b == (self.local.address == other.local.address && self.local.component
                == other.local.component && self.remote.address == other.remote.address
                && self.remote.component == other.remote.component),
    {
        self.local.same_candidate(&other.local) && self.remote.same_candidate(&other.remote)
    }
}

} // verus!
