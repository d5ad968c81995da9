//! NAT classification from STUN answers, and which pairs of NATs can reach
//! each other directly.

use vstd::prelude::*;
use crate::common::net::{is_public_ip, spec_is_public_ip, IpAddr, SocketAddr};
use crate::omnilink::stun::StunError;

verus! {

/// How a NAT maps and filters traffic.
#[derive(Debug, Clone, Copy, PartialEq, Eq, Structural)]
pub enum NatType {
    /// No NAT: the host has a public address.
    Open,
    FullCone,
    RestrictedCone,
    PortRestrictedCone,
    Symmetric,
    Unknown,
}

/// The display name of each NAT type.
pub open spec fn spec_nat_type_name(t: NatType) -> Seq<char> {
    match t {
        NatType::Open => "Open (No NAT)"@,
        NatType::FullCone => "Full Cone NAT"@,
        NatType::RestrictedCone => "Restricted Cone NAT"@,
        NatType::PortRestrictedCone => "Port Restricted Cone NAT"@,
        NatType::Symmetric => "Symmetric NAT"@,
        NatType::Unknown => "Unknown NAT type"@,
    }
}

impl NatType {
    /// The display name of this NAT type.
    pub fn to_string(&self) -> (s: String)
        ensures
            s@ == spec_nat_type_name(*self),
    {
        match self {
            NatType::Open => String::from_str("Open (No NAT)"),
            NatType::FullCone => String::from_str("Full Cone NAT"),
            NatType::RestrictedCone => String::from_str("Restricted Cone NAT"),
            NatType::PortRestrictedCone => String::from_str("Port Restricted Cone NAT"),
            NatType::Symmetric => String::from_str("Symmetric NAT"),
            NatType::Unknown => String::from_str("Unknown NAT type"),
        }
    }
}

/// What is known of a NAT.
#[derive(Debug, Clone, Copy, PartialEq, Eq, Structural)]
pub struct NatProperties {
    pub nat_type: NatType,
    pub public_address: Option<SocketAddr>,
    pub local_address: Option<SocketAddr>,
    pub filter_only_allow_src_port: bool,
    pub filter_only_allow_src_ip: bool,
    pub mapping_uses_dest_ip: bool,
    pub mapping_uses_dest_port: bool,
    pub hairpin_support: bool,
}

/// Nothing known.
pub open spec fn spec_unknown_properties() -> NatProperties {
    NatProperties {
        nat_type: NatType::Unknown,
        public_address: None,
        local_address: None,
        filter_only_allow_src_port: false,
        filter_only_allow_src_ip: false,
        mapping_uses_dest_ip: false,
        mapping_uses_dest_port: false,
        hairpin_support: false,
    }
}

impl NatProperties {
    /// Nothing known: an unknown NAT type, no addresses, every flag false.
    pub fn new() -> (p: NatProperties)
        ensures
            p == spec_unknown_properties(),
    {
        NatProperties {
            nat_type: NatType::Unknown,
            public_address: None,
            local_address: None,
            filter_only_allow_src_port: false,
            filter_only_allow_src_ip: false,
            mapping_uses_dest_ip: false,
            mapping_uses_dest_port: false,
            hairpin_support: false,
        }
    }
}

impl Default for NatProperties {
    fn default() -> (p: NatProperties)
        ensures
            p == spec_unknown_properties(),
    {
        NatProperties::new()
    }
}

/// What the classification concludes from the local address, the public
/// address the first STUN server saw and, where one was asked, the one the
/// second server saw for the same local port.
pub open spec fn spec_classify(local: SocketAddr, first: SocketAddr, second: Option<SocketAddr>) -> NatProperties {
    let base = NatProperties {
        public_address: Some(first),
        local_address: Some(local),
        ..spec_unknown_properties()
    };
    if spec_is_public_ip(first.ip) {
        NatProperties { nat_type: NatType::Open, ..base }
    } else {
        match second {
            Some(s) => if s.ip == first.ip && s.port == first.port {
                NatProperties { nat_type: NatType::FullCone, ..base }
            } else {
                NatProperties {
                    nat_type: NatType::Symmetric,
                    mapping_uses_dest_ip: true,
                    mapping_uses_dest_port: true,
                    ..base
                }
            },
            None => base,
        }
    }
}

/// Whether two NATs can reach each other without a relay: an open host or a
/// full cone on either side, or cones on both; never a symmetric NAT.
pub open spec fn spec_direct_traversal_possible(local: NatType, remote: NatType) -> bool {
    match (local, remote) {
        (NatType::Open, _) => true,
        (_, NatType::Open) => true,
        (NatType::FullCone, _) => true,
        (_, NatType::FullCone) => true,
        (NatType::RestrictedCone, NatType::RestrictedCone) => true,
        (NatType::RestrictedCone, NatType::PortRestrictedCone) => true,
        (NatType::PortRestrictedCone, NatType::RestrictedCone) => true,
        (NatType::PortRestrictedCone, NatType::PortRestrictedCone) => true,
        _ => false,
    }
}

/// Classifies a NAT from two STUN servers' answers.
pub struct NatDetector {
    pub stun_server1: SocketAddr,
    pub stun_server2: SocketAddr,
}

impl NatDetector {
    /// A detector asking `stun_server1` first and `stun_server2` second.
    pub fn new(stun_server1: SocketAddr, stun_server2: SocketAddr) -> (d: NatDetector)
        ensures
            d.stun_server1 == stun_server1,
            d.stun_server2 == stun_server2,
    {
        NatDetector { stun_server1, stun_server2 }
    }

    /// Whether `ip` is a public address.
    pub fn is_public_ip(ip: IpAddr) -> (b: bool)
        ensures
            b == spec_is_public_ip(ip),
    {
        is_public_ip(ip)
    }

    /// Whether the second server must be asked after the first one saw
    /// `first`: only when `first` is not public.
    pub fn needs_second_query(first: SocketAddr) -> (b: bool)
        ensures
            b == !spec_is_public_ip(first.ip),
    {
        !is_public_ip(first.ip)
    }

    /// The classification from the local address, the first server's
    /// answer and, when asked, the second server's answer.
    pub fn classify(local: SocketAddr, first: SocketAddr, second: Option<SocketAddr>) -> (p: NatProperties)
        ensures
            p == spec_classify(local, first, second),
    {
        let mut properties = NatProperties::new();
        properties.public_address = Some(first);
        properties.local_address = Some(local);
        if is_public_ip(first.ip) {
            properties.nat_type = NatType::Open;
            return properties;
        }
        match second {
            Some(s) => {
                if s.ip == first.ip && s.port == first.port {
                    properties.mapping_uses_dest_ip = false;
                    properties.mapping_uses_dest_port = false;
                    properties.nat_type = NatType::FullCone;
                } else {
                    properties.mapping_uses_dest_ip = true;
                    properties.mapping_uses_dest_port = true;
                    properties.nat_type = NatType::Symmetric;
                }
            },
            None => {},
        }
        properties
    }

    /// Whether the two NATs can reach each other without a relay.
    pub fn is_direct_traversal_possible(local: &NatProperties, remote: &NatProperties) -> (b: bool)
        ensures
            b == spec_direct_traversal_possible(local.nat_type, remote.nat_type),
    {
        match (local.nat_type, remote.nat_type) {
            (NatType::Open, _) => true,
            (_, NatType::Open) => true,
            (NatType::FullCone, _) => true,
            (_, NatType::FullCone) => true,
            (NatType::RestrictedCone, NatType::RestrictedCone) => true,
            (NatType::RestrictedCone, NatType::PortRestrictedCone) => true,
            (NatType::PortRestrictedCone, NatType::RestrictedCone) => true,
            (NatType::PortRestrictedCone, NatType::PortRestrictedCone) => true,
            _ => false,
        }
    }

    /// Whether a TURN relay is needed: direct traversal is impossible.
    pub fn requires_turn(local: &NatProperties, remote: &NatProperties) -> (b: bool)
        ensures
            b == !spec_direct_traversal_possible(local.nat_type, remote.nat_type),
    {
        !Self::is_direct_traversal_possible(local, remote)
    }
}

/// Direct reachability does not depend on which side asks.
pub proof fn lemma_direct_traversal_symmetric(a: NatType, b: NatType)
    ensures
        spec_direct_traversal_possible(a, b) == spec_direct_traversal_possible(b, a),
{
}

/// Two NATs of which neither is open nor a full cone, with a symmetric one
/// among them, need a relay.
pub proof fn lemma_symmetric_needs_relay(a: NatType, b: NatType)
    requires
        a == NatType::Symmetric || b == NatType::Symmetric,
        a != NatType::Open && b != NatType::Open,
        a != NatType::FullCone && b != NatType::FullCone,
    ensures
        !spec_direct_traversal_possible(a, b),
{
}

/// Why NAT detection failed.
#[derive(Debug)]
pub enum NatDetectionError {
    Stun(StunError),
    Io(std::io::Error),
    Timeout,
}

/// Which NAT pairs connect directly: an open host or a full cone on either
/// side always does; otherwise both sides must be restricted cones (address-
/// or port-restricted, in any combination), and a symmetric or unknown NAT
/// on either side needs a relay.
pub proof fn lemma_direct_traversal_exactly(a: NatType, b: NatType)
    ensures
        spec_direct_traversal_possible(a, b) <==> (a == NatType::Open || b == NatType::Open || a == NatType::FullCone
            || b == NatType::FullCone || ((a == NatType::RestrictedCone || a == NatType::PortRestrictedCone) && (b
            == NatType::RestrictedCone || b == NatType::PortRestrictedCone))),
{
}

/// Two NATs of which neither is symmetric nor unknown connect directly.
pub proof fn lemma_cones_traverse_directly(a: NatType, b: NatType)
    requires
        a != NatType::Symmetric && a != NatType::Unknown,
        b != NatType::Symmetric && b != NatType::Unknown,
    ensures
        spec_direct_traversal_possible(a, b),
{
}

} // verus!