//! IP and socket addresses as plain values.

use vstd::prelude::*;
use crate::common::wire::{be32, be128, u32_be, lemma_be32_roundtrip, lemma_be128_roundtrip, push_u32_be, push_u128_be};

verus! {

/// An IPv4 or IPv6 address, each given by the big-endian number of its octets.
#[derive(Debug, Clone, Copy, PartialEq, Eq, Structural, Hash)]
pub enum IpAddr {
    V4(u32),
    V6(u128),
}

/// The octets of an address, in network order.
pub open spec fn spec_octets(ip: IpAddr) -> Seq<u8> {
    match ip {
        IpAddr::V4(v) => be32(v),
        IpAddr::V6(v) => be128(v),
    }
}

impl IpAddr {
    /// The IPv4 address `a.b.c.d`.
    pub fn v4(a: u8, b: u8, c: u8, d: u8) -> (ip: IpAddr)
        ensures
            ip == IpAddr::V4(u32_be(a, b, c, d)),
            spec_octets(ip) == seq![a, b, c, d],
    {
        let v = (a as u32) * 0x1000000 + (b as u32) * 0x10000 + (c as u32) * 0x100 + (d as u32);
        proof {
            lemma_be32_roundtrip(v);
            assert(be32(v) =~= seq![a, b, c, d]);
        }
        IpAddr::V4(v)
    }

    /// The octets of the address, in network order.
    pub fn octets(&self) -> (o: Vec<u8>)
        ensures
            o@ == spec_octets(*self),
    {
        let mut o: Vec<u8> = Vec::new();
        match self {
            IpAddr::V4(v) => push_u32_be(&mut o, *v),
            IpAddr::V6(v) => push_u128_be(&mut o, *v),
        }
        assert(o@ =~= spec_octets(*self));
        o
    }
}

/// An IP address and a port.
#[derive(Debug, Clone, Copy, PartialEq, Eq, Structural, Hash)]
pub struct SocketAddr {
    pub ip: IpAddr,
    pub port: u16,
}

impl SocketAddr {
    /// The address `ip`, port `port`.
    pub fn new(ip: IpAddr, port: u16) -> (a: SocketAddr)
        ensures
            a.ip == ip,
            a.port == port,
    {
        SocketAddr { ip, port }
    }

    /// The IPv4 socket address `a.b.c.d:port`.
    pub fn v4(a: u8, b: u8, c: u8, d: u8, port: u16) -> (s: SocketAddr)
        ensures
            s.ip == IpAddr::V4(u32_be(a, b, c, d)),
            spec_octets(s.ip) == seq![a, b, c, d],
            s.port == port,
    {
        SocketAddr { ip: IpAddr::v4(a, b, c, d), port }
    }

    /// The IP address.
    pub fn ip(&self) -> (ip: IpAddr)
        ensures
            ip == self.ip,
    {
        self.ip
    }

    /// The port.
    pub fn port(&self) -> (p: u16)
        ensures
            p == self.port,
    {
        self.port
    }

    /// Whether the address is an IPv4 address.
    pub fn is_ipv4(&self) -> (b: bool)
        ensures
            b == (self.ip is V4),
    {
        match self.ip {
            IpAddr::V4(_) => true,
            IpAddr::V6(_) => false,
        }
    }
}

/// Private IPv4 ranges: 10/8, 172.16/12, 192.168/16.
pub open spec fn v4_is_private(o: Seq<u8>) -> bool {
    o[0] == 10 || (o[0] == 172 && 16 <= o[1] <= 31) || (o[0] == 192 && o[1] == 168)
}

/// Loopback: 127/8.
pub open spec fn v4_is_loopback(o: Seq<u8>) -> bool {
    o[0] == 127
}

/// Link-local: 169.254/16.
pub open spec fn v4_is_link_local(o: Seq<u8>) -> bool {
    o[0] == 169 && o[1] == 254
}

/// Multicast: 224/4.
pub open spec fn v4_is_multicast(o: Seq<u8>) -> bool {
    224 <= o[0] <= 239
}

/// Broadcast: 255.255.255.255.
pub open spec fn v4_is_broadcast(o: Seq<u8>) -> bool {
    o[0] == 255 && o[1] == 255 && o[2] == 255 && o[3] == 255
}

/// Unspecified: 0.0.0.0.
pub open spec fn v4_is_unspecified(o: Seq<u8>) -> bool {
    o[0] == 0 && o[1] == 0 && o[2] == 0 && o[3] == 0
}

/// Loopback: ::1.
pub open spec fn v6_is_loopback(o: Seq<u8>) -> bool {
    (forall|i: int| 0 <= i < 15 ==> o[i] == 0) && o[15] == 1
}

/// Unspecified: ::.
pub open spec fn v6_is_unspecified(o: Seq<u8>) -> bool {
    forall|i: int| 0 <= i < 16 ==> o[i] == 0
}

/// Multicast: ff00::/8.
pub open spec fn v6_is_multicast(o: Seq<u8>) -> bool {
    o[0] == 0xff
}

/// Unicast link-local: fe80::/10.
pub open spec fn v6_is_unicast_link_local(o: Seq<u8>) -> bool {
    o[0] == 0xfe && 0x80 <= o[1] <= 0xbf
}

/// An address that routes on the public Internet: none of the special ranges.
pub open spec fn spec_is_public_ip(ip: IpAddr) -> bool {
    let o = spec_octets(ip);
    match ip {
        IpAddr::V4(_) => !v4_is_private(o) && !v4_is_loopback(o) && !v4_is_link_local(o)
            && !v4_is_multicast(o) && !v4_is_broadcast(o) && !v4_is_unspecified(o),
        IpAddr::V6(_) => !v6_is_loopback(o) && !v6_is_multicast(o) && !v6_is_unspecified(o)
            && !v6_is_unicast_link_local(o),
    }
}

fn all_zero_upto(o: &Vec<u8>, n: usize) -> (b: bool)
    requires
        n <= o@.len(),
    ensures
        b == (forall|i: int| 0 <= i < n ==> o@[i] == 0),
{
    let mut i: usize = 0;
    while i < n
        invariant
            i <= n <= o@.len(),
            forall|j: int| 0 <= j < i ==> o@[j] == 0,
        decreases n - i,
    {
        if o[i] != 0 {
            return false;
        }
        i = i + 1;
    }
    true
}

/// Whether `ip` is a public address.
pub fn is_public_ip(ip: IpAddr) -> (b: bool)
    ensures
        b == spec_is_public_ip(ip),
{
    let o = ip.octets();
    match ip {
        IpAddr::V4(_) => {
            let private = o[0] == 10 || (o[0] == 172 && 16 <= o[1] && o[1] <= 31) || (o[0] == 192
                && o[1] == 168);
            let loopback = o[0] == 127;
            let link_local = o[0] == 169 && o[1] == 254;
            let multicast = 224 <= o[0] && o[0] <= 239;
            let broadcast = o[0] == 255 && o[1] == 255 && o[2] == 255 && o[3] == 255;
            let unspecified = o[0] == 0 && o[1] == 0 && o[2] == 0 && o[3] == 0;
            !private && !loopback && !link_local && !multicast && !broadcast && !unspecified
        },
        IpAddr::V6(v) => {
            proof { lemma_be128_roundtrip(v); }
            let loopback = all_zero_upto(&o, 15) && o[15] == 1;
            let unspecified = all_zero_upto(&o, 16);
            let multicast = o[0] == 0xff;
            let link_local = o[0] == 0xfe && 0x80 <= o[1] && o[1] <= 0xbf;
            !loopback && !multicast && !unspecified && !link_local
        },
    }
}

} // verus!
