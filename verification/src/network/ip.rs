//! IP: addresses, the table of hardware addresses, and the way a packet
//! takes.

use vstd::prelude::*;
use vstd::string::StringSliceAdditionalSpecFns;
use crate::schemes::kscheme::{KScheme, Service};
use crate::text::str_bytes;

verus! {

/// An address of the internet protocol.
#[derive(Clone, Copy, Debug, PartialEq, Eq, Structural)]
pub struct Ipv4Addr {
    pub a: u8,
    pub b: u8,
    pub c: u8,
    pub d: u8,
}

/// A hardware address.
#[derive(Clone, Copy, Debug, PartialEq, Eq, Structural)]
pub struct MacAddr {
    pub a: u8,
    pub b: u8,
    pub c: u8,
    pub d: u8,
    pub e: u8,
    pub f: u8,
}

/// An entry of the table of hardware addresses: the hardware address of
/// an address.
#[derive(Clone, Copy, Debug, PartialEq, Eq, Structural)]
pub struct ArpEntry {
    pub ip: Ipv4Addr,
    pub mac: MacAddr,
}

/// The IP scheme, with the hardware addresses that it has learned.
#[derive(Debug)]
pub struct IpScheme {
    pub arp: Vec<ArpEntry>,
}

/// The address that reaches every host.
pub open spec fn spec_broadcast_ip() -> Ipv4Addr {
    Ipv4Addr { a: 255, b: 255, c: 255, d: 255 }
}

/// The hardware address that reaches every host.
pub open spec fn spec_broadcast_mac() -> MacAddr {
    MacAddr { a: 255, b: 255, c: 255, d: 255, e: 255, f: 255 }
}

/// `addr` under the mask `mask`.
pub open spec fn spec_masked(addr: Ipv4Addr, mask: Ipv4Addr) -> Ipv4Addr {
    Ipv4Addr { a: addr.a & mask.a, b: addr.b & mask.b, c: addr.c & mask.c, d: addr.d & mask.d }
}

/// The host `them` lies outside the network of `me` with the mask `mask`.
pub open spec fn spec_needs_routing(me: Ipv4Addr, mask: Ipv4Addr, them: Ipv4Addr) -> bool {
    spec_masked(me, mask) != spec_masked(them, mask)
}

/// The address that a packet for `peer` is handed to: `peer` itself inside
/// the own network, the router outside.
pub open spec fn spec_route(me: Ipv4Addr, mask: Ipv4Addr, router: Ipv4Addr, peer: Ipv4Addr) -> Ipv4Addr {
    if spec_needs_routing(me, mask, peer) {
        router
    } else {
        peer
    }
}

/// The first position from `from` on whose entry is for `ip`.
pub open spec fn spec_arp_at(arp: Seq<ArpEntry>, ip: Ipv4Addr, from: int) -> Option<int>
    decreases arp.len() - from,
{
    if from < 0 || from >= arp.len() {
        None
    } else if arp[from].ip == ip {
        Some(from)
    } else {
        spec_arp_at(arp, ip, from + 1)
    }
}

/// The hardware address that the table has for `ip`: that of its first
/// entry for it, and the one that reaches every host where it has none.
pub open spec fn spec_lookup(arp: Seq<ArpEntry>, ip: Ipv4Addr) -> MacAddr {
    match spec_arp_at(arp, ip, 0) {
        Some(k) => arp[k].mac,
        None => spec_broadcast_mac(),
    }
}

impl Ipv4Addr {
    /// The address that reaches every host.
    pub fn broadcast() -> (addr: Ipv4Addr)
        ensures
            addr == spec_broadcast_ip(),
    {
        Ipv4Addr { a: 255, b: 255, c: 255, d: 255 }
    }

    /// Tells whether the two addresses are the same.
    pub fn equals(&self, other: Ipv4Addr) -> (r: bool)
        ensures
            r == (*self == other),
    {
        self.a == other.a && self.b == other.b && self.c == other.c && self.d == other.d
    }
}

impl MacAddr {
    /// The hardware address that reaches every host.
    pub fn broadcast() -> (addr: MacAddr)
        ensures
            addr == spec_broadcast_mac(),
    {
        MacAddr { a: 255, b: 255, c: 255, d: 255, e: 255, f: 255 }
    }

    /// Tells whether the two addresses are the same.
    pub fn equals(&self, other: MacAddr) -> (r: bool)
        ensures
            r == (*self == other),
    {
        self.a == other.a && self.b == other.b && self.c == other.c && self.d == other.d && self.e
            == other.e && self.f == other.f
    }
}

impl IpScheme {
    /// Tells whether a packet for `them` has to go through the router.
    pub fn needs_routing(me: Ipv4Addr, mask: Ipv4Addr, them: Ipv4Addr) -> (r: bool)
        ensures
            r == spec_needs_routing(me, mask, them),
    {
        me.a & mask.a != them.a & mask.a || me.b & mask.b != them.b & mask.b || me.c & mask.c
            != them.c & mask.c || me.d & mask.d != them.d & mask.d
    }

    /// The address that a packet for `peer` is handed to.
    pub fn route(me: Ipv4Addr, mask: Ipv4Addr, router: Ipv4Addr, peer: Ipv4Addr) -> (r: Ipv4Addr)
        ensures
            r == spec_route(me, mask, router, peer),
    {
        if IpScheme::needs_routing(me, mask, peer) {
            router
        } else {
            peer
        }
    }

    /// The hardware address that the table has for `ip`.
    pub fn lookup(&self, ip: Ipv4Addr) -> (mac: MacAddr)
        ensures
            mac == spec_lookup(self.arp@, ip),
    {
        let mut k: usize = 0;
        while k < self.arp.len()
            invariant
                k <= self.arp.len(),
                spec_arp_at(self.arp@, ip, k as int) == spec_arp_at(self.arp@, ip, 0),
            decreases self.arp.len() - k,
        {
            if self.arp[k].ip.equals(ip) {
                return self.arp[k].mac;
            }
            k += 1;
        }
        MacAddr::broadcast()
    }

    /// Notes the hardware address `mac` that was learned for `ip`.
    pub fn learn(&mut self, ip: Ipv4Addr, mac: MacAddr)
        ensures
            final(self).arp@ == old(self).arp@.push(ArpEntry { ip, mac }),
    {
        self.arp.push(ArpEntry { ip, mac });
    }
}

impl KScheme for IpScheme {
    type Handle = ();

    /// The provider has a name.
    open spec fn provides(&self, op: Service) -> bool {
        op == Service::Scheme
    }

    /// The name of the scheme: `ip`.
    fn scheme(&self) -> (name: Vec<u8>)
        ensures
            name@ == "ip".spec_bytes(),
    {
        str_bytes("ip")
    }
}

} // verus!
