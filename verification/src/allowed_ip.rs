//! One CIDR range: an address and the length of the prefix that counts.

use vstd::prelude::*;
use crate::addr::IpAddress;
use crate::error::ParseError;

verus! {

/// A CIDR range that a peer may use: the addresses that agree with `addr` in
/// their first `cidr` bits.
#[derive(Clone, Copy, Debug, PartialEq, Eq, Structural, Ord, Hash)]
pub struct AllowedIP {
    pub addr: IpAddress,
    pub cidr: u8,
}

/// The IPv4 netmask of a prefix length: the first `cidr` bits set.
pub open spec fn spec_mask_v4(cidr: u8) -> u32 {
    if cidr >= 32 {
        0xffff_ffffu32
    } else {
        !(0xffff_ffffu32 >> cidr)
    }
}

/// The IPv6 netmask of a prefix length: the first `cidr` bits set.
pub open spec fn spec_mask_v6(cidr: u8) -> u128 {
    if cidr >= 128 {
        0xffff_ffff_ffff_ffff_ffff_ffff_ffff_ffffu128
    } else {
        !(0xffff_ffff_ffff_ffff_ffff_ffff_ffff_ffffu128 >> cidr)
    }
}

/// The IPv4 netmask of a prefix length.
#[verifier::when_used_as_spec(spec_mask_v4)]
pub fn mask_v4(cidr: u8) -> (m: u32)
    ensures
        m == spec_mask_v4(cidr),
{
    if cidr >= 32 {
        0xffff_ffffu32
    } else {
        !(0xffff_ffffu32 >> cidr)
    }
}

/// The IPv6 netmask of a prefix length.
#[verifier::when_used_as_spec(spec_mask_v6)]
pub fn mask_v6(cidr: u8) -> (m: u128)
    ensures
        m == spec_mask_v6(cidr),
{
    if cidr >= 128 {
        0xffff_ffff_ffff_ffff_ffff_ffff_ffff_ffffu128
    } else {
        !(0xffff_ffff_ffff_ffff_ffff_ffff_ffff_ffffu128 >> cidr)
    }
}

/// What a netmask stands for: two IPv4 addresses agree under the mask of a
/// prefix length exactly if they agree in their first `cidr` bits, that is,
/// if nothing is left of their difference once the other bits are shifted
/// out. Under the mask of length 0 all addresses agree.
pub proof fn lemma_mask_v4_is_prefix(a: u32, b: u32, cidr: u8)
    requires
        cidr <= 32,
    ensures
        cidr == 0 ==> a & spec_mask_v4(cidr) == b & spec_mask_v4(cidr),
        0 < cidr ==> (a & spec_mask_v4(cidr) == b & spec_mask_v4(cidr) <==> (a ^ b) >> (32
            - cidr) as u32 == 0),
        cidr == 32 ==> (a & spec_mask_v4(cidr) == b & spec_mask_v4(cidr) <==> a == b),
{
    let m = spec_mask_v4(cidr);
    if cidr == 0 {
        assert(!(0xffff_ffffu32 >> 0u8) == 0u32) by (bit_vector);
        assert(a & 0u32 == b & 0u32) by (bit_vector);
    } else if cidr == 32 {
        assert(a & 0xffff_ffffu32 == a && b & 0xffff_ffffu32 == b) by (bit_vector);
        assert(((a ^ b) >> 0u32 == 0u32) <==> a == b) by (bit_vector);
    } else {
        let rest: u32 = (32 - cidr) as u32;
        assert((a & !(0xffff_ffffu32 >> cidr) == b & !(0xffff_ffffu32 >> cidr)) <==> (a ^ b)
            >> rest == 0u32) by (bit_vector)
            requires
                0 < cidr < 32,
                rest == 32 - cidr,
        ;
    }
}

/// The same for IPv6 addresses and their 128 bits.
pub proof fn lemma_mask_v6_is_prefix(a: u128, b: u128, cidr: u8)
    requires
        cidr <= 128,
    ensures
        cidr == 0 ==> a & spec_mask_v6(cidr) == b & spec_mask_v6(cidr),
        0 < cidr ==> (a & spec_mask_v6(cidr) == b & spec_mask_v6(cidr) <==> (a ^ b) >> (128
            - cidr) as u128 == 0),
        cidr == 128 ==> (a & spec_mask_v6(cidr) == b & spec_mask_v6(cidr) <==> a == b),
{
    if cidr == 0 {
        assert(!(0xffff_ffff_ffff_ffff_ffff_ffff_ffff_ffffu128 >> 0u8) == 0u128) by (bit_vector);
        assert(a & 0u128 == b & 0u128) by (bit_vector);
    } else if cidr == 128 {
        assert(a & 0xffff_ffff_ffff_ffff_ffff_ffff_ffff_ffffu128 == a && b
            & 0xffff_ffff_ffff_ffff_ffff_ffff_ffff_ffffu128 == b) by (bit_vector);
        assert(((a ^ b) >> 0u128 == 0u128) <==> a == b) by (bit_vector);
    } else {
        let rest: u128 = (128 - cidr) as u128;
        assert((a & !(0xffff_ffff_ffff_ffff_ffff_ffff_ffff_ffffu128 >> cidr) == b & !(
        0xffff_ffff_ffff_ffff_ffff_ffff_ffff_ffffu128 >> cidr)) <==> (a ^ b) >> rest == 0u128)
            by (bit_vector)
            requires
                0 < cidr < 128,
                rest == 128 - cidr,
        ;
    }
}

impl AllowedIP {
    /// The prefix is no longer than the address: at most 32 bits for IPv4 and
    /// 128 for IPv6.
    pub open spec fn wf(self) -> bool {
        self.cidr <= self.addr.spec_max_prefix()
    }

    /// Whether `addr` lies in the range: it is of the range's family and
    /// agrees with the range's address under the netmask.
    pub open spec fn spec_contains(self, addr: IpAddress) -> bool {
        match (self.addr, addr) {
            (IpAddress::V4(net), IpAddress::V4(a)) => (a & spec_mask_v4(self.cidr)) == (net
                & spec_mask_v4(self.cidr)),
            (IpAddress::V6(net), IpAddress::V6(a)) => (a & spec_mask_v6(self.cidr)) == (net
                & spec_mask_v6(self.cidr)),
            _ => false,
        }
    }

    /// The same range written with its first address: the bits after the
    /// prefix cleared.
    pub open spec fn spec_network(self) -> AllowedIP {
        match self.addr {
            IpAddress::V4(net) => AllowedIP {
                addr: IpAddress::V4(net & spec_mask_v4(self.cidr)),
                cidr: self.cidr,
            },
            IpAddress::V6(net) => AllowedIP {
                addr: IpAddress::V6(net & spec_mask_v6(self.cidr)),
                cidr: self.cidr,
            },
        }
    }

    /// Whether the range is written with its first address.
    pub open spec fn is_network(self) -> bool {
        self.spec_network() == self
    }

    /// Whether `addr` lies in the range.
    #[verifier::when_used_as_spec(spec_contains)]
    pub fn contains(self, addr: IpAddress) -> (b: bool)
        ensures
            b == self.spec_contains(addr),
    {
        match (self.addr, addr) {
            (IpAddress::V4(net), IpAddress::V4(a)) => {
                let m = mask_v4(self.cidr);
                (a & m) == (net & m)
            },
            (IpAddress::V6(net), IpAddress::V6(a)) => {
                let m = mask_v6(self.cidr);
                (a & m) == (net & m)
            },
            _ => false,
        }
    }

    /// The range written with its first address.
    #[verifier::when_used_as_spec(spec_network)]
    pub fn network(self) -> (n: AllowedIP)
        ensures
            n == self.spec_network(),
    {
        match self.addr {
            IpAddress::V4(net) => AllowedIP {
                addr: IpAddress::V4(net & mask_v4(self.cidr)),
                cidr: self.cidr,
            },
            IpAddress::V6(net) => AllowedIP {
                addr: IpAddress::V6(net & mask_v6(self.cidr)),
                cidr: self.cidr,
            },
        }
    }

    /// A range and its network form hold the same addresses, and the network
    /// form is valid whenever the range is and is its own network form.
    pub proof fn lemma_network(self, addr: IpAddress)
        ensures
            self.spec_network().spec_contains(addr) == self.spec_contains(addr),
            self.spec_network().is_network(),
            self.spec_network().wf() == self.wf(),
            self.spec_network().cidr == self.cidr,
            self.spec_contains(self.addr),
    {
        match self.addr {
            IpAddress::V4(net) => {
                let m = spec_mask_v4(self.cidr);
                assert((net & m) & m == net & m) by (bit_vector);
            },
            IpAddress::V6(net) => {
                let m = spec_mask_v6(self.cidr);
                assert((net & m) & m == net & m) by (bit_vector);
            },
        }
    }

    /// Two ranges in network form with the same prefix length that share an
    /// address are the same range.
    pub proof fn lemma_network_unique(self, other: AllowedIP, addr: IpAddress)
        requires
            self.is_network(),
            other.is_network(),
            self.cidr == other.cidr,
            self.spec_contains(addr),
            other.spec_contains(addr),
        ensures
            self == other,
    {
    }
}

} // verus!
