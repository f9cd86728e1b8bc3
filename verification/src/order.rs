//! The order of addresses and of ranges, by which they sort.

use core::cmp::Ordering;
use vstd::prelude::*;
use vstd::std_specs::cmp::PartialOrdSpecImpl;
use crate::addr::IpAddress;
use crate::allowed_ip::AllowedIP;

verus! {

/// How two addresses compare: IPv4 comes before IPv6, and within a family
/// the addresses go by their octets, first octet first.
pub open spec fn ip_order(a: IpAddress, b: IpAddress) -> Ordering {
    match (a, b) {
        (IpAddress::V4(x), IpAddress::V4(y)) => if x < y {
            Ordering::Less
        } else if x == y {
            Ordering::Equal
        } else {
            Ordering::Greater
        },
        (IpAddress::V4(_), IpAddress::V6(_)) => Ordering::Less,
        (IpAddress::V6(_), IpAddress::V4(_)) => Ordering::Greater,
        (IpAddress::V6(x), IpAddress::V6(y)) => if x < y {
            Ordering::Less
        } else if x == y {
            Ordering::Equal
        } else {
            Ordering::Greater
        },
    }
}

/// How two ranges compare: by their addresses, and with one address by their
/// prefix lengths.
pub open spec fn range_order(a: AllowedIP, b: AllowedIP) -> Ordering {
    match ip_order(a.addr, b.addr) {
        Ordering::Equal => if a.cidr < b.cidr {
            Ordering::Less
        } else if a.cidr == b.cidr {
            Ordering::Equal
        } else {
            Ordering::Greater
        },
        other => other,
    }
}

impl PartialOrd for IpAddress {
    fn partial_cmp(&self, other: &IpAddress) -> (r: Option<Ordering>) {
        let order = match (*self, *other) {
            (IpAddress::V4(x), IpAddress::V4(y)) => if x < y {
                Ordering::Less
            } else if x == y {
                Ordering::Equal
            } else {
                Ordering::Greater
            },
            (IpAddress::V4(_), IpAddress::V6(_)) => Ordering::Less,
            (IpAddress::V6(_), IpAddress::V4(_)) => Ordering::Greater,
            (IpAddress::V6(x), IpAddress::V6(y)) => if x < y {
                Ordering::Less
            } else if x == y {
                Ordering::Equal
            } else {
                Ordering::Greater
            },
        };
        Some(order)
    }
}

impl PartialOrdSpecImpl for IpAddress {
    open spec fn obeys_partial_cmp_spec() -> bool {
        true
    }

    open spec fn partial_cmp_spec(&self, other: &IpAddress) -> Option<Ordering> {
        Some(ip_order(*self, *other))
    }
}

impl PartialOrd for AllowedIP {
    fn partial_cmp(&self, other: &AllowedIP) -> (r: Option<Ordering>) {
        match self.addr.partial_cmp(&other.addr) {
            Some(Ordering::Equal) => if self.cidr < other.cidr {
                Some(Ordering::Less)
            } else if self.cidr == other.cidr {
                Some(Ordering::Equal)
            } else {
                Some(Ordering::Greater)
            },
            other => other,
        }
    }
}

impl PartialOrdSpecImpl for AllowedIP {
    open spec fn obeys_partial_cmp_spec() -> bool {
        true
    }

    open spec fn partial_cmp_spec(&self, other: &AllowedIP) -> Option<Ordering> {
        Some(range_order(*self, *other))
    }
}

/// The order of ranges is total: every range equals itself and no other,
/// of two different ranges one comes first, and the order is transitive.
pub proof fn lemma_range_order_is_total(a: AllowedIP, b: AllowedIP, c: AllowedIP)
    ensures
        range_order(a, b) == Ordering::Equal <==> a == b,
        range_order(a, b) == Ordering::Less <==> range_order(b, a) == Ordering::Greater,
        range_order(a, b) == Ordering::Less && range_order(b, c) == Ordering::Less
            ==> range_order(a, c) == Ordering::Less,
{
}

/// The order of addresses is total in the same sense.
pub proof fn lemma_ip_order_is_total(a: IpAddress, b: IpAddress, c: IpAddress)
    ensures
        ip_order(a, b) == Ordering::Equal <==> a == b,
        ip_order(a, b) == Ordering::Less <==> ip_order(b, a) == Ordering::Greater,
        ip_order(a, b) == Ordering::Less && ip_order(b, c) == Ordering::Less ==> ip_order(a, c)
            == Ordering::Less,
{
}

} // verus!
