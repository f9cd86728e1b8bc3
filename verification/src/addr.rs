//! Network addresses as plain integers.
//!
//! An IPv4 address is the `u32`, an IPv6 address the `u128`, whose big-endian
//! bytes are the address's octets in the order in which they are written.

use vstd::prelude::*;

verus! {

/// Address family of an IP address or of a socket.
#[derive(Clone, Copy, Debug, PartialEq, Eq, Structural, Hash)]
pub enum Family {
    V4,
    V6,
}

/// An IP address of either family.
#[derive(Clone, Copy, Debug, PartialEq, Eq, Structural, Ord, Hash)]
pub enum IpAddress {
    V4(u32),
    V6(u128),
}

/// An IP address with a port; for IPv6 also the flow information and the scope.
#[allow(inconsistent_fields)]
#[derive(Clone, Copy, Debug, PartialEq, Eq, Structural, Hash)]
pub enum SocketAddress {
    V4 { ip: u32, port: u16 },
    V6 { ip: u128, port: u16, flowinfo: u32, scope_id: u32 },
}

/// The number that the bytes `bytes` denote when read most significant first.
pub open spec fn be_value(bytes: Seq<u8>) -> nat
    decreases bytes.len(),
{
    if bytes.len() == 0 {
        0
    } else {
        be_value(bytes.drop_last()) * 256 + bytes.last() as nat
    }
}

/// 256 to the power `n`.
pub open spec fn pow256(n: nat) -> nat
    decreases n,
{
    if n == 0 {
        1
    } else {
        256 * pow256((n - 1) as nat)
    }
}

/// A number written in `n` bytes is below 256 to the `n`.
pub proof fn lemma_be_value_bound(bytes: Seq<u8>)
    ensures
        be_value(bytes) < pow256(bytes.len()),
    decreases bytes.len(),
{
    if bytes.len() > 0 {
        lemma_be_value_bound(bytes.drop_last());
        assert(be_value(bytes) < pow256(bytes.len())) by (nonlinear_arith)
            requires
                be_value(bytes) == be_value(bytes.drop_last()) * 256 + bytes.last() as nat,
                be_value(bytes.drop_last()) < pow256((bytes.len() - 1) as nat),
                pow256(bytes.len()) == 256 * pow256((bytes.len() - 1) as nat),
                bytes.last() < 256,
        ;
    }
}

impl IpAddress {
    /// The family of the address.
    pub open spec fn spec_family(self) -> Family {
        match self {
            IpAddress::V4(_) => Family::V4,
            IpAddress::V6(_) => Family::V6,
        }
    }

    /// The longest prefix that an address of this family can have: 32 or 128.
    pub open spec fn spec_max_prefix(self) -> u8 {
        match self {
            IpAddress::V4(_) => 32,
            IpAddress::V6(_) => 128,
        }
    }

    /// The wildcard ("unspecified") address of a family: all bits zero.
    pub open spec fn spec_unspecified(family: Family) -> IpAddress {
        match family {
            Family::V4 => IpAddress::V4(0),
            Family::V6 => IpAddress::V6(0),
        }
    }

    /// The family of the address.
    #[verifier::when_used_as_spec(spec_family)]
    pub fn family(self) -> (f: Family)
        ensures
            f == self.spec_family(),
    {
        match self {
            IpAddress::V4(_) => Family::V4,
            IpAddress::V6(_) => Family::V6,
        }
    }

    /// The longest prefix that an address of this family can have.
    #[verifier::when_used_as_spec(spec_max_prefix)]
    pub fn max_prefix(self) -> (n: u8)
        ensures
            n == self.spec_max_prefix(),
    {
        match self {
            IpAddress::V4(_) => 32,
            IpAddress::V6(_) => 128,
        }
    }

    /// The wildcard address of a family.
    #[verifier::when_used_as_spec(spec_unspecified)]
    pub fn unspecified(family: Family) -> (a: IpAddress)
        ensures
            a == Self::spec_unspecified(family),
    {
        match family {
            Family::V4 => IpAddress::V4(0),
            Family::V6 => IpAddress::V6(0),
        }
    }

    /// The address of family `family` that `octets` spell out, first octet
    /// first: four octets for IPv4, sixteen for IPv6, nothing for any other count.
    pub open spec fn spec_from_octets(family: Family, octets: Seq<u8>) -> Option<IpAddress> {
        match family {
            Family::V4 => if octets.len() == 4 {
                Some(IpAddress::V4(be_value(octets) as u32))
            } else {
                None
            },
            Family::V6 => if octets.len() == 16 {
                Some(IpAddress::V6(be_value(octets) as u128))
            } else {
                None
            },
        }
    }

    /// Reads an address of the given family from its octets.
    pub fn from_octets(family: Family, octets: &[u8]) -> (a: Option<IpAddress>)
        ensures
            a == Self::spec_from_octets(family, octets@),
    {
        match family {
            Family::V4 => {
                if octets.len() != 4 {
                    return None;
                }
                let value = read_be(octets);
                proof {
                    lemma_be_value_bound(octets@);
                    reveal_with_fuel(pow256, 5);
                }
                Some(IpAddress::V4(value as u32))
            },
            Family::V6 => {
                if octets.len() != 16 {
                    return None;
                }
                let value = read_be(octets);
                Some(IpAddress::V6(value))
            },
        }
    }
}

/// Reads up to sixteen bytes as one number, most significant byte first.
pub fn read_be(bytes: &[u8]) -> (value: u128)
    requires
        bytes@.len() <= 16,
    ensures
        value == be_value(bytes@),
{
    let mut value: u128 = 0;
    let mut i: usize = 0;
    proof {
        assert(bytes@.take(0) =~= Seq::<u8>::empty());
        reveal_with_fuel(pow256, 17);
    }
    while i < bytes.len()
        invariant
            i <= bytes@.len() <= 16,
            value == be_value(bytes@.take(i as int)),
            value < pow256(i as nat),
            pow256(16) == 0x1_0000_0000_0000_0000_0000_0000_0000_0000,
        decreases bytes@.len() - i,
    {
        proof {
            let next = bytes@.take(i + 1);
            assert(next.drop_last() =~= bytes@.take(i as int));
            assert(next.last() == bytes@[i as int]);
            lemma_be_value_bound(next);
            lemma_pow256_monotonic((i + 1) as nat, 16);
        }
        value = value * 256 + bytes[i] as u128;
        i += 1;
    }
    proof {
        assert(bytes@.take(bytes@.len() as int) =~= bytes@);
    }
    value
}

/// Powers of 256 grow with the exponent.
pub proof fn lemma_pow256_monotonic(m: nat, n: nat)
    requires
        m <= n,
    ensures
        pow256(m) <= pow256(n),
        pow256(m) >= 1,
    decreases n,
{
    if m < n {
        lemma_pow256_monotonic(m, (n - 1) as nat);
    } else if n > 0 {
        lemma_pow256_monotonic((m - 1) as nat, (n - 1) as nat);
    }
}

impl SocketAddress {
    /// The address part.
    pub open spec fn spec_ip(self) -> IpAddress {
        match self {
            SocketAddress::V4 { ip, .. } => IpAddress::V4(ip),
            SocketAddress::V6 { ip, .. } => IpAddress::V6(ip),
        }
    }

    /// The port part.
    pub open spec fn spec_port(self) -> u16 {
        match self {
            SocketAddress::V4 { port, .. } => port,
            SocketAddress::V6 { port, .. } => port,
        }
    }

    /// The socket address of `ip` and `port`, with no flow information and no
    /// scope where the address is IPv6.
    pub open spec fn spec_new(ip: IpAddress, port: u16) -> SocketAddress {
        match ip {
            IpAddress::V4(ip) => SocketAddress::V4 { ip, port },
            IpAddress::V6(ip) => SocketAddress::V6 { ip, port, flowinfo: 0, scope_id: 0 },
        }
    }

    /// Joins an address and a port.
    #[verifier::when_used_as_spec(spec_new)]
    pub fn new(ip: IpAddress, port: u16) -> (a: SocketAddress)
        ensures
            a == Self::spec_new(ip, port),
    {
        match ip {
            IpAddress::V4(ip) => SocketAddress::V4 { ip, port },
            IpAddress::V6(ip) => SocketAddress::V6 { ip, port, flowinfo: 0, scope_id: 0 },
        }
    }

    /// The address part.
    #[verifier::when_used_as_spec(spec_ip)]
    pub fn ip(self) -> (a: IpAddress)
        ensures
            a == self.spec_ip(),
    {
        match self {
            SocketAddress::V4 { ip, .. } => IpAddress::V4(ip),
            SocketAddress::V6 { ip, .. } => IpAddress::V6(ip),
        }
    }

    /// The port part.
    #[verifier::when_used_as_spec(spec_port)]
    pub fn port(self) -> (p: u16)
        ensures
            p == self.spec_port(),
    {
        match self {
            SocketAddress::V4 { port, .. } => port,
            SocketAddress::V6 { port, .. } => port,
        }
    }
}

} // verus!
