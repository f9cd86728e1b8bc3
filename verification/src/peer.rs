//! A remote peer: its tunnel, its endpoint, the ranges it may use and its key.

use vstd::prelude::*;
use crate::addr::{IpAddress, SocketAddress};
use crate::allowed_ip::AllowedIP;
use crate::connect::{outcome, proxy_view, Action, Connecting, ProxyConfig};
use crate::endpoint::{Endpoint, Phase};
use crate::error::ConnectError;
use crate::table::{covered, distinct_networks, table_of, AllowedIps};

verus! {

/// The ranges of `table` as pairs of address and prefix length.
pub open spec fn pairs(table: Seq<AllowedIP>) -> Seq<(IpAddress, u8)> {
    Seq::new(table.len(), |i: int| (table[i].addr, table[i].cidr))
}

/// One remote peer of the device.
///
/// `T` is the tunnel, the state of the cryptographic session with the peer;
/// `S` is the socket handle. The library passes both through untouched.
pub struct Peer<T, S> {
    tunnel: T,
    index: u32,
    endpoint: Endpoint<S>,
    allowed_ips: AllowedIps,
    preshared_key: Option<[u8; 32]>,
}

impl<T, S> Peer<T, S> {
    /// The peer's tunnel.
    pub closed spec fn spec_tunnel(self) -> T {
        self.tunnel
    }

    /// The number by which the device knows the peer.
    pub closed spec fn spec_index(self) -> u32 {
        self.index
    }

    /// The peer's endpoint.
    pub closed spec fn spec_endpoint(self) -> Endpoint<S> {
        self.endpoint
    }

    /// The table of the ranges that the peer may use.
    pub closed spec fn ranges(self) -> Seq<AllowedIP> {
        self.allowed_ips@
    }

    /// The peer's pre-shared key.
    pub closed spec fn spec_preshared_key(self) -> Option<[u8; 32]> {
        self.preshared_key
    }

    /// Whether `other` is this peer but for its endpoint.
    pub open spec fn same_but_endpoint(self, other: Peer<T, S>) -> bool {
        &&& self.spec_tunnel() == other.spec_tunnel()
        &&& self.spec_index() == other.spec_index()
        &&& self.ranges() == other.ranges()
        &&& self.spec_preshared_key() == other.spec_preshared_key()
    }

    /// A peer with no socket open, reachable at `endpoint` if one is given,
    /// that may use the ranges `allowed_ips`.
    pub fn new(
        tunnel: T,
        index: u32,
        endpoint: Option<SocketAddress>,
        allowed_ips: &[AllowedIP],
        preshared_key: Option<[u8; 32]>,
    ) -> (peer: Peer<T, S>)
        ensures
            peer.spec_tunnel() == tunnel,
            peer.spec_index() == index,
            peer.spec_endpoint() == (Endpoint::<S> { addr: endpoint, conn: None }),
            peer.spec_endpoint().wf(),
            peer.ranges() == table_of(allowed_ips@),
            forall|addr: IpAddress| covered(peer.ranges(), addr) <==> covered(allowed_ips@, addr),
            peer.spec_preshared_key() == preshared_key,
    {
        let table = AllowedIps::from_ranges(allowed_ips);
        proof {
            crate::table::lemma_table_of(allowed_ips@);
        }
        Peer {
            tunnel,
            index,
            endpoint: Endpoint { addr: endpoint, conn: None },
            allowed_ips: table,
            preshared_key,
        }
    }

    /// The tunnel to the peer.
    pub fn tunnel(&self) -> (t: &T)
        ensures
            *t == self.spec_tunnel(),
    {
        &self.tunnel
    }

    /// The tunnel to the peer, to work on. Nothing else of the peer changes.
    pub fn tunnel_mut(&mut self) -> (t: &mut T)
        ensures
            *t == old(self).spec_tunnel(),
            final(self).spec_tunnel() == *final(t),
            final(self).spec_index() == old(self).spec_index(),
            final(self).spec_endpoint() == old(self).spec_endpoint(),
            final(self).ranges() == old(self).ranges(),
            final(self).spec_preshared_key() == old(self).spec_preshared_key(),
    {
        &mut self.tunnel
    }

    /// The peer's address and the socket open to it.
    pub fn endpoint(&self) -> (e: &Endpoint<S>)
        ensures
            *e == self.spec_endpoint(),
    {
        &self.endpoint
    }

    /// Takes the peer's socket away, if it has one, for the caller to shut
    /// down. The address stays.
    pub fn shutdown_endpoint(&mut self) -> (closed: Option<S>)
        ensures
            closed == old(self).spec_endpoint().conn,
            final(self).spec_endpoint() == old(self).spec_endpoint().disconnected(),
            old(self).spec_endpoint().wf() ==> final(self).spec_endpoint().wf(),
            final(self).same_but_endpoint(*old(self)),
    {
        self.endpoint.conn.take()
    }

    /// Moves the peer to `addr`. If that is its address already, nothing
    /// changes and nothing is returned. Otherwise the socket that was open to
    /// the old address, if any, is taken away and returned for the caller to
    /// shut down.
    pub fn set_endpoint(&mut self, addr: SocketAddress) -> (closed: Option<S>)
        ensures
            closed == old(self).spec_endpoint().displaced(addr),
            final(self).spec_endpoint() == old(self).spec_endpoint().retargeted(addr),
            old(self).spec_endpoint().wf() ==> final(self).spec_endpoint().wf(),
            final(self).same_but_endpoint(*old(self)),
    {
        let same = match self.endpoint.addr {
            Some(current) => current == addr,
            None => false,
        };
        if same {
            None
        } else {
            let closed = self.endpoint.conn.take();
            self.endpoint.addr = Some(addr);
            closed
        }
    }

    /// Begins to connect the peer's endpoint: see [`Connecting::start`].
    ///
    /// The endpoint must have an address unless it is connected already.
    pub fn connect_endpoint(
        &self,
        port: u16,
        fwmark: Option<u32>,
        proxy: Option<ProxyConfig>,
    ) -> (r: Result<(Connecting, Action), ConnectError>)
        requires
            self.spec_endpoint().conn is None ==> self.spec_endpoint().addr is Some,
        ensures
            outcome(r) == Connecting::spec_start(
                self.spec_endpoint(),
                port,
                fwmark,
                proxy_view(proxy),
            ),
    {
        Connecting::start(&self.endpoint, port, fwmark, proxy)
    }

    /// Stores the socket that was opened to the peer's address. Where the
    /// peer has no address, or has a socket already, nothing changes and
    /// `conn` is handed back.
    pub fn attach_endpoint(&mut self, conn: S) -> (r: Result<(), S>)
        ensures
            old(self).spec_endpoint().phase() == Phase::Known ==> {
                &&& r is Ok
                &&& final(self).spec_endpoint() == old(self).spec_endpoint().attached(conn)
            },
            old(self).spec_endpoint().phase() != Phase::Known ==> {
                &&& r == Err::<(), S>(conn)
                &&& final(self).spec_endpoint() == old(self).spec_endpoint()
            },
            old(self).spec_endpoint().wf() ==> final(self).spec_endpoint().wf(),
            final(self).same_but_endpoint(*old(self)),
    {
        if self.endpoint.addr.is_some() && self.endpoint.conn.is_none() {
            self.endpoint.conn = Some(conn);
            Ok(())
        } else {
            Err(conn)
        }
    }

    /// Whether the peer may use `addr`: whether one of its ranges holds it.
    pub fn is_allowed_ip(&self, addr: IpAddress) -> (allowed: bool)
        ensures
            allowed == covered(self.ranges(), addr),
    {
        self.allowed_ips.find(addr).is_some()
    }

    /// The ranges that the peer may use: every configured range once, as its
    /// first address and its prefix length.
    pub fn allowed_ips(&self) -> (r: Vec<(IpAddress, u8)>)
        ensures
            r@ == pairs(self.ranges()),
            distinct_networks(self.ranges()),
    {
        let ranges = self.allowed_ips.ranges();
        let mut r: Vec<(IpAddress, u8)> = Vec::new();
        let mut i: usize = 0;
        while i < ranges.len()
            invariant
                i <= ranges@.len(),
                r@.len() == i,
                forall|k: int| 0 <= k < i ==> r@[k] == (ranges@[k].addr, ranges@[k].cidr),
            decreases ranges@.len() - i,
        {
            r.push((ranges[i].addr, ranges[i].cidr));
            i += 1;
        }
        assert(r@ =~= pairs(ranges@));
        r
    }

    /// The peer's pre-shared key, if it has one.
    pub fn preshared_key(&self) -> (key: Option<&[u8; 32]>)
        ensures
            key is Some == self.spec_preshared_key() is Some,
            key is Some ==> *key->0 == self.spec_preshared_key()->0,
    {
        self.preshared_key.as_ref()
    }

    /// The number by which the device knows the peer.
    pub fn index(&self) -> (i: u32)
        ensures
            i == self.spec_index(),
    {
        self.index
    }
}

/// A peer allows exactly the addresses that lie in one of the ranges it was
/// configured with, whatever the order and the overlaps of these ranges.
pub proof fn lemma_allowed_iff_configured<T, S>(
    peer: Peer<T, S>,
    configured: Seq<AllowedIP>,
    addr: IpAddress,
)
    requires
        peer.ranges() == table_of(configured),
    ensures
        covered(peer.ranges(), addr) <==> covered(configured, addr),
{
    crate::table::lemma_table_of(configured);
}

/// A peer that was configured with no range allows no address and lists no
/// range.
pub proof fn lemma_nothing_configured<T, S>(peer: Peer<T, S>, addr: IpAddress)
    requires
        peer.ranges() == table_of(Seq::<AllowedIP>::empty()),
    ensures
        !covered(peer.ranges(), addr),
        pairs(peer.ranges()) == Seq::<(IpAddress, u8)>::empty(),
{
    assert(pairs(peer.ranges()) =~= Seq::<(IpAddress, u8)>::empty());
}

} // verus!
