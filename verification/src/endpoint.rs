//! Where a peer is reachable: its address and the socket open to it.

use vstd::prelude::*;
use crate::addr::SocketAddress;

verus! {

/// The current address of a peer and the socket that is open to it.
///
/// `S` is the caller's socket handle. The library never looks inside it: it
/// only moves it in and out of the record.
#[derive(Debug)]
pub struct Endpoint<S> {
    pub addr: Option<SocketAddress>,
    pub conn: Option<S>,
}

/// The three states that an endpoint goes through.
#[derive(Clone, Copy, Debug, PartialEq, Eq, Structural)]
pub enum Phase {
    /// No address is known and no socket is open.
    Unset,
    /// The address is known; no socket is open.
    Known,
    /// A socket is open to the known address.
    Connected,
}

impl<S> Endpoint<S> {
    /// A socket is only ever held for a known address.
    pub open spec fn wf(self) -> bool {
        self.conn is Some ==> self.addr is Some
    }

    /// The state of a well-formed endpoint.
    pub open spec fn phase(self) -> Phase {
        if self.conn is Some {
            Phase::Connected
        } else if self.addr is Some {
            Phase::Known
        } else {
            Phase::Unset
        }
    }

    /// The endpoint after its address has been set to `addr`: unchanged if
    /// that is its address already, otherwise at `addr` with no socket.
    pub open spec fn retargeted(self, addr: SocketAddress) -> Endpoint<S> {
        if self.addr == Some(addr) {
            self
        } else {
            Endpoint { addr: Some(addr), conn: None }
        }
    }

    /// The socket that has to be shut down when the address is set to `addr`:
    /// the open one, unless the address stays what it is.
    pub open spec fn displaced(self, addr: SocketAddress) -> Option<S> {
        if self.addr == Some(addr) {
            None
        } else {
            self.conn
        }
    }

    /// The endpoint after its socket has been taken away.
    pub open spec fn disconnected(self) -> Endpoint<S> {
        Endpoint { addr: self.addr, conn: None }
    }

    /// The endpoint once `conn` has been opened to its address.
    pub open spec fn attached(self, conn: S) -> Endpoint<S> {
        Endpoint { addr: self.addr, conn: Some(conn) }
    }

    /// An endpoint with no socket, at `addr` if one is given.
    pub fn new(addr: Option<SocketAddress>) -> (e: Endpoint<S>)
        ensures
            e == (Endpoint::<S> { addr, conn: None }),
            e.wf(),
    {
        Endpoint { addr, conn: None }
    }

    /// Every transition leaves a well-formed endpoint well-formed, and leads
    /// where the state machine says: setting the address leads to `Known`
    /// unless the address stays what it is, taking the socket away leads from
    /// `Connected` to `Known`, and attaching one leads from `Known` to
    /// `Connected`.
    pub proof fn lemma_transitions(self, addr: SocketAddress, conn: S)
        requires
            self.wf(),
        ensures
            self.retargeted(addr).wf(),
            self.disconnected().wf(),
            self.phase() == Phase::Known ==> self.attached(conn).wf(),
            self.addr != Some(addr) ==> self.retargeted(addr).phase() == Phase::Known,
            self.phase() == Phase::Connected ==> self.disconnected().phase() == Phase::Known,
            self.phase() != Phase::Connected ==> self.disconnected() == self,
            self.phase() == Phase::Known ==> self.attached(conn).phase() == Phase::Connected,
    {
    }

    /// Setting the address that the endpoint has already changes nothing and
    /// displaces no socket; so of two calls with one address the second is
    /// without effect, whatever was attached in between.
    pub proof fn lemma_same_address_is_kept(self, addr: SocketAddress, conn: S)
        ensures
            self.addr == Some(addr) ==> self.retargeted(addr) == self && self.displaced(addr)
                is None,
            self.retargeted(addr).addr == Some(addr),
            self.retargeted(addr).retargeted(addr) == self.retargeted(addr),
            self.retargeted(addr).displaced(addr) is None,
            self.retargeted(addr).attached(conn).retargeted(addr) == self.retargeted(
                addr,
            ).attached(conn),
            self.retargeted(addr).attached(conn).displaced(addr) is None,
    {
    }

    /// Setting another address displaces the open socket and leaves none.
    pub proof fn lemma_other_address_displaces(self, addr: SocketAddress)
        requires
            self.addr != Some(addr),
        ensures
            self.displaced(addr) == self.conn,
            self.retargeted(addr) == (Endpoint::<S> { addr: Some(addr), conn: None }),
    {
    }
}

impl<S> Default for Endpoint<S> {
    /// The endpoint of which nothing is known.
    fn default() -> (e: Endpoint<S>)
        ensures
            e == (Endpoint::<S> { addr: None, conn: None }),
    {
        Endpoint { addr: None, conn: None }
    }
}

} // verus!
