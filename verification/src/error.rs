//! The errors that the library reports.

use vstd::prelude::*;

verus! {

/// Why a text is not a CIDR range.
#[derive(Clone, Copy, Debug, PartialEq, Eq, Structural)]
pub enum ParseError {
    /// The text is not an address, a slash and a prefix length that the
    /// address's family allows.
    InvalidFormat,
}

/// Why an endpoint could not be connected.
#[derive(Clone, Copy, Debug, PartialEq, Eq, Structural)]
pub enum ConnectError {
    /// A socket is already open to the endpoint's address.
    AlreadyConnected,
    /// The proxy's address is not a socket address.
    ProxyAddressInvalid,
    /// The proxy refused the greeting (`reply` is `None`) or the request
    /// (`reply` is the reply code it sent).
    ProxyHandshakeFailed { reply: Option<u8> },
    /// The relay address that the proxy named is neither IPv4 nor IPv6.
    ProxyUnsupportedAddressType,
}

} // verus!
