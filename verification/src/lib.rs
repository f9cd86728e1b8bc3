//! Peer connectivity for a userspace VPN tunnel endpoint.
//!
//! For each remote peer the library keeps the address it is reachable at, the
//! socket that is open to that address, the CIDR ranges that may flow through
//! it and an optional pre-shared key. Everything here is pure: sockets are
//! opened, marked and shut down by the caller, who is told what to do by the
//! values these functions return.
//!
//! - [`addr`]: addresses as integers.
//! - [`allowed_ip`], [`order`], [`parse`]: one CIDR range, how ranges sort
//!   and how a range is read from text.
//! - [`table`]: the ranges of a peer, with longest-prefix lookup.
//! - [`endpoint`]: the address and socket of a peer and their three states.
//! - [`socks5`], [`connect`]: the SOCKS5 UDP ASSOCIATE exchange and the state
//!   machine that connects an endpoint.
//! - [`peer`]: the peer itself.
//! - [`error`]: what is reported when something is refused.

pub mod addr;
pub mod allowed_ip;
pub mod connect;
pub mod endpoint;
pub mod error;
pub mod order;
pub mod parse;
pub mod peer;
pub mod socks5;
pub mod table;
