//! The client side of a SOCKS5 UDP ASSOCIATE exchange, as bytes.
//!
//! Only the "no authentication" method is offered, and the relay address that
//! the proxy answers with must be an IPv4 or an IPv6 address.

use vstd::prelude::*;
use crate::addr::{be_value, Family};
use crate::error::ConnectError;

verus! {

/// Protocol version, the first byte of every message.
pub const VERSION: u8 = 0x05;

/// The "no authentication" method.
pub const METHOD_NONE: u8 = 0x00;

/// The UDP ASSOCIATE command.
pub const CMD_UDP_ASSOCIATE: u8 = 0x03;

/// The reply code of a request that the proxy granted.
pub const REPLY_SUCCEEDED: u8 = 0x00;

/// Address type of an IPv4 address: four bytes follow.
pub const ATYP_IPV4: u8 = 0x01;

/// Address type of an IPv6 address: sixteen bytes follow.
pub const ATYP_IPV6: u8 = 0x04;

/// The greeting: version 5, one method offered, "no authentication".
pub open spec fn greeting_bytes() -> Seq<u8> {
    seq![0x05u8, 0x01u8, 0x00u8]
}

/// The UDP ASSOCIATE request for local port `port`: version, command,
/// reserved, IPv4 address type, the address 0.0.0.0, the port high byte first.
pub open spec fn associate_request_bytes(port: u16) -> Seq<u8> {
    seq![
        0x05u8,
        0x03u8,
        0x00u8,
        0x01u8,
        0u8,
        0u8,
        0u8,
        0u8,
        (port / 256) as u8,
        (port % 256) as u8,
    ]
}

/// Whether `reply` is the proxy's consent to go on without authentication.
pub open spec fn method_accepted(reply: Seq<u8>) -> bool {
    reply =~= seq![0x05u8, 0x00u8]
}

/// What the four bytes `head` at the start of the proxy's answer say: the
/// family of the relay address that follows, or why there is none.
pub open spec fn reply_head(head: Seq<u8>) -> Result<Family, ConnectError>
    recommends
        head.len() == 4,
{
    if head[0] != 0x05 || head[1] != 0x00 {
        Err(ConnectError::ProxyHandshakeFailed { reply: Some(head[1]) })
    } else if head[3] == 0x01 {
        Ok(Family::V4)
    } else if head[3] == 0x04 {
        Ok(Family::V6)
    } else {
        Err(ConnectError::ProxyUnsupportedAddressType)
    }
}

/// Number of address bytes on the wire for a family.
pub open spec fn spec_address_len(family: Family) -> usize {
    match family {
        Family::V4 => 4,
        Family::V6 => 16,
    }
}

/// The bytes of the greeting.
pub fn greeting() -> (bytes: Vec<u8>)
    ensures
        bytes@ == greeting_bytes(),
{
    let mut bytes: Vec<u8> = Vec::new();
    bytes.push(VERSION);
    bytes.push(1);
    bytes.push(METHOD_NONE);
    assert(bytes@ =~= greeting_bytes());
    bytes
}

/// The bytes of the UDP ASSOCIATE request for local port `port`.
pub fn associate_request(port: u16) -> (bytes: Vec<u8>)
    ensures
        bytes@ == associate_request_bytes(port),
{
    let mut bytes: Vec<u8> = Vec::new();
    bytes.push(VERSION);
    bytes.push(CMD_UDP_ASSOCIATE);
    bytes.push(0);
    bytes.push(ATYP_IPV4);
    bytes.push(0);
    bytes.push(0);
    bytes.push(0);
    bytes.push(0);
    bytes.push((port / 256) as u8);
    bytes.push((port % 256) as u8);
    assert(bytes@ =~= associate_request_bytes(port));
    bytes
}

/// Checks the proxy's answer to the greeting.
pub fn check_method_reply(reply: &[u8]) -> (r: Result<(), ConnectError>)
    ensures
        r == if method_accepted(reply@) {
            Ok::<(), ConnectError>(())
        } else {
            Err(ConnectError::ProxyHandshakeFailed { reply: None })
        },
{
    if reply.len() == 2 && reply[0] == VERSION && reply[1] == METHOD_NONE {
        Ok(())
    } else {
        assert(!method_accepted(reply@)) by {
            if method_accepted(reply@) {
                assert(reply@.len() == 2);
                assert(reply@[0] == 0x05u8 && reply@[1] == 0x00u8);
            }
        }
        Err(ConnectError::ProxyHandshakeFailed { reply: None })
    }
}

/// Reads the head of the proxy's answer to the request.
pub fn check_reply_head(head: &[u8]) -> (r: Result<Family, ConnectError>)
    requires
        head@.len() == 4,
    ensures
        r == reply_head(head@),
{
    if head[0] != VERSION || head[1] != REPLY_SUCCEEDED {
        Err(ConnectError::ProxyHandshakeFailed { reply: Some(head[1]) })
    } else if head[3] == ATYP_IPV4 {
        Ok(Family::V4)
    } else if head[3] == ATYP_IPV6 {
        Ok(Family::V6)
    } else {
        Err(ConnectError::ProxyUnsupportedAddressType)
    }
}

/// Number of address bytes on the wire for a family.
#[verifier::when_used_as_spec(spec_address_len)]
pub fn address_len(family: Family) -> (n: usize)
    ensures
        n == spec_address_len(family),
{
    match family {
        Family::V4 => 4,
        Family::V6 => 16,
    }
}

/// Reads a port, high byte first.
pub fn port_from_bytes(bytes: &[u8]) -> (port: u16)
    requires
        bytes@.len() == 2,
    ensures
        port == be_value(bytes@),
{
    proof {
        lemma_port_fits(bytes@);
    }
    bytes[0] as u16 * 256 + bytes[1] as u16
}

/// Two bytes denote a number that is a port.
pub proof fn lemma_port_fits(bytes: Seq<u8>)
    requires
        bytes.len() == 2,
    ensures
        be_value(bytes) == bytes[0] * 256 + bytes[1],
        be_value(bytes) <= u16::MAX,
{
    let one = bytes.drop_last();
    assert(one.drop_last() =~= Seq::<u8>::empty());
    assert(be_value(one.drop_last()) == 0);
    assert(be_value(one) == bytes[0]);
}

/// The two bytes of a port on the wire read back as that port.
pub proof fn lemma_port_round_trip(port: u16)
    ensures
        be_value(associate_request_bytes(port).subrange(8, 10)) == port,
{
    let bytes = associate_request_bytes(port).subrange(8, 10);
    lemma_port_fits(bytes);
    assert(bytes[0] == (port / 256) as u8);
    assert(bytes[1] == (port % 256) as u8);
}

} // verus!
