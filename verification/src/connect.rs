//! Connecting an endpoint, directly or through a SOCKS5 proxy, as a state
//! machine.
//!
//! The library decides and the caller acts. [`Connecting::start`] and
//! [`Connecting::advance`] each return the next [`Action`]; the caller performs
//! it and reports what came of it as an [`Event`]. The last action is always
//! [`Action::Open`], which carries the description of the UDP socket to create.
//! A failure of the caller's own I/O ends the attempt: the machine is not told.

use vstd::prelude::*;
use vstd::string::StringExecFns;
use crate::addr::{be_value, Family, IpAddress, SocketAddress};
use crate::endpoint::Endpoint;
use crate::error::ConnectError;
use crate::socks5::{
    address_len, associate_request, associate_request_bytes, check_method_reply,
    check_reply_head, greeting, greeting_bytes, method_accepted, port_from_bytes, reply_head,
    spec_address_len,
};

verus! {

/// How to reach a proxy, as configured: a type tag and a `host:port` text.
#[derive(Clone, Debug)]
pub struct ProxyConfig {
    pub proxy_type: String,
    pub address: String,
}

/// A [`ProxyConfig`] as two texts.
pub struct ProxyConfigView {
    pub proxy_type: Seq<char>,
    pub address: Seq<char>,
}

impl View for ProxyConfig {
    type V = ProxyConfigView;

    open spec fn view(&self) -> ProxyConfigView {
        ProxyConfigView { proxy_type: self.proxy_type@, address: self.address@ }
    }
}

/// The proxy types that a type tag can name.
#[derive(Clone, Copy, Debug, PartialEq, Eq, Structural)]
pub enum ProxyKind {
    /// `"socks5"`: the only kind through which a connection is made.
    Socks5,
    /// `"http"`: cannot carry UDP; the connection is made directly.
    Http,
    /// Any other tag; the connection is made directly.
    Unrecognized,
}

/// The kind that the tag `proxy_type` names.
pub open spec fn spec_proxy_kind(proxy_type: Seq<char>) -> ProxyKind {
    if proxy_type == "socks5"@ {
        ProxyKind::Socks5
    } else if proxy_type == "http"@ {
        ProxyKind::Http
    } else {
        ProxyKind::Unrecognized
    }
}

impl ProxyConfig {
    /// The kind of proxy that the type tag names.
    pub fn kind(&self) -> (k: ProxyKind)
        ensures
            k == spec_proxy_kind(self.proxy_type@),
    {
        if self.proxy_type == String::from_str("socks5") {
            ProxyKind::Socks5
        } else if self.proxy_type == String::from_str("http") {
            ProxyKind::Http
        } else {
            ProxyKind::Unrecognized
        }
    }
}

/// The UDP socket that the caller is to create.
///
/// The steps are taken in the order of the fields: create a datagram socket of
/// `family`; allow address reuse if `reuse_address`; bind to `bind` and connect
/// to `connect` where they are given; switch to nonblocking if `nonblocking`;
/// set the packet mark `mark` where one is given and the platform has marks.
#[derive(Clone, Copy, Debug, PartialEq, Eq)]
pub struct SocketPlan {
    pub family: Family,
    pub reuse_address: bool,
    pub bind: Option<SocketAddress>,
    pub connect: Option<SocketAddress>,
    pub nonblocking: bool,
    pub mark: Option<u32>,
}

/// The socket for a peer at `target` that is reached directly: of the
/// address's family, neither bound nor connected.
pub open spec fn direct_plan(target: SocketAddress, fwmark: Option<u32>) -> SocketPlan {
    SocketPlan {
        family: target.spec_ip().spec_family(),
        reuse_address: false,
        bind: None,
        connect: None,
        nonblocking: true,
        mark: fwmark,
    }
}

/// The socket for a peer that is reached through the relay `relay`: of the
/// relay's family, with address reuse, bound to the wildcard address on
/// `port` and connected to the relay.
pub open spec fn relay_plan(relay: SocketAddress, port: u16, fwmark: Option<u32>) -> SocketPlan {
    SocketPlan {
        family: relay.spec_ip().spec_family(),
        reuse_address: true,
        bind: Some(
            SocketAddress::spec_new(IpAddress::spec_unspecified(relay.spec_ip().spec_family()), port),
        ),
        connect: Some(relay),
        nonblocking: true,
        mark: fwmark,
    }
}

/// What the caller is asked to do next.
#[derive(Clone, Debug, PartialEq, Eq)]
pub enum Action {
    /// Read `address` as a socket address and report [`Event::Resolved`].
    Resolve { address: String },
    /// Open a TCP stream to `proxy`, write `send` to it, read exactly
    /// `receive` bytes from it and report them as [`Event::Received`].
    Dial { proxy: SocketAddress, send: Vec<u8>, receive: usize },
    /// Write `send` to the stream, read exactly `receive` bytes from it and
    /// report them as [`Event::Received`].
    Exchange { send: Vec<u8>, receive: usize },
    /// Read exactly `count` bytes from the stream and report them as
    /// [`Event::Received`].
    Receive { count: usize },
    /// Close the stream if one is open and create the socket that `plan`
    /// describes. The attempt is over.
    Open { plan: SocketPlan },
}

/// An [`Action`] with its texts and bytes as sequences.
pub enum ActionView {
    Resolve { address: Seq<char> },
    Dial { proxy: SocketAddress, send: Seq<u8>, receive: usize },
    Exchange { send: Seq<u8>, receive: usize },
    Receive { count: usize },
    Open { plan: SocketPlan },
}

impl View for Action {
    type V = ActionView;

    open spec fn view(&self) -> ActionView {
        match *self {
            Action::Resolve { address } => ActionView::Resolve { address: address@ },
            Action::Dial { proxy, send, receive } => ActionView::Dial {
                proxy,
                send: send@,
                receive,
            },
            Action::Exchange { send, receive } => ActionView::Exchange { send: send@, receive },
            Action::Receive { count } => ActionView::Receive { count },
            Action::Open { plan } => ActionView::Open { plan },
        }
    }
}

/// What came of the last action.
#[derive(Clone, Debug, PartialEq, Eq)]
pub enum Event {
    /// The proxy's address as a socket address, or `None` if it is none.
    Resolved(Option<SocketAddress>),
    /// The bytes that were read.
    Received(Vec<u8>),
}

/// An [`Event`] with its bytes as a sequence.
pub enum EventView {
    Resolved(Option<SocketAddress>),
    Received(Seq<u8>),
}

impl View for Event {
    type V = EventView;

    open spec fn view(&self) -> EventView {
        match *self {
            Event::Resolved(addr) => EventView::Resolved(addr),
            Event::Received(bytes) => EventView::Received(bytes@),
        }
    }
}

/// How far a connection attempt has come: what it is waiting for.
#[derive(Clone, Copy, Debug, PartialEq, Eq, Structural)]
pub enum Stage {
    /// For the proxy's address.
    Resolving,
    /// For the proxy's two-byte answer to the greeting.
    Greeting,
    /// For the four-byte head of the proxy's answer to the request.
    Associating,
    /// For the bytes of the relay address, of the given family.
    RelayAddress { family: Family },
    /// For the two bytes of the relay's port; `ip` is the relay's address.
    RelayPort { ip: IpAddress },
    /// For nothing: the socket to open has been named.
    Finished,
}

/// A connection attempt in progress.
#[derive(Clone, Copy, Debug, PartialEq, Eq)]
pub struct Connecting {
    /// The local port that the socket is to use.
    pub port: u16,
    /// The packet mark that the socket is to carry.
    pub fwmark: Option<u32>,
    pub stage: Stage,
}

/// Whether `event` is what the caller reports after `action`.
pub open spec fn answers(action: ActionView, event: EventView) -> bool {
    match action {
        ActionView::Resolve { .. } => event is Resolved,
        ActionView::Dial { receive, .. } => event is Received && event->Received_0.len()
            == receive,
        ActionView::Exchange { receive, .. } => event is Received && event->Received_0.len()
            == receive,
        ActionView::Receive { count } => event is Received && event->Received_0.len() == count,
        ActionView::Open { .. } => false,
    }
}

/// What a step of the machine yields, with the action as its view.
pub open spec fn outcome(r: Result<(Connecting, Action), ConnectError>) -> Result<
    (Connecting, ActionView),
    ConnectError,
> {
    match r {
        Ok((next, action)) => Ok((next, action@)),
        Err(e) => Err(e),
    }
}

/// The view of a proxy configuration that may be absent.
pub open spec fn proxy_view(proxy: Option<ProxyConfig>) -> Option<ProxyConfigView> {
    match proxy {
        Some(cfg) => Some(cfg@),
        None => None,
    }
}

impl Connecting {
    /// The first step of connecting `endpoint`.
    ///
    /// With a socket already open the attempt is refused. Through a SOCKS5
    /// proxy it begins by resolving the proxy's address. In every other case
    /// (no proxy, or one of a kind that cannot relay UDP) it is over at once:
    /// the socket to open is the direct one for the endpoint's address.
    pub open spec fn spec_start<S>(
        endpoint: Endpoint<S>,
        port: u16,
        fwmark: Option<u32>,
        proxy: Option<ProxyConfigView>,
    ) -> Result<(Connecting, ActionView), ConnectError>
        recommends
            endpoint.conn is None ==> endpoint.addr is Some,
    {
        if endpoint.conn is Some {
            Err(ConnectError::AlreadyConnected)
        } else if proxy is Some && spec_proxy_kind(proxy->0.proxy_type) == ProxyKind::Socks5 {
            Ok(
                (
                    Connecting { port, fwmark, stage: Stage::Resolving },
                    ActionView::Resolve { address: proxy->0.address },
                ),
            )
        } else {
            Ok(
                (
                    Connecting { port, fwmark, stage: Stage::Finished },
                    ActionView::Open { plan: direct_plan(endpoint.addr->0, fwmark) },
                ),
            )
        }
    }

    /// Whether `event` answers the action that led to this stage.
    pub open spec fn accepts(self, event: EventView) -> bool {
        match self.stage {
            Stage::Resolving => event is Resolved,
            Stage::Greeting => event is Received && event->Received_0.len() == 2,
            Stage::Associating => event is Received && event->Received_0.len() == 4,
            Stage::RelayAddress { family } => event is Received && event->Received_0.len()
                == spec_address_len(family),
            Stage::RelayPort { .. } => event is Received && event->Received_0.len() == 2,
            Stage::Finished => false,
        }
    }

    /// This attempt at another stage.
    pub open spec fn at(self, stage: Stage) -> Connecting {
        Connecting { port: self.port, fwmark: self.fwmark, stage }
    }

    /// The step that `event` causes, for an event that this stage accepts.
    pub open spec fn step(self, event: EventView) -> Result<(Connecting, ActionView), ConnectError>
        recommends
            self.accepts(event),
    {
        match self.stage {
            Stage::Resolving => match event->Resolved_0 {
                None => Err(ConnectError::ProxyAddressInvalid),
                Some(proxy) => Ok(
                    (
                        self.at(Stage::Greeting),
                        ActionView::Dial { proxy, send: greeting_bytes(), receive: 2 },
                    ),
                ),
            },
            Stage::Greeting => if method_accepted(event->Received_0) {
                Ok(
                    (
                        self.at(Stage::Associating),
                        ActionView::Exchange {
                            send: associate_request_bytes(self.port),
                            receive: 4,
                        },
                    ),
                )
            } else {
                Err(ConnectError::ProxyHandshakeFailed { reply: None })
            },
            Stage::Associating => match reply_head(event->Received_0) {
                Err(e) => Err(e),
                Ok(family) => Ok(
                    (
                        self.at(Stage::RelayAddress { family }),
                        ActionView::Receive { count: spec_address_len(family) },
                    ),
                ),
            },
            Stage::RelayAddress { family } => Ok(
                (
                    self.at(
                        Stage::RelayPort {
                            ip: IpAddress::spec_from_octets(family, event->Received_0)->0,
                        },
                    ),
                    ActionView::Receive { count: 2 },
                ),
            ),
            Stage::RelayPort { ip } => Ok(
                (
                    self.at(Stage::Finished),
                    ActionView::Open {
                        plan: relay_plan(
                            SocketAddress::spec_new(ip, be_value(event->Received_0) as u16),
                            self.port,
                            self.fwmark,
                        ),
                    },
                ),
            ),
            // No event is accepted here: the value is of no account.
            Stage::Finished => Err(ConnectError::AlreadyConnected),
        }
    }

    /// Whether `event` answers the action that led to this stage.
    pub fn accepts_event(&self, event: &Event) -> (b: bool)
        ensures
            b == self.accepts(event@),
    {
        match (self.stage, event) {
            (Stage::Resolving, Event::Resolved(_)) => true,
            (Stage::Greeting, Event::Received(bytes)) => bytes.len() == 2,
            (Stage::Associating, Event::Received(bytes)) => bytes.len() == 4,
            (Stage::RelayAddress { family }, Event::Received(bytes)) => bytes.len()
                == address_len(family),
            (Stage::RelayPort { .. }, Event::Received(bytes)) => bytes.len() == 2,
            _ => false,
        }
    }

    /// Takes the first step of connecting `endpoint`, which must have an
    /// address unless it is connected already.
    pub fn start<S>(
        endpoint: &Endpoint<S>,
        port: u16,
        fwmark: Option<u32>,
        proxy: Option<ProxyConfig>,
    ) -> (r: Result<(Connecting, Action), ConnectError>)
        requires
            endpoint.conn is None ==> endpoint.addr is Some,
        ensures
            outcome(r) == Self::spec_start(*endpoint, port, fwmark, proxy_view(proxy)),
            r matches Ok((next, action)) ==> forall|event: EventView|
                next.accepts(event) <==> answers(action@, event),
    {
        if endpoint.conn.is_some() {
            return Err(ConnectError::AlreadyConnected);
        }
        let target = endpoint.addr.unwrap();
        if let Some(cfg) = proxy {
            if let ProxyKind::Socks5 = cfg.kind() {
                return Ok(
                    (
                        Connecting { port, fwmark, stage: Stage::Resolving },
                        Action::Resolve { address: cfg.address },
                    ),
                );
            }
        }
        Ok(
            (
                Connecting { port, fwmark, stage: Stage::Finished },
                Action::Open { plan: make_direct_plan(target, fwmark) },
            ),
        )
    }

    /// Takes the step that `event` causes. The event must answer the action
    /// that led to this stage.
    pub fn advance(self, event: Event) -> (r: Result<(Connecting, Action), ConnectError>)
        requires
            self.accepts(event@),
        ensures
            outcome(r) == self.step(event@),
            r matches Ok((next, action)) ==> forall|event: EventView|
                next.accepts(event) <==> answers(action@, event),
    {
        let port = self.port;
        let fwmark = self.fwmark;
        match (self.stage, event) {
            (Stage::Resolving, Event::Resolved(None)) => Err(ConnectError::ProxyAddressInvalid),
            (Stage::Resolving, Event::Resolved(Some(proxy))) => Ok(
                (
                    Connecting { port, fwmark, stage: Stage::Greeting },
                    Action::Dial { proxy, send: greeting(), receive: 2 },
                ),
            ),
            (Stage::Greeting, Event::Received(bytes)) => {
                match check_method_reply(bytes.as_slice()) {
                    Err(e) => Err(e),
                    Ok(()) => Ok(
                        (
                            Connecting { port, fwmark, stage: Stage::Associating },
                            Action::Exchange { send: associate_request(port), receive: 4 },
                        ),
                    ),
                }
            },
            (Stage::Associating, Event::Received(bytes)) => {
                match check_reply_head(bytes.as_slice()) {
                    Err(e) => Err(e),
                    Ok(family) => Ok(
                        (
                            Connecting { port, fwmark, stage: Stage::RelayAddress { family } },
                            Action::Receive { count: address_len(family) },
                        ),
                    ),
                }
            },
            (Stage::RelayAddress { family }, Event::Received(bytes)) => {
                let ip = IpAddress::from_octets(family, bytes.as_slice()).unwrap();
                Ok(
                    (
                        Connecting { port, fwmark, stage: Stage::RelayPort { ip } },
                        Action::Receive { count: 2 },
                    ),
                )
            },
            (Stage::RelayPort { ip }, Event::Received(bytes)) => {
                let relay = SocketAddress::new(ip, port_from_bytes(bytes.as_slice()));
                Ok(
                    (
                        Connecting { port, fwmark, stage: Stage::Finished },
                        Action::Open { plan: make_relay_plan(relay, port, fwmark) },
                    ),
                )
            },
            _ => {
                proof {
                    assert(false);
                }
                Err(ConnectError::AlreadyConnected)
            },
        }
    }
}

/// The socket for a peer that is reached directly.
#[verifier::when_used_as_spec(direct_plan)]
pub fn make_direct_plan(target: SocketAddress, fwmark: Option<u32>) -> (plan: SocketPlan)
    ensures
        plan == direct_plan(target, fwmark),
{
    SocketPlan {
        family: target.ip().family(),
        reuse_address: false,
        bind: None,
        connect: None,
        nonblocking: true,
        mark: fwmark,
    }
}

/// The socket for a peer that is reached through a relay.
#[verifier::when_used_as_spec(relay_plan)]
pub fn make_relay_plan(relay: SocketAddress, port: u16, fwmark: Option<u32>) -> (plan: SocketPlan)
    ensures
        plan == relay_plan(relay, port, fwmark),
{
    let family = relay.ip().family();
    SocketPlan {
        family,
        reuse_address: true,
        bind: Some(SocketAddress::new(IpAddress::unspecified(family), port)),
        connect: Some(relay),
        nonblocking: true,
        mark: fwmark,
    }
}

/// The machine never leaves its caller without a way on: after each step it
/// accepts exactly the events that answer the action it returned, and after
/// the action `Open` none.
pub proof fn lemma_step_is_answered(c: Connecting, event: EventView, reply: EventView)
    requires
        c.accepts(event),
    ensures
        c.step(event) matches Ok((next, action)) ==> {
            &&& next.accepts(reply) <==> answers(action, reply)
            &&& action is Open <==> next.stage == Stage::Finished
            &&& next.port == c.port
            &&& next.fwmark == c.fwmark
        },
{
}

/// Connecting twice in a row fails the second time: once a socket is attached,
/// no attempt begins, with or without a proxy.
pub proof fn lemma_connect_twice<S>(
    endpoint: Endpoint<S>,
    conn: S,
    port: u16,
    fwmark: Option<u32>,
    proxy: Option<ProxyConfigView>,
)
    ensures
        Connecting::spec_start(endpoint.attached(conn), port, fwmark, proxy) == Err::<
            (Connecting, ActionView),
            ConnectError,
        >(ConnectError::AlreadyConnected),
{
}

/// Moving a connected endpoint to another address makes it connectable again:
/// the old socket is displaced, none is left, and the next attempt begins;
/// without a proxy it ends at once with the direct socket for the new address.
pub proof fn lemma_reconnect_after_move<S>(
    endpoint: Endpoint<S>,
    conn: S,
    addr: SocketAddress,
    port: u16,
    fwmark: Option<u32>,
    proxy: Option<ProxyConfigView>,
)
    requires
        endpoint.addr != Some(addr),
    ensures
        endpoint.attached(conn).displaced(addr) == Some(conn),
        endpoint.attached(conn).retargeted(addr) == (Endpoint::<S> {
            addr: Some(addr),
            conn: None,
        }),
        Connecting::spec_start(endpoint.attached(conn).retargeted(addr), port, fwmark, proxy)
            is Ok,
        Connecting::spec_start(endpoint.attached(conn).retargeted(addr), port, fwmark, None)
            == Ok::<(Connecting, ActionView), ConnectError>(
            (
                Connecting { port, fwmark, stage: Stage::Finished },
                ActionView::Open { plan: direct_plan(addr, fwmark) },
            ),
        ),
{
}

/// A proxy of any kind but SOCKS5 is passed by: the attempt ends at once with
/// the direct socket for the endpoint's address, as it does without a proxy.
pub proof fn lemma_fallback_is_direct<S>(
    endpoint: Endpoint<S>,
    port: u16,
    fwmark: Option<u32>,
    proxy: ProxyConfigView,
)
    requires
        endpoint.conn is None,
        spec_proxy_kind(proxy.proxy_type) != ProxyKind::Socks5,
    ensures
        Connecting::spec_start(endpoint, port, fwmark, Some(proxy)) == Connecting::spec_start(
            endpoint,
            port,
            fwmark,
            None,
        ),
{
}

/// A proxy that grants everything leads to the relay it names. From the
/// proxy's address on, the machine dials and greets, sends the request for
/// its port, reads the relay's address in the family that the reply head
/// names, then its port, and ends with the socket for that relay, bound to
/// the wildcard address on the attempt's own port.
pub proof fn lemma_handshake_names_the_relay(
    c: Connecting,
    proxy: SocketAddress,
    reserved: u8,
    family: Family,
    address: Seq<u8>,
    relay_port: Seq<u8>,
)
    requires
        address.len() == spec_address_len(family),
        relay_port.len() == 2,
    ensures
        ({
            let atyp = match family {
                Family::V4 => 1u8,
                Family::V6 => 4u8,
            };
            let ip = IpAddress::spec_from_octets(family, address)->0;
            let relay = SocketAddress::spec_new(ip, be_value(relay_port) as u16);
            &&& c.at(Stage::Resolving).step(EventView::Resolved(Some(proxy))) == Ok::<
                (Connecting, ActionView),
                ConnectError,
            >(
                (
                    c.at(Stage::Greeting),
                    ActionView::Dial { proxy, send: greeting_bytes(), receive: 2 },
                ),
            )
            &&& c.at(Stage::Greeting).step(EventView::Received(seq![5u8, 0u8])) == Ok::<
                (Connecting, ActionView),
                ConnectError,
            >(
                (
                    c.at(Stage::Associating),
                    ActionView::Exchange { send: associate_request_bytes(c.port), receive: 4 },
                ),
            )
            &&& c.at(Stage::Associating).step(
                EventView::Received(seq![5u8, 0u8, reserved, atyp]),
            ) == Ok::<(Connecting, ActionView), ConnectError>(
                (
                    c.at(Stage::RelayAddress { family }),
                    ActionView::Receive { count: spec_address_len(family) },
                ),
            )
            &&& c.at(Stage::RelayAddress { family }).step(EventView::Received(address)) == Ok::<
                (Connecting, ActionView),
                ConnectError,
            >((c.at(Stage::RelayPort { ip }), ActionView::Receive { count: 2 }))
            &&& c.at(Stage::RelayPort { ip }).step(EventView::Received(relay_port)) == Ok::<
                (Connecting, ActionView),
                ConnectError,
            >(
                (
                    c.at(Stage::Finished),
                    ActionView::Open { plan: relay_plan(relay, c.port, c.fwmark) },
                ),
            )
            &&& IpAddress::spec_from_octets(family, address) is Some
            &&& relay.spec_ip() == ip
            &&& relay.spec_port() == be_value(relay_port)
            &&& ip.spec_family() == family
        }),
{
    let greeted = seq![5u8, 0u8];
    assert(method_accepted(greeted));
    let atyp = match family {
        Family::V4 => 1u8,
        Family::V6 => 4u8,
    };
    let head = seq![5u8, 0u8, reserved, atyp];
    assert(head[0] == 5 && head[1] == 0 && head[3] == atyp);
    crate::socks5::lemma_port_fits(relay_port);
}

/// What the proxy can answer wrongly. An answer to the greeting other than
/// version 5 with method 0 fails the handshake without a reply code. A reply
/// head whose version is not 5 or whose reply code is not 0 fails it with
/// that code. A granted reply that names an address type other than 1 and 4
/// fails as unsupported.
pub proof fn lemma_refusals(c: Connecting, bytes: Seq<u8>)
    ensures
        bytes.len() == 2 && !(bytes[0] == 5 && bytes[1] == 0) ==> c.at(Stage::Greeting).step(
            EventView::Received(bytes),
        ) == Err::<(Connecting, ActionView), ConnectError>(
            ConnectError::ProxyHandshakeFailed { reply: None },
        ),
        bytes.len() == 4 && !(bytes[0] == 5 && bytes[1] == 0) ==> c.at(Stage::Associating).step(
            EventView::Received(bytes),
        ) == Err::<(Connecting, ActionView), ConnectError>(
            ConnectError::ProxyHandshakeFailed { reply: Some(bytes[1]) },
        ),
        bytes.len() == 4 && bytes[0] == 5 && bytes[1] == 0 && bytes[3] != 1 && bytes[3] != 4
            ==> c.at(Stage::Associating).step(EventView::Received(bytes)) == Err::<
            (Connecting, ActionView),
            ConnectError,
        >(ConnectError::ProxyUnsupportedAddressType),
{
    if bytes.len() == 2 && method_accepted(bytes) {
        assert(bytes[0] == 5 && bytes[1] == 0);
    }
}

} // verus!
