use peerlink::addr::{Family, IpAddress, SocketAddress};
use peerlink::connect::{
    make_direct_plan, make_relay_plan, Action, Connecting, Event, ProxyConfig, ProxyKind,
    SocketPlan, Stage,
};
use peerlink::endpoint::Endpoint;
use peerlink::error::ConnectError;
use peerlink::socks5::{
    address_len, associate_request, check_method_reply, check_reply_head, greeting,
    port_from_bytes,
};

type Outcome = Result<(Connecting, Action), ConnectError>;

fn proxy(kind: &str, address: &str) -> Option<ProxyConfig> {
    Some(ProxyConfig { proxy_type: kind.to_string(), address: address.to_string() })
}

fn target() -> SocketAddress {
    SocketAddress::new(IpAddress::V4(0xc633_6407), 51820)
}

fn known() -> Endpoint<u32> {
    Endpoint::new(Some(target()))
}

fn proxy_addr() -> SocketAddress {
    SocketAddress::new(IpAddress::V4(0x7f00_0001), 1080)
}

/// A proxy that answers from a script: takes what the client sends and hands
/// out what the script holds, as many bytes as are asked for.
struct MockProxy {
    script: Vec<u8>,
    sent: Vec<u8>,
    dialed: Option<SocketAddress>,
    resolved: Option<SocketAddress>,
}

impl MockProxy {
    fn new(resolved: Option<SocketAddress>, script: &[u8]) -> MockProxy {
        MockProxy { script: script.to_vec(), sent: Vec::new(), dialed: None, resolved }
    }

    fn read(&mut self, count: usize) -> Event {
        assert!(self.script.len() >= count, "the client reads past the script");
        let rest = self.script.split_off(count);
        let bytes = std::mem::replace(&mut self.script, rest);
        Event::Received(bytes)
    }

    /// Runs an attempt to its end and gives the socket plan or the error.
    fn run(&mut self, first: Outcome) -> Result<SocketPlan, ConnectError> {
        let mut step = first;
        loop {
            let (state, action) = step?;
            let event = match action {
                Action::Resolve { address } => {
                    assert_eq!(address, "127.0.0.1:1080");
                    Event::Resolved(self.resolved)
                }
                Action::Dial { proxy, send, receive } => {
                    self.dialed = Some(proxy);
                    self.sent.extend(send);
                    self.read(receive)
                }
                Action::Exchange { send, receive } => {
                    assert!(self.dialed.is_some());
                    self.sent.extend(send);
                    self.read(receive)
                }
                Action::Receive { count } => {
                    assert!(self.dialed.is_some());
                    self.read(count)
                }
                Action::Open { plan } => {
                    assert_eq!(state.stage, Stage::Finished);
                    return Ok(plan);
                }
            };
            assert!(state.accepts_event(&event));
            step = state.advance(event);
        }
    }
}

fn socks5_attempt(port: u16, fwmark: Option<u32>) -> Outcome {
    Connecting::start(&known(), port, fwmark, proxy("socks5", "127.0.0.1:1080"))
}

#[test]
fn greeting_is_version_5_one_method_no_authentication() {
    assert_eq!(greeting(), vec![0x05, 0x01, 0x00]);
}

#[test]
fn associate_request_carries_the_port_high_byte_first() {
    assert_eq!(
        associate_request(51820),
        vec![0x05, 0x03, 0x00, 0x01, 0, 0, 0, 0, 0xca, 0x6c]
    );
    assert_eq!(associate_request(0), vec![0x05, 0x03, 0x00, 0x01, 0, 0, 0, 0, 0, 0]);
    assert_eq!(associate_request(1), vec![0x05, 0x03, 0x00, 0x01, 0, 0, 0, 0, 0, 1]);
    assert_eq!(associate_request(256), vec![0x05, 0x03, 0x00, 0x01, 0, 0, 0, 0, 1, 0]);
    assert_eq!(
        associate_request(65535),
        vec![0x05, 0x03, 0x00, 0x01, 0, 0, 0, 0, 0xff, 0xff]
    );
}

#[test]
fn associate_request_agrees_with_to_be_bytes() {
    for port in [0u16, 1, 80, 255, 256, 1080, 32768, 51820, 65535] {
        let request = associate_request(port);
        assert_eq!(request.len(), 10);
        assert_eq!(&request[8..], &port.to_be_bytes());
        assert_eq!(port_from_bytes(&request[8..]), port);
    }
}

#[test]
fn method_reply_must_be_version_5_method_0() {
    let refused = Err(ConnectError::ProxyHandshakeFailed { reply: None });
    assert_eq!(check_method_reply(&[0x05, 0x00]), Ok(()));
    assert_eq!(check_method_reply(&[0x05, 0xff]), refused);
    assert_eq!(check_method_reply(&[0x05, 0x02]), refused);
    assert_eq!(check_method_reply(&[0x04, 0x00]), refused);
    assert_eq!(check_method_reply(&[0x00, 0x05]), refused);
    assert_eq!(check_method_reply(&[0x05]), refused);
    assert_eq!(check_method_reply(&[0x05, 0x00, 0x00]), refused);
    assert_eq!(check_method_reply(&[]), refused);
}

#[test]
fn reply_head_names_the_family_of_the_relay() {
    assert_eq!(check_reply_head(&[5, 0, 0, 1]), Ok(Family::V4));
    assert_eq!(check_reply_head(&[5, 0, 0, 4]), Ok(Family::V6));
    assert_eq!(check_reply_head(&[5, 0, 0x7f, 1]), Ok(Family::V4));
}

#[test]
fn reply_head_with_a_failure_code_carries_the_code() {
    for code in 1..=255u8 {
        assert_eq!(
            check_reply_head(&[5, code, 0, 1]),
            Err(ConnectError::ProxyHandshakeFailed { reply: Some(code) })
        );
    }
    assert_eq!(
        check_reply_head(&[4, 0, 0, 1]),
        Err(ConnectError::ProxyHandshakeFailed { reply: Some(0) })
    );
    assert_eq!(
        check_reply_head(&[5, 7, 0, 9]),
        Err(ConnectError::ProxyHandshakeFailed { reply: Some(7) })
    );
}

#[test]
fn reply_head_with_another_address_type_is_unsupported() {
    for atyp in 0..=255u8 {
        if atyp != 1 && atyp != 4 {
            assert_eq!(
                check_reply_head(&[5, 0, 0, atyp]),
                Err(ConnectError::ProxyUnsupportedAddressType)
            );
        }
    }
}

#[test]
fn address_length_follows_the_family() {
    assert_eq!(address_len(Family::V4), 4);
    assert_eq!(address_len(Family::V6), 16);
}

#[test]
fn port_is_read_high_byte_first() {
    assert_eq!(port_from_bytes(&[0, 0]), 0);
    assert_eq!(port_from_bytes(&[0, 80]), 80);
    assert_eq!(port_from_bytes(&[0x1f, 0x90]), 8080);
    assert_eq!(port_from_bytes(&[0xff, 0xff]), 65535);
}

#[test]
fn proxy_kind_goes_by_the_exact_tag() {
    let kind = |tag: &str| proxy(tag, "x").unwrap().kind();
    assert_eq!(kind("socks5"), ProxyKind::Socks5);
    assert_eq!(kind("http"), ProxyKind::Http);
    assert_eq!(kind("SOCKS5"), ProxyKind::Unrecognized);
    assert_eq!(kind("socks5 "), ProxyKind::Unrecognized);
    assert_eq!(kind("socks4"), ProxyKind::Unrecognized);
    assert_eq!(kind("https"), ProxyKind::Unrecognized);
    assert_eq!(kind(""), ProxyKind::Unrecognized);
}

#[test]
fn direct_plan_is_a_bare_socket_of_the_target_family() {
    assert_eq!(
        make_direct_plan(target(), Some(9)),
        SocketPlan {
            family: Family::V4,
            reuse_address: false,
            bind: None,
            connect: None,
            nonblocking: true,
            mark: Some(9),
        }
    );
    let v6 = SocketAddress::V6 { ip: 1, port: 2, flowinfo: 3, scope_id: 4 };
    assert_eq!(make_direct_plan(v6, None).family, Family::V6);
    assert_eq!(make_direct_plan(v6, None).mark, None);
}

#[test]
fn relay_plan_binds_the_wildcard_and_connects_to_the_relay() {
    let relay = SocketAddress::new(IpAddress::V4(0x0a00_0001), 4000);
    assert_eq!(
        make_relay_plan(relay, 51820, None),
        SocketPlan {
            family: Family::V4,
            reuse_address: true,
            bind: Some(SocketAddress::V4 { ip: 0, port: 51820 }),
            connect: Some(relay),
            nonblocking: true,
            mark: None,
        }
    );
    let relay6 = SocketAddress::new(IpAddress::V6(0xfd00 << 112), 4000);
    assert_eq!(
        make_relay_plan(relay6, 7, Some(1)),
        SocketPlan {
            family: Family::V6,
            reuse_address: true,
            bind: Some(SocketAddress::V6 { ip: 0, port: 7, flowinfo: 0, scope_id: 0 }),
            connect: Some(relay6),
            nonblocking: true,
            mark: Some(1),
        }
    );
}

#[test]
fn without_proxy_the_socket_is_the_direct_one() {
    let r = Connecting::start(&known(), 51820, Some(77), None);
    assert_eq!(
        r,
        Ok((
            Connecting { port: 51820, fwmark: Some(77), stage: Stage::Finished },
            Action::Open { plan: make_direct_plan(target(), Some(77)) },
        ))
    );
}

#[test]
fn direct_socket_takes_the_family_of_an_ipv6_target() {
    let addr = SocketAddress::new(IpAddress::V6(1), 51820);
    let endpoint: Endpoint<u32> = Endpoint::new(Some(addr));
    match Connecting::start(&endpoint, 1, None, None) {
        Ok((_, Action::Open { plan })) => assert_eq!(plan.family, Family::V6),
        other => panic!("unexpected outcome {:?}", other),
    }
}

#[test]
fn http_proxy_falls_back_to_the_direct_socket() {
    let direct = Connecting::start(&known(), 51820, None, None);
    assert_eq!(Connecting::start(&known(), 51820, None, proxy("http", "127.0.0.1:8080")), direct);
    assert_eq!(Connecting::start(&known(), 51820, None, proxy("http", "not an address")), direct);
}

#[test]
fn unknown_proxy_type_falls_back_to_the_direct_socket() {
    let direct = Connecting::start(&known(), 51820, None, None);
    assert_eq!(Connecting::start(&known(), 51820, None, proxy("socks4", "127.0.0.1:1080")), direct);
    assert_eq!(Connecting::start(&known(), 51820, None, proxy("", "")), direct);
    assert_eq!(Connecting::start(&known(), 51820, None, proxy("Socks5", "127.0.0.1:1080")), direct);
}

#[test]
fn socks5_proxy_begins_with_its_address() {
    assert_eq!(
        socks5_attempt(51820, Some(5)),
        Ok((
            Connecting { port: 51820, fwmark: Some(5), stage: Stage::Resolving },
            Action::Resolve { address: "127.0.0.1:1080".to_string() },
        ))
    );
}

#[test]
fn connected_endpoint_is_refused_before_anything_else() {
    let connected = Endpoint { addr: Some(target()), conn: Some(3u32) };
    let refused = Err(ConnectError::AlreadyConnected);
    assert_eq!(Connecting::start(&connected, 1, None, None), refused);
    assert_eq!(Connecting::start(&connected, 1, None, proxy("socks5", "127.0.0.1:1080")), refused);
    assert_eq!(Connecting::start(&connected, 1, None, proxy("http", "x")), refused);
    let odd = Endpoint { addr: None, conn: Some(3u32) };
    assert_eq!(Connecting::start(&odd, 1, None, None), refused);
}

#[test]
fn proxy_address_that_is_none_fails_the_attempt() {
    let mut mock = MockProxy::new(None, &[]);
    assert_eq!(mock.run(socks5_attempt(51820, None)), Err(ConnectError::ProxyAddressInvalid));
    assert_eq!(mock.dialed, None);
    assert!(mock.sent.is_empty());
}

#[test]
fn socks5_handshake_yields_a_socket_for_the_ipv4_relay() {
    let mut mock = MockProxy::new(
        Some(proxy_addr()),
        &[0x05, 0x00, 0x05, 0x00, 0x00, 0x01, 203, 0, 113, 9, 0x1f, 0x90],
    );
    let plan = mock.run(socks5_attempt(51820, Some(42))).unwrap();
    let relay = SocketAddress::V4 { ip: 0xcb00_7109, port: 8080 };
    assert_eq!(
        plan,
        SocketPlan {
            family: Family::V4,
            reuse_address: true,
            bind: Some(SocketAddress::V4 { ip: 0, port: 51820 }),
            connect: Some(relay),
            nonblocking: true,
            mark: Some(42),
        }
    );
    assert_eq!(mock.dialed, Some(proxy_addr()));
    assert_eq!(
        mock.sent,
        vec![0x05, 0x01, 0x00, 0x05, 0x03, 0x00, 0x01, 0, 0, 0, 0, 0xca, 0x6c]
    );
    assert!(mock.script.is_empty());
}

#[test]
fn socks5_handshake_yields_a_socket_for_the_ipv6_relay() {
    let mut script = vec![0x05, 0x00, 0x05, 0x00, 0x00, 0x04];
    script.extend([0x20, 0x01, 0x0d, 0xb8, 0, 0, 0, 0, 0, 0, 0, 0, 0, 0, 0, 0x01]);
    script.extend([0x00, 0x35]);
    let mut mock = MockProxy::new(Some(proxy_addr()), &script);
    let plan = mock.run(socks5_attempt(9000, None)).unwrap();
    let relay = SocketAddress::V6 {
        ip: (0x2001_0db8 << 96) | 1,
        port: 53,
        flowinfo: 0,
        scope_id: 0,
    };
    assert_eq!(
        plan,
        SocketPlan {
            family: Family::V6,
            reuse_address: true,
            bind: Some(SocketAddress::V6 { ip: 0, port: 9000, flowinfo: 0, scope_id: 0 }),
            connect: Some(relay),
            nonblocking: true,
            mark: None,
        }
    );
    assert!(mock.script.is_empty());
}

#[test]
fn socks5_greeting_refused_fails_the_handshake() {
    let mut mock = MockProxy::new(Some(proxy_addr()), &[0x05, 0xff]);
    assert_eq!(
        mock.run(socks5_attempt(51820, None)),
        Err(ConnectError::ProxyHandshakeFailed { reply: None })
    );
    assert_eq!(mock.sent, vec![0x05, 0x01, 0x00]);
}

#[test]
fn socks5_proxy_that_demands_authentication_fails_the_handshake() {
    let mut mock = MockProxy::new(Some(proxy_addr()), &[0x05, 0x02]);
    assert_eq!(
        mock.run(socks5_attempt(51820, None)),
        Err(ConnectError::ProxyHandshakeFailed { reply: None })
    );
}

#[test]
fn socks5_request_refused_fails_with_the_reply_code() {
    let mut mock = MockProxy::new(Some(proxy_addr()), &[0x05, 0x00, 0x05, 0x07, 0x00, 0x01]);
    assert_eq!(
        mock.run(socks5_attempt(51820, None)),
        Err(ConnectError::ProxyHandshakeFailed { reply: Some(7) })
    );
    assert_eq!(mock.sent.len(), 13);
}

#[test]
fn socks5_unsupported_address_type_fails() {
    let mut mock = MockProxy::new(Some(proxy_addr()), &[0x05, 0x00, 0x05, 0x00, 0x00, 0x07]);
    assert_eq!(
        mock.run(socks5_attempt(51820, None)),
        Err(ConnectError::ProxyUnsupportedAddressType)
    );
}

#[test]
fn socks5_domain_name_relay_is_unsupported() {
    let mut mock = MockProxy::new(Some(proxy_addr()), &[0x05, 0x00, 0x05, 0x00, 0x00, 0x03]);
    assert_eq!(
        mock.run(socks5_attempt(51820, None)),
        Err(ConnectError::ProxyUnsupportedAddressType)
    );
}

#[test]
fn each_stage_accepts_the_answer_to_its_action_only() {
    let at = |stage: Stage| Connecting { port: 1, fwmark: None, stage };
    let bytes = |n: usize| Event::Received(vec![0; n]);
    let resolved = Event::Resolved(None);

    assert!(at(Stage::Resolving).accepts_event(&resolved));
    assert!(!at(Stage::Resolving).accepts_event(&bytes(2)));
    assert!(at(Stage::Greeting).accepts_event(&bytes(2)));
    assert!(!at(Stage::Greeting).accepts_event(&bytes(3)));
    assert!(!at(Stage::Greeting).accepts_event(&resolved));
    assert!(at(Stage::Associating).accepts_event(&bytes(4)));
    assert!(!at(Stage::Associating).accepts_event(&bytes(2)));
    assert!(at(Stage::RelayAddress { family: Family::V4 }).accepts_event(&bytes(4)));
    assert!(!at(Stage::RelayAddress { family: Family::V4 }).accepts_event(&bytes(16)));
    assert!(at(Stage::RelayAddress { family: Family::V6 }).accepts_event(&bytes(16)));
    assert!(!at(Stage::RelayAddress { family: Family::V6 }).accepts_event(&bytes(4)));
    assert!(at(Stage::RelayPort { ip: IpAddress::V4(1) }).accepts_event(&bytes(2)));
    assert!(!at(Stage::RelayPort { ip: IpAddress::V4(1) }).accepts_event(&bytes(4)));
    assert!(!at(Stage::Finished).accepts_event(&bytes(0)));
    assert!(!at(Stage::Finished).accepts_event(&resolved));
}

#[test]
fn steps_keep_port_and_mark() {
    let start = Connecting { port: 4242, fwmark: Some(8), stage: Stage::Resolving };
    let (next, action) = start.advance(Event::Resolved(Some(proxy_addr()))).unwrap();
    assert_eq!(next, Connecting { port: 4242, fwmark: Some(8), stage: Stage::Greeting });
    assert_eq!(
        action,
        Action::Dial { proxy: proxy_addr(), send: vec![5, 1, 0], receive: 2 }
    );
    let (next, action) = next.advance(Event::Received(vec![5, 0])).unwrap();
    assert_eq!(next, Connecting { port: 4242, fwmark: Some(8), stage: Stage::Associating });
    assert_eq!(
        action,
        Action::Exchange { send: vec![5, 3, 0, 1, 0, 0, 0, 0, 0x10, 0x92], receive: 4 }
    );
    let (next, action) = next.advance(Event::Received(vec![5, 0, 0, 4])).unwrap();
    assert_eq!(next.stage, Stage::RelayAddress { family: Family::V6 });
    assert_eq!(action, Action::Receive { count: 16 });
    let (next, action) = next.advance(Event::Received(vec![0xff; 16])).unwrap();
    assert_eq!(next.stage, Stage::RelayPort { ip: IpAddress::V6(u128::MAX) });
    assert_eq!(action, Action::Receive { count: 2 });
    let (next, action) = next.advance(Event::Received(vec![0xab, 0xcd])).unwrap();
    assert_eq!(next, Connecting { port: 4242, fwmark: Some(8), stage: Stage::Finished });
    assert_eq!(
        action,
        Action::Open {
            plan: make_relay_plan(
                SocketAddress::new(IpAddress::V6(u128::MAX), 0xabcd),
                4242,
                Some(8)
            )
        }
    );
}
