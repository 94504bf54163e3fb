use sagittarius::accept::{wait_after_accept, ACCEPT_RETRY_DELAY};
use sagittarius::addr::{
    u16_from_be_bytes, u16_to_be_bytes, SocketAddr, SocketAddrV4, SocketAddrV6,
};
use sagittarius::client;
use sagittarius::server;
use sagittarius::text::log_line;
use sagittarius::{AsyncRead, AsyncWrite, DEFAULT_SERVER_ADDR};
use std::io::Error;
use std::task::{Context, Poll};

struct Closed;

impl AsyncRead for Closed {
    fn poll_read(&mut self, _cx: &mut Context<'_>, _buf: &mut [u8]) -> Poll<Result<usize, Error>> {
        Poll::Ready(Ok(0))
    }
}

impl AsyncWrite for Closed {
    fn poll_write(&mut self, _cx: &mut Context<'_>, _buf: &[u8]) -> Poll<Result<usize, Error>> {
        Poll::Pending
    }

    fn poll_flush(&mut self, _cx: &mut Context<'_>) -> Poll<Result<(), Error>> {
        Poll::Pending
    }
}

/// Hands a session the bytes that it asks for; returns its replies, and its
/// rejection if there is one.
fn negotiate(
    session: &mut client::Session,
    mut input: &[u8],
) -> (Vec<u8>, Option<client::Rejection>) {
    let mut replies = Vec::new();
    while let client::Next::Read(n) = session.next() {
        let (bytes, rest) = input.split_at(n);
        input = rest;
        match session.received(bytes) {
            Ok(reply) => replies.extend(reply),
            Err(rejection) => return (replies, Some(rejection)),
        }
    }
    assert!(input.is_empty());
    (replies, None)
}

fn request(front: [u8; 4]) -> Vec<u8> {
    let mut input = vec![5, 1, 0];
    input.extend(front);
    input
}

fn rejected(input: &[u8]) -> (Vec<u8>, client::Rejection) {
    let mut session = client::Session::new();
    let (replies, rejection) = negotiate(&mut session, input);
    (replies, rejection.expect("a rejection"))
}

fn requested(host: &[u8], port: [u8; 2]) -> client::Session {
    let mut input = request([5, 1, 0, 3]);
    input.push(host.len() as u8);
    input.extend(host);
    input.extend(port);
    let mut session = client::Session::new();
    let (replies, rejection) = negotiate(&mut session, &input);
    assert_eq!(replies, vec![5, 0]);
    assert!(rejection.is_none());
    assert_eq!(session.next(), client::Next::Connect);
    session
}

#[test]
fn a_request_by_name_is_accepted() {
    let session = requested(b"example.org", [0x01, 0xbb]);
    assert_eq!(session.host(), b"example.org");
    assert_eq!(session.normalized_host(), "example.org");
    assert_eq!(session.normalized_port(), 443);
}

#[test]
fn a_session_reads_step_by_step() {
    let mut session = client::Session::new();
    assert_eq!(session.next(), client::Next::Read(2));
    assert_eq!(session.received(&[5, 3]).unwrap(), Vec::<u8>::new());
    assert_eq!(session.next(), client::Next::Read(3));
    assert_eq!(session.received(&[0, 1, 2]).unwrap(), vec![5, 0]);
    assert_eq!(session.next(), client::Next::Read(4));
    assert_eq!(session.received(&[5, 1, 0, 3]).unwrap(), Vec::<u8>::new());
    assert_eq!(session.next(), client::Next::Read(1));
    assert_eq!(session.received(&[2]).unwrap(), Vec::<u8>::new());
    assert_eq!(session.next(), client::Next::Read(2));
    assert_eq!(session.received(b"ab").unwrap(), Vec::<u8>::new());
    assert_eq!(session.next(), client::Next::Read(2));
    assert_eq!(session.received(&[0, 80]).unwrap(), Vec::<u8>::new());
    assert_eq!(session.next(), client::Next::Connect);
}

#[test]
fn no_methods_and_no_name_are_read_as_nothing() {
    let mut session = client::Session::new();
    let (replies, rejection) =
        negotiate(&mut session, &[5, 0, 5, 1, 0, 3, 0, 0, 80]);
    assert_eq!(replies, vec![5, 0]);
    assert!(rejection.is_none());
    assert_eq!(session.normalized_host(), "");
    assert_eq!(session.normalized_port(), 80);
}

#[test]
fn the_longest_name_is_accepted() {
    let host = vec![b'x'; 255];
    let mut session = requested(&host, [0, 1]);
    let local = SocketAddr::V4(SocketAddrV4 { ip: [1, 2, 3, 4], port: 5 });
    let opening = session.address(Ok(local)).unwrap();
    assert_eq!(opening.size, 255);
    assert_eq!(opening.header.len(), 257);
}

#[test]
fn an_unknown_version_is_rejected() {
    let (replies, rejection) = rejected(&[4, 1]);
    assert!(replies.is_empty());
    assert!(rejection.reply.is_empty());
    assert_eq!(rejection.error.message(), "unknown version 4");

    let (replies, rejection) = rejected(&request([255, 1, 0, 3]));
    assert_eq!(replies, vec![5, 0]);
    assert!(rejection.reply.is_empty());
    assert_eq!(rejection.error.message(), "unknown version 255");
    assert!(client::validate_version(&[5]).is_ok());
    assert!(client::validate_version(&[6, 5]).is_err());
}

#[test]
fn another_command_is_refused() {
    let (replies, rejection) = rejected(&request([5, 2, 0, 3]));
    assert_eq!(replies, vec![5, 0]);
    assert_eq!(rejection.reply, vec![5, 7, 0, 1, 0, 0, 0, 0, 0, 0]);
    assert_eq!(rejection.error.message(), "unsupported CMD 0x02");
}

#[test]
fn a_wrong_reserved_byte_is_rejected() {
    let (_, rejection) = rejected(&request([5, 1, 0xfe, 3]));
    assert!(rejection.reply.is_empty());
    assert_eq!(rejection.error.message(), "wrong RSV 0xfe");
}

#[test]
fn other_types_of_addresses_are_refused() {
    let refusal = vec![5, 8, 0, 1, 0, 0, 0, 0, 0, 0];
    let (_, rejection) = rejected(&request([5, 1, 0, 1]));
    assert_eq!(rejection.reply, refusal);
    assert_eq!(rejection.error.message(), "address type IPV4 not supported");
    let (_, rejection) = rejected(&request([5, 1, 0, 4]));
    assert_eq!(rejection.reply, refusal);
    assert_eq!(rejection.error.message(), "address type IPV6 not supported");
    let (_, rejection) = rejected(&request([5, 1, 0, 0x1a]));
    assert_eq!(rejection.reply, refusal);
    assert_eq!(rejection.error.message(), "unknown address type 0x1a");
}

#[test]
fn a_connection_is_announced_to_both_sides() {
    let mut session = requested(b"ab", [0x12, 0x34]);
    let local = SocketAddr::V4(SocketAddrV4 { ip: [127, 0, 0, 1], port: 0xabcd });
    let opening = session.address(Ok(local)).unwrap();
    assert_eq!(opening.reply, vec![5, 0, 0, 1, 127, 0, 0, 1, 0xab, 0xcd]);
    assert_eq!(opening.size, 2);
    assert_eq!(opening.header, vec![b'a', b'b', 0x12, 0x34]);
    assert_eq!(session.next(), client::Next::Relay);
}

#[test]
fn a_connection_over_ipv6_is_not_replied() {
    let mut session = requested(b"ab", [0, 1]);
    let local = SocketAddr::V6(SocketAddrV6 { ip: [0; 16], port: 1 });
    let opening = session.address(Ok(local)).unwrap();
    assert!(opening.reply.is_empty());
    assert_eq!(opening.header, vec![b'a', b'b', 0, 1]);
}

#[test]
fn a_failed_connection_is_refused() {
    for (kind, code) in [
        (client::ErrorKind::ConnectionRefused, 5),
        (client::ErrorKind::ConnectionAborted, 4),
        (client::ErrorKind::Other, 3),
    ] {
        let mut session = requested(b"ab", [0, 1]);
        let error = client::ConnectError {
            kind,
            remote: DEFAULT_SERVER_ADDR.to_string(),
            err: "gone".to_string(),
        };
        let rejection = session.address(Err(error)).unwrap_err();
        assert_eq!(rejection.reply, vec![5, code, 0, 1, 0, 0, 0, 0, 0, 0]);
        assert_eq!(
            rejection.error.message(),
            "error connect to server 127.0.0.1:18888. err: gone"
        );
    }
}

#[test]
fn the_client_labels_its_relay() {
    let session = requested("h\u{f6}st".as_bytes(), [0x1f, 0x90]);
    assert_eq!(session.normalized_host(), "h\u{f6}st");
    let (browser, server) = session.labels("10.0.0.1:5000");
    assert_eq!(browser, "browser(h\u{f6}st:8080)");
    assert_eq!(server, "server(10.0.0.1:5000)");
    let _ = session.relay(Closed, Closed, Closed, Closed, "10.0.0.1:5000");
}

fn v4(last: u8, port: u16) -> SocketAddrV4 {
    SocketAddrV4 { ip: [10, 0, 0, last], port }
}

fn read_target(session: &mut server::Session, host: &str, port: u16) {
    assert_eq!(session.next(), server::Next::Read { len: 1, wait_on_fail: true });
    session.read_address(vec![host.len() as u8]).unwrap();
    assert_eq!(session.next(), server::Next::Read { len: host.len(), wait_on_fail: true });
    session.read_address(host.as_bytes().to_vec()).unwrap();
    assert_eq!(session.next(), server::Next::Read { len: 2, wait_on_fail: false });
    session.read_address(u16_to_be_bytes(port).to_vec()).unwrap();
}

#[test]
fn the_server_reads_what_the_client_sends() {
    let mut client = requested("h\u{f6}st.example".as_bytes(), [0x01, 0xbb]);
    let opening = client.address(Ok(SocketAddr::V4(v4(1, 1)))).unwrap();
    let mut session = server::Session::new();
    session.read_address(vec![opening.size]).unwrap();
    let (host, port) = opening.header.split_at(opening.size as usize);
    session.read_address(host.to_vec()).unwrap();
    session.read_address(port.to_vec()).unwrap();
    assert_eq!(session.next(), server::Next::Lookup);
    assert_eq!(session.target_addr(), "h\u{f6}st.example:443");
}

#[test]
fn a_name_that_is_no_text_is_rejected() {
    let mut session = server::Session::new();
    session.read_address(vec![2]).unwrap();
    match session.read_address(vec![0xff, 0xfe]) {
        Err(server::SessionError::Utf8(e)) => assert_eq!(e.into_bytes(), vec![0xff, 0xfe]),
        other => panic!("{:?}", other),
    }
}

#[test]
fn the_only_ipv4_address_is_chosen() {
    let mut session = server::Session::new();
    read_target(&mut session, "a", 80);
    let addrs = vec![
        SocketAddr::V6(SocketAddrV6 { ip: [1; 16], port: 80 }),
        SocketAddr::V4(v4(7, 80)),
        SocketAddr::V6(SocketAddrV6 { ip: [2; 16], port: 80 }),
    ];
    assert_eq!(session.looked_up(Ok(addrs)).unwrap(), v4(7, 80));
    assert_eq!(session.next(), server::Next::Connect(v4(7, 80)));
    session.connected(Ok(())).unwrap();
    assert_eq!(session.next(), server::Next::Relay);
    assert_eq!(session.target_label("10.0.0.7:80"), "a:80(10.0.0.7:80)");
    let _ = session.relay(
        Closed,
        Closed,
        Closed,
        Closed,
        "10.0.0.9:1".to_string(),
        "10.0.0.7:80",
    );
}

#[test]
fn some_ipv4_address_is_chosen() {
    let addrs: Vec<SocketAddr> = (0..4).map(|i| SocketAddr::V4(v4(i, 80))).collect();
    assert_eq!(server::ipv4_addrs(&addrs), vec![v4(0, 80), v4(1, 80), v4(2, 80), v4(3, 80)]);
    let mut seen = [false; 4];
    for _ in 0..200 {
        let mut session = server::Session::new();
        read_target(&mut session, "a", 80);
        let addr = session.looked_up(Ok(addrs.clone())).unwrap();
        assert_eq!(session.next(), server::Next::Connect(addr));
        seen[addr.ip[3] as usize] = true;
    }
    assert_eq!(seen, [true; 4]);
}

#[test]
fn other_addresses_are_left_out() {
    let v6 = |b: u8| SocketAddr::V6(SocketAddrV6 { ip: [b; 16], port: 80 });
    assert_eq!(server::ipv4_addrs(&vec![]), vec![]);
    assert_eq!(server::ipv4_addrs(&vec![v6(1), v6(2)]), vec![]);
    let mixed = vec![SocketAddr::V4(v4(2, 80)), v6(1), SocketAddr::V4(v4(1, 80))];
    assert_eq!(server::ipv4_addrs(&mixed), vec![v4(2, 80), v4(1, 80)]);
}

#[test]
fn a_failed_lookup_is_reported() {
    let mut session = server::Session::new();
    read_target(&mut session, "nowhere", 8080);
    match session.looked_up(Err("no such host".to_string())) {
        Err(server::SessionError::Unreachable(text)) => {
            assert_eq!(text, "fail to resolve nowhere:8080. err: no such host")
        }
        other => panic!("{:?}", other),
    }
}

#[test]
fn a_settled_target_is_remembered() {
    let mut session = server::Session::new();
    read_target(&mut session, "a", 80);
    session.settle(v4(1, 80));
    session.connected(Ok(())).unwrap();
    session.restart();
    read_target(&mut session, "b", 80);
    assert_eq!(session.next(), server::Next::Lookup);
    session.settle(v4(2, 80));
    session.restart();
    read_target(&mut session, "a", 80);
    assert_eq!(session.next(), server::Next::Connect(v4(1, 80)));
    session.settle(v4(3, 80));
    session.restart();
    read_target(&mut session, "a", 80);
    assert_eq!(session.next(), server::Next::Connect(v4(3, 80)));
    session.restart();
    read_target(&mut session, "a", 81);
    assert_eq!(session.next(), server::Next::Lookup);
}

#[test]
fn a_failed_connection_is_forgotten() {
    let mut session = server::Session::new();
    read_target(&mut session, "a", 80);
    session.settle(v4(1, 80));
    match session.connected(Err("refused".to_string())) {
        Err(server::SessionError::Unreachable(text)) => {
            assert_eq!(text, "failed to connect remote a:80(10.0.0.1:80), refused")
        }
        other => panic!("{:?}", other),
    }
    session.restart();
    read_target(&mut session, "a", 80);
    assert_eq!(session.next(), server::Next::Lookup);
}

#[test]
fn the_target_used_least_recently_is_forgotten() {
    let mut session = server::Session::new();
    for port in 0..server::CACHE_SIZE as u16 {
        read_target(&mut session, "a", port);
        session.settle(v4(1, port));
        session.restart();
    }
    read_target(&mut session, "a", 0);
    assert_eq!(session.next(), server::Next::Connect(v4(1, 0)));
    session.restart();
    read_target(&mut session, "b", 0);
    session.settle(v4(2, 0));
    session.restart();
    read_target(&mut session, "a", 1);
    assert_eq!(session.next(), server::Next::Lookup);
    session.restart();
    read_target(&mut session, "a", 0);
    assert_eq!(session.next(), server::Next::Connect(v4(1, 0)));
    session.restart();
    read_target(&mut session, "a", 2);
    assert_eq!(session.next(), server::Next::Connect(v4(1, 2)));
}

#[test]
fn only_a_failure_is_followed_by_a_wait() {
    let ok: Result<u8, ()> = Ok(1);
    assert_eq!(server::random_wait_on_fail(&ok), None);
    let failed: Result<u8, ()> = Err(());
    for _ in 0..200 {
        let millis = server::random_wait_on_fail(&failed).unwrap();
        assert!(100 <= millis && millis < 5000);
    }
}

#[test]
fn numbers_survive_as_bytes() {
    for n in [0, 1, 255, 256, 18888, 65535] {
        assert_eq!(u16_from_be_bytes(u16_to_be_bytes(n)), n);
    }
    assert_eq!(u16_to_be_bytes(0x1234), [0x12, 0x34]);
}

#[test]
fn addresses_are_written_with_dots() {
    let mut text = String::from("at ");
    SocketAddrV4 { ip: [192, 168, 0, 255], port: 65535 }.push_text(&mut text);
    assert_eq!(text, "at 192.168.0.255:65535");
}

#[test]
fn log_lines_are_aligned() {
    assert_eq!(
        log_line("12:00", "INFO", "src/main.rs", 120, "hello"),
        "[12:00 INFO  src/main.rs:120] hello"
    );
    assert_eq!(log_line("t", "DEBUG", "f", 0, ""), "[t DEBUG f:0] ");
    assert_eq!(log_line("t", "LONGER", "f", 10, "m"), "[t LONGER f:10] m");
}

#[test]
fn a_failed_accept_is_followed_by_a_fixed_wait() {
    assert_eq!(ACCEPT_RETRY_DELAY, 500);
    assert_eq!(wait_after_accept::<(), &str>(&Err("too many open files")), Some(500));
    assert_eq!(wait_after_accept::<u8, ()>(&Ok(1)), None);
}
