use rocks_proxy::outgoing::OutgoingError;
use rocks_proxy::req_addr::{ReqAddr, SocketAddress};
use rocks_proxy::socks5::incoming::{Event, Next, Socks5Session};

fn greet_no_auth(s: &mut Socks5Session) {
    let out = s.start();
    assert_eq!(out.write, None);
    assert_eq!(out.next, Next::Read(2));
    let out = s.step(Event::Bytes(vec![0x05, 0x01]));
    assert_eq!(out.write, None);
    assert_eq!(out.next, Next::Read(1));
    let out = s.step(Event::Bytes(vec![0x00]));
    assert_eq!(out.write, Some(vec![0x05, 0x00]));
    assert_eq!(out.next, Next::Read(5));
}

#[test]
fn session_ipv4_connect_success() {
    let mut s = Socks5Session::new();
    greet_no_auth(&mut s);
    let out = s.step(Event::Bytes(vec![0x05, 0x01, 0x00, 0x01, 0x7f]));
    assert_eq!(out.write, None);
    assert_eq!(out.next, Next::Read(5));
    let out = s.step(Event::Bytes(vec![0x00, 0x00, 0x01, 0x00, 0x09]));
    assert_eq!(out.write, None);
    assert_eq!(
        out.next,
        Next::Connect(ReqAddr::IP(SocketAddress::V4 { ip: [127, 0, 0, 1], port: 9 }))
    );
    let local = SocketAddress::V4 { ip: [10, 1, 2, 3], port: 0x1092 };
    let out = s.step(Event::ConnectOk(local));
    assert_eq!(
        out.write,
        Some(vec![0x05, 0x00, 0x00, 0x01, 10, 1, 2, 3, 0x10, 0x92])
    );
    assert_eq!(out.next, Next::Splice);
    let out = s.step(Event::CopyDone);
    assert_eq!(out.write, None);
    assert_eq!(out.next, Next::Close);
}

#[test]
fn session_domain_connect() {
    let mut s = Socks5Session::new();
    greet_no_auth(&mut s);
    let out = s.step(Event::Bytes(vec![0x05, 0x01, 0x00, 0x03, 0x09]));
    assert_eq!(out.next, Next::Read(11));
    let mut body = b"localhost".to_vec();
    body.push(0x00);
    body.push(0x09);
    let out = s.step(Event::Bytes(body));
    assert_eq!(out.write, None);
    assert_eq!(out.next, Next::Connect(ReqAddr::Domain(b"localhost".to_vec(), 9)));
}

#[test]
fn session_connection_refused_mirrors_request() {
    let mut s = Socks5Session::new();
    greet_no_auth(&mut s);
    let out = s.step(Event::Bytes(vec![0x05, 0x01, 0x00, 0x01, 0x7f]));
    assert_eq!(out.next, Next::Read(5));
    let out = s.step(Event::Bytes(vec![0x00, 0x00, 0x01, 0x00, 0x01]));
    assert!(matches!(out.next, Next::Connect(_)));
    let out = s.step(Event::ConnectFailed(OutgoingError::ConnectionRefused));
    assert_eq!(
        out.write,
        Some(vec![0x05, 0x05, 0x00, 0x01, 0x7f, 0x00, 0x00, 0x01, 0x00, 0x01])
    );
    assert_eq!(out.next, Next::Close);
}

#[test]
fn session_unsupported_command() {
    let mut s = Socks5Session::new();
    greet_no_auth(&mut s);
    let out = s.step(Event::Bytes(vec![0x05, 0x02, 0x00, 0x01, 0x7f]));
    assert_eq!(
        out.write,
        Some(vec![0x05, 0x07, 0x00, 0x01, 0x00, 0x00, 0x00, 0x00, 0x00, 0x00])
    );
    assert_eq!(out.next, Next::Close);
}

#[test]
fn session_udp_associate_unsupported() {
    let mut s = Socks5Session::new();
    greet_no_auth(&mut s);
    let out = s.step(Event::Bytes(vec![0x05, 0x03, 0x00, 0x01, 0x7f]));
    assert_eq!(
        out.write,
        Some(vec![0x05, 0x07, 0x00, 0x01, 0x00, 0x00, 0x00, 0x00, 0x00, 0x00])
    );
    assert_eq!(out.next, Next::Close);
}

#[test]
fn session_no_acceptable_method() {
    let mut s = Socks5Session::new();
    let out = s.step(Event::Bytes(vec![0x05, 0x01]));
    assert_eq!(out.next, Next::Read(1));
    let out = s.step(Event::Bytes(vec![0x02]));
    assert_eq!(out.write, Some(vec![0x05, 0xff]));
    assert_eq!(out.next, Next::Close);
}

#[test]
fn session_zero_methods_rejected() {
    let mut s = Socks5Session::new();
    let out = s.step(Event::Bytes(vec![0x05, 0x00]));
    assert_eq!(out.next, Next::Read(0));
    let out = s.step(Event::Bytes(vec![]));
    assert_eq!(out.write, Some(vec![0x05, 0xff]));
    assert_eq!(out.next, Next::Close);
}

#[test]
fn session_bad_version_closes_silently() {
    let mut s = Socks5Session::new();
    let out = s.step(Event::Bytes(vec![0x04, 0x01]));
    assert_eq!(out.write, None);
    assert_eq!(out.next, Next::Close);
}

#[test]
fn session_unknown_atyp() {
    let mut s = Socks5Session::new();
    greet_no_auth(&mut s);
    let out = s.step(Event::Bytes(vec![0x05, 0x01, 0x00, 0x02, 0x7f]));
    assert_eq!(
        out.write,
        Some(vec![0x05, 0x08, 0x00, 0x01, 0x00, 0x00, 0x00, 0x00, 0x00, 0x00])
    );
    assert_eq!(out.next, Next::Close);
}

#[test]
fn session_domain_length_zero_rejected() {
    let mut s = Socks5Session::new();
    greet_no_auth(&mut s);
    let out = s.step(Event::Bytes(vec![0x05, 0x01, 0x00, 0x03, 0x00]));
    assert_eq!(
        out.write,
        Some(vec![0x05, 0x08, 0x00, 0x01, 0x00, 0x00, 0x00, 0x00, 0x00, 0x00])
    );
    assert_eq!(out.next, Next::Close);
}

#[test]
fn session_domain_not_utf8_rejected() {
    let mut s = Socks5Session::new();
    greet_no_auth(&mut s);
    let out = s.step(Event::Bytes(vec![0x05, 0x01, 0x00, 0x03, 0x02]));
    assert_eq!(out.next, Next::Read(4));
    let out = s.step(Event::Bytes(vec![0xff, 0xfe, 0x00, 0x09]));
    assert_eq!(
        out.write,
        Some(vec![0x05, 0x08, 0x00, 0x01, 0x00, 0x00, 0x00, 0x00, 0x00, 0x00])
    );
    assert_eq!(out.next, Next::Close);
}

#[test]
fn session_ipv6_request() {
    let mut s = Socks5Session::new();
    greet_no_auth(&mut s);
    let out = s.step(Event::Bytes(vec![0x05, 0x01, 0x00, 0x04, 0x00]));
    assert_eq!(out.next, Next::Read(17));
    let mut body = vec![0u8; 15];
    body[14] = 1;
    body.push(0x00);
    body.push(0x50);
    let out = s.step(Event::Bytes(body));
    let mut ip = [0u8; 16];
    ip[15] = 1;
    assert_eq!(out.next, Next::Connect(ReqAddr::IP(SocketAddress::V6 { ip, port: 80 })));
}

#[test]
fn session_general_failure_reply_code() {
    let mut s = Socks5Session::new();
    greet_no_auth(&mut s);
    s.step(Event::Bytes(vec![0x05, 0x01, 0x00, 0x01, 0x7f]));
    s.step(Event::Bytes(vec![0x00, 0x00, 0x01, 0x00, 0x09]));
    let out = s.step(Event::ConnectFailed(OutgoingError::TimedOut));
    let w = out.write.unwrap();
    assert_eq!(w[0], 0x05);
    assert_eq!(w[1], 0x06);
    assert_eq!(w[2], 0x00);
}

#[test]
fn session_read_failure_closes_without_reply() {
    let mut s = Socks5Session::new();
    greet_no_auth(&mut s);
    let out = s.step(Event::Failed);
    assert_eq!(out.write, None);
    assert_eq!(out.next, Next::Close);
}

#[test]
fn session_out_of_order_event_closes() {
    let mut s = Socks5Session::new();
    let local = SocketAddress::V4 { ip: [127, 0, 0, 1], port: 1 };
    let out = s.step(Event::ConnectOk(local));
    assert_eq!(out.write, None);
    assert_eq!(out.next, Next::Close);
}

#[test]
fn session_domain_failure_mirrors_domain() {
    let mut s = Socks5Session::new();
    greet_no_auth(&mut s);
    s.step(Event::Bytes(vec![0x05, 0x01, 0x00, 0x03, 0x04]));
    let out = s.step(Event::Bytes(b"host\x00\x50".to_vec()));
    assert!(matches!(out.next, Next::Connect(_)));
    let out = s.step(Event::ConnectFailed(OutgoingError::HostUnreachable));
    let mut expected = vec![0x05, 0x04, 0x00, 0x03, 0x04];
    expected.extend_from_slice(b"host");
    expected.extend_from_slice(&[0x00, 0x50]);
    assert_eq!(out.write, Some(expected));
    assert_eq!(out.next, Next::Close);
}
