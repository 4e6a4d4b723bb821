use rocks_proxy::config::{parse_ipv4_literal, parse_ipv6_literal, CfgAddr};
use rocks_proxy::error::Error;
use rocks_proxy::future_ext::FlagFuture;
use rocks_proxy::outgoing::{classify_connect_error, OutgoingError, PlatformErrorCodes};
use rocks_proxy::req_addr::{ReqAddr, SocketAddress};
use rocks_proxy::socks5::{get_reason, Socks5Error};

#[test]
fn ipv4_literal_accepts_dotted_quads() {
    assert_eq!(parse_ipv4_literal(b"127.0.0.1"), Some([127, 0, 0, 1]));
    assert_eq!(parse_ipv4_literal(b"0.0.0.0"), Some([0, 0, 0, 0]));
    assert_eq!(parse_ipv4_literal(b"255.255.255.255"), Some([255, 255, 255, 255]));
    assert_eq!(parse_ipv4_literal(b"10.20.30.40"), Some([10, 20, 30, 40]));
}

#[test]
fn ipv4_literal_rejects_malformed() {
    assert_eq!(parse_ipv4_literal(b""), None);
    assert_eq!(parse_ipv4_literal(b"1.2.3"), None);
    assert_eq!(parse_ipv4_literal(b"1.2.3.4.5"), None);
    assert_eq!(parse_ipv4_literal(b"256.0.0.1"), None);
    assert_eq!(parse_ipv4_literal(b"01.2.3.4"), None);
    assert_eq!(parse_ipv4_literal(b"1..2.3"), None);
    assert_eq!(parse_ipv4_literal(b"a.b.c.d"), None);
    assert_eq!(parse_ipv4_literal(b"1.2.3."), None);
    assert_eq!(parse_ipv4_literal(b".1.2.3"), None);
    assert_eq!(parse_ipv4_literal(b"1234.1.1.1"), None);
}

#[test]
fn ipv6_literal_accepts_usual_forms() {
    let mut loopback = [0u8; 16];
    loopback[15] = 1;
    assert_eq!(parse_ipv6_literal(b"::1"), Some(loopback));
    assert_eq!(parse_ipv6_literal(b"::"), Some([0u8; 16]));
    assert_eq!(parse_ipv6_literal(b"1::"), {
        let mut e = [0u8; 16];
        e[1] = 1;
        Some(e)
    });
    assert_eq!(
        parse_ipv6_literal(b"2001:db8::1"),
        Some([0x20, 0x01, 0x0d, 0xb8, 0, 0, 0, 0, 0, 0, 0, 0, 0, 0, 0, 1])
    );
    assert_eq!(
        parse_ipv6_literal(b"1:2:3:4:5:6:7:8"),
        Some([0, 1, 0, 2, 0, 3, 0, 4, 0, 5, 0, 6, 0, 7, 0, 8])
    );
    assert_eq!(
        parse_ipv6_literal(b"1:2:3:4:5:6:7::"),
        Some([0, 1, 0, 2, 0, 3, 0, 4, 0, 5, 0, 6, 0, 7, 0, 0])
    );
    assert_eq!(
        parse_ipv6_literal(b"::ffff:192.168.0.1"),
        Some([0, 0, 0, 0, 0, 0, 0, 0, 0, 0, 0xff, 0xff, 192, 168, 0, 1])
    );
    assert_eq!(
        parse_ipv6_literal(b"1:2:3:4:5:6:1.2.3.4"),
        Some([0, 1, 0, 2, 0, 3, 0, 4, 0, 5, 0, 6, 1, 2, 3, 4])
    );
    assert_eq!(
        parse_ipv6_literal(b"ABCD:ef01::"),
        Some([0xab, 0xcd, 0xef, 0x01, 0, 0, 0, 0, 0, 0, 0, 0, 0, 0, 0, 0])
    );
}

#[test]
fn ipv6_literal_rejects_malformed() {
    assert_eq!(parse_ipv6_literal(b""), None);
    assert_eq!(parse_ipv6_literal(b":"), None);
    assert_eq!(parse_ipv6_literal(b":::"), None);
    assert_eq!(parse_ipv6_literal(b"1:2:3"), None);
    assert_eq!(parse_ipv6_literal(b"1::2::3"), None);
    assert_eq!(parse_ipv6_literal(b"1:2:3:4:5:6:7:8:9"), None);
    assert_eq!(parse_ipv6_literal(b"1:2:3:4:5:6:7:8::"), None);
    assert_eq!(parse_ipv6_literal(b"12345::"), None);
    assert_eq!(parse_ipv6_literal(b"g::1"), None);
    assert_eq!(parse_ipv6_literal(b"1.2.3.4"), None);
    assert_eq!(parse_ipv6_literal(b"::1%lo0"), None);
    assert_eq!(parse_ipv6_literal(b"::ffff:1.2.3.04"), None);
    assert_eq!(parse_ipv6_literal(b"1:2:"), None);
    assert_eq!(parse_ipv6_literal(b":1:2:3:4:5:6:7:8"), None);
}

#[test]
fn cfg_addr_ipv6_parses() {
    let cfg = CfgAddr { ip: Some(b"::1".to_vec()), domain: None, port: 1080 };
    let a = cfg.into_addr().unwrap();
    let mut loopback = [0u8; 16];
    loopback[15] = 1;
    assert_eq!(a, ReqAddr::IP(SocketAddress::V6 { ip: loopback, port: 1080 }));

    let cfg = CfgAddr { ip: Some(b"2001:db8::1".to_vec()), domain: None, port: 443 };
    let a = cfg.into_addr().unwrap();
    assert_eq!(
        a,
        ReqAddr::IP(SocketAddress::V6 {
            ip: [0x20, 0x01, 0x0d, 0xb8, 0, 0, 0, 0, 0, 0, 0, 0, 0, 0, 0, 1],
            port: 443
        })
    );
}

#[test]
fn cfg_addr_ip_parses() {
    let cfg = CfgAddr { ip: Some(b"192.168.1.2".to_vec()), domain: None, port: 1080 };
    let a = cfg.into_addr().unwrap();
    assert_eq!(a, ReqAddr::IP(SocketAddress::V4 { ip: [192, 168, 1, 2], port: 1080 }));
}

#[test]
fn cfg_addr_domain_kept_for_resolution() {
    let cfg = CfgAddr { ip: None, domain: Some(b"example.org".to_vec()), port: 80 };
    let a = cfg.into_addr().unwrap();
    assert_eq!(a, ReqAddr::Domain(b"example.org".to_vec(), 80));
}

#[test]
fn cfg_addr_rejects_bad_forms() {
    let both = CfgAddr {
        ip: Some(b"127.0.0.1".to_vec()),
        domain: Some(b"x".to_vec()),
        port: 1,
    };
    assert_eq!(both.into_addr(), Err(Error::InvalidConfig));
    let neither = CfgAddr { ip: None, domain: None, port: 1 };
    assert_eq!(neither.into_addr(), Err(Error::InvalidConfig));
    let bad_ip = CfgAddr { ip: Some(b"1.2.3".to_vec()), domain: None, port: 1 };
    assert_eq!(bad_ip.into_addr(), Err(Error::InvalidConfig));
    let empty_domain = CfgAddr { ip: None, domain: Some(vec![]), port: 1 };
    assert_eq!(empty_domain.into_addr(), Err(Error::InvalidConfig));
    let long_domain = CfgAddr { ip: None, domain: Some(vec![b'a'; 256]), port: 1 };
    assert_eq!(long_domain.into_addr(), Err(Error::InvalidConfig));
    let bad_utf8 = CfgAddr { ip: None, domain: Some(vec![0xff, 0xfe]), port: 1 };
    assert_eq!(bad_utf8.into_addr(), Err(Error::InvalidConfig));
}

#[test]
fn classify_linux_codes() {
    let codes = PlatformErrorCodes::linux();
    assert_eq!(
        classify_connect_error(&codes, true, None),
        OutgoingError::ConnectionRefused
    );
    assert_eq!(
        classify_connect_error(&codes, false, Some(101)),
        OutgoingError::NetworkUnreachable
    );
    assert_eq!(
        classify_connect_error(&codes, false, Some(113)),
        OutgoingError::HostUnreachable
    );
    assert_eq!(
        classify_connect_error(&codes, false, Some(110)),
        OutgoingError::TimedOut
    );
    assert_eq!(
        classify_connect_error(&codes, false, Some(42)),
        OutgoingError::GeneralFailure
    );
    assert_eq!(
        classify_connect_error(&codes, false, None),
        OutgoingError::GeneralFailure
    );
}

#[test]
fn classify_windows_and_macos_codes() {
    let w = PlatformErrorCodes::windows();
    assert_eq!(
        classify_connect_error(&w, false, Some(1231)),
        OutgoingError::NetworkUnreachable
    );
    assert_eq!(
        classify_connect_error(&w, false, Some(10060)),
        OutgoingError::TimedOut
    );
    let m = PlatformErrorCodes::macos();
    assert_eq!(
        classify_connect_error(&m, false, Some(1)),
        OutgoingError::HostUnreachable
    );
    assert_eq!(
        classify_connect_error(&m, false, Some(-72006)),
        OutgoingError::TimedOut
    );
}

#[test]
fn reason_maps_to_reply_codes() {
    assert_eq!(get_reason(&OutgoingError::GeneralFailure), Socks5Error::GeneralProxyFailure);
    assert_eq!(get_reason(&OutgoingError::NetworkUnreachable), Socks5Error::NetworkUnreachable);
    assert_eq!(get_reason(&OutgoingError::HostUnreachable), Socks5Error::HostUnreachable);
    assert_eq!(get_reason(&OutgoingError::ConnectionRefused), Socks5Error::ConnectionRefused);
    assert_eq!(get_reason(&OutgoingError::TimedOut), Socks5Error::TTLExpired);
    assert_eq!(Socks5Error::Success.code(), 0);
    assert_eq!(Socks5Error::GeneralProxyFailure.code(), 1);
    assert_eq!(Socks5Error::NetworkUnreachable.code(), 3);
    assert_eq!(Socks5Error::HostUnreachable.code(), 4);
    assert_eq!(Socks5Error::ConnectionRefused.code(), 5);
    assert_eq!(Socks5Error::TTLExpired.code(), 6);
    assert_eq!(Socks5Error::CommandNotSupported.code(), 7);
    assert_eq!(Socks5Error::AddressTypeNotSupported.code(), 8);
}

#[test]
fn flag_future_sets_once() {
    let mut f = FlagFuture::default();
    assert!(!f.is_set());
    f.set();
    assert!(f.is_set());
    f.set();
    assert!(f.is_set());
}
