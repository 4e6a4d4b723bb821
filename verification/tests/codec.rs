use rocks_proxy::error::Error;
use rocks_proxy::req_addr::{ReqAddr, SocketAddress};
use rocks_proxy::socks5::codec::{decode_reply, encode_reply};
use rocks_proxy::socks5::{Socks5AddrType, Socks5Error};

#[test]
fn codec_round_trip_v4() {
    let a = ReqAddr::IP(SocketAddress::V4 { ip: [192, 168, 0, 1], port: 8080 });
    let frame = encode_reply(Socks5Error::Success, &a);
    assert_eq!(frame, vec![0x05, 0x00, 0x00, 0x01, 192, 168, 0, 1, 0x1f, 0x90]);
    let (code, back) = decode_reply(&frame).unwrap();
    assert_eq!(code, 0x00);
    assert_eq!(back, a);
}

#[test]
fn codec_round_trip_v6() {
    let ip = [0, 1, 2, 3, 4, 5, 6, 7, 8, 9, 10, 11, 12, 13, 14, 15];
    let a = ReqAddr::IP(SocketAddress::V6 { ip, port: 443 });
    let frame = encode_reply(Socks5Error::HostUnreachable, &a);
    assert_eq!(frame.len(), 22);
    assert_eq!(frame[0], 0x05);
    assert_eq!(frame[1], 0x04);
    assert_eq!(frame[2], 0x00);
    assert_eq!(frame[3], 0x04);
    let (code, back) = decode_reply(&frame).unwrap();
    assert_eq!(code, 0x04);
    assert_eq!(back, a);
}

#[test]
fn codec_round_trip_domain() {
    let a = ReqAddr::Domain(b"example.com".to_vec(), 80);
    let frame = encode_reply(Socks5Error::GeneralProxyFailure, &a);
    assert_eq!(frame[0], 0x05);
    assert_eq!(frame[1], 0x01);
    assert_eq!(frame[2], 0x00);
    assert_eq!(frame[3], 0x03);
    assert_eq!(frame[4], 11);
    assert_eq!(&frame[5..16], b"example.com");
    assert_eq!(&frame[16..18], &[0, 80]);
    let (code, back) = decode_reply(&frame).unwrap();
    assert_eq!(code, 0x01);
    assert_eq!(back, a);
}

#[test]
fn codec_round_trip_domain_length_bounds() {
    let one = ReqAddr::Domain(vec![b'a'], 1);
    let frame = encode_reply(Socks5Error::Success, &one);
    assert_eq!(frame.len(), 8);
    let (_, back) = decode_reply(&frame).unwrap();
    assert_eq!(back, one);

    let big = ReqAddr::Domain(vec![b'x'; 255], 65535);
    let frame = encode_reply(Socks5Error::Success, &big);
    assert_eq!(frame.len(), 262);
    let (_, back) = decode_reply(&frame).unwrap();
    assert_eq!(back, big);
}

#[test]
fn codec_decode_rejects_malformed() {
    assert_eq!(decode_reply(&[]), Err(Error::AddressFormat));
    assert_eq!(decode_reply(&[0x04, 0, 0, 1]), Err(Error::AddressFormat));
    assert_eq!(decode_reply(&[0x05, 0, 1, 1]), Err(Error::AddressFormat));
    assert_eq!(
        decode_reply(&[0x05, 0, 0, 2, 0, 0, 0, 0, 0, 0]),
        Err(Error::AddressFormat)
    );
    assert_eq!(
        decode_reply(&[0x05, 0, 0, 1, 0, 0, 0, 0, 0]),
        Err(Error::AddressFormat)
    );
    assert_eq!(
        decode_reply(&[0x05, 0, 0, 3, 0, 0, 0]),
        Err(Error::AddressFormat)
    );
}

#[test]
fn parse_address_v4_reads_octets_and_port() {
    let a = ReqAddr::parse_address_v4(&[127, 0, 0, 1, 0x00, 0x09]).unwrap();
    assert_eq!(a, ReqAddr::IP(SocketAddress::V4 { ip: [127, 0, 0, 1], port: 9 }));
    assert_eq!(a.port(), 9);
    assert_eq!(
        ReqAddr::parse_address_v4(&[1, 2, 3, 4, 5]),
        Err(Error::AddressFormat)
    );
}

#[test]
fn parse_address_v6_reads_segments_and_port() {
    let mut b = vec![0u8; 16];
    b[15] = 1;
    b.push(0x01);
    b.push(0x00);
    let a = ReqAddr::parse_address_v6(&b).unwrap();
    let mut ip = [0u8; 16];
    ip[15] = 1;
    assert_eq!(a, ReqAddr::IP(SocketAddress::V6 { ip, port: 256 }));
    assert_eq!(
        ReqAddr::parse_address_v6(&[0, 1, 2]),
        Err(Error::AddressFormat)
    );
}

#[test]
fn parse_domain_validates_length_and_utf8() {
    let a = ReqAddr::parse_domain(9, b"localhost\x00\x09").unwrap();
    assert_eq!(a, ReqAddr::Domain(b"localhost".to_vec(), 9));

    let one = ReqAddr::parse_domain(1, &[b'a', 0, 1]).unwrap();
    assert_eq!(one, ReqAddr::Domain(vec![b'a'], 1));

    let mut big = vec![b'x'; 255];
    big.push(0xff);
    big.push(0xff);
    let r = ReqAddr::parse_domain(255, &big).unwrap();
    assert_eq!(r.port(), 65535);

    assert_eq!(ReqAddr::parse_domain(0, &[0, 1]), Err(Error::DomainLength));
    assert_eq!(ReqAddr::parse_domain(256, &[0; 258]), Err(Error::DomainLength));
    assert_eq!(ReqAddr::parse_domain(2, &[b'a', b'b', 0]), Err(Error::AddressFormat));
    assert_eq!(ReqAddr::parse_domain(2, &[0xff, 0xfe, 0, 1]), Err(Error::Utf8));
}

#[test]
fn addr_type_codes() {
    assert_eq!(Socks5AddrType::try_from(1).unwrap().code(), 1);
    assert_eq!(Socks5AddrType::try_from(3).unwrap().code(), 3);
    assert_eq!(Socks5AddrType::try_from(4).unwrap().code(), 4);
    assert_eq!(Socks5AddrType::try_from(2), Err(Error::InvalidSocks5AddrType));
    assert_eq!(Socks5AddrType::try_from(0), Err(Error::InvalidSocks5AddrType));
}

#[test]
fn default_addr_is_zero() {
    let d = ReqAddr::default();
    assert_eq!(d, ReqAddr::IP(SocketAddress::V4 { ip: [0, 0, 0, 0], port: 0 }));
}
