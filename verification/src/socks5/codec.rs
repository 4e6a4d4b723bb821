use vstd::prelude::*;

verus! {

use crate::error::Error;
use crate::req_addr::{be16, ReqAddr, ReqAddrView, SocketAddress};
use crate::socks5::{reply_code, Socks5Error};
use vstd::utf8::valid_utf8;

/// The two bytes of a big-endian 16-bit field.
pub open spec fn port_be(p: u16) -> Seq<u8> {
    seq![(p / 256) as u8, (p % 256) as u8]
}

/// The wire encoding of an address: the ATYP byte, the address bytes (for a
/// domain, preceded by the length byte), then the big-endian port.
pub open spec fn encode_addr(a: ReqAddrView) -> Seq<u8> {
    match a {
        ReqAddrView::Ip { ip, port } => (if ip.len() == 4 {
            seq![1u8]
        } else {
            seq![4u8]
        }) + ip + port_be(port),
        ReqAddrView::Domain { name, port } => seq![3u8, name.len() as u8] + name + port_be(port),
    }
}

/// The full reply frame: version, reply code, reserved zero, then the bound
/// address.
pub open spec fn reply_frame(code: u8, a: ReqAddrView) -> Seq<u8> {
    seq![5u8, code, 0u8] + encode_addr(a)
}

/// Decoding of a reply frame back into its code and bound address.  `None`
/// when the bytes are not a well-formed reply for a well-formed address.
pub open spec fn parse_reply(b: Seq<u8>) -> Option<(u8, ReqAddrView)> {
    if b.len() < 4 || b[0] != 5 || b[2] != 0 {
        None
    } else if b[3] == 1 {
        if b.len() == 10 {
            Some(
                (
                    b[1],
                    ReqAddrView::Ip { ip: b.subrange(4, 8), port: be16(b[8], b[9]) },
                ),
            )
        } else {
            None
        }
    } else if b[3] == 4 {
        if b.len() == 22 {
            Some(
                (
                    b[1],
                    ReqAddrView::Ip { ip: b.subrange(4, 20), port: be16(b[20], b[21]) },
                ),
            )
        } else {
            None
        }
    } else if b[3] == 3 {
        if b.len() >= 5 && b[4] >= 1 && b.len() == 7 + b[4] && valid_utf8(
            b.subrange(5, 5 + b[4]),
        ) {
            Some(
                (
                    b[1],
                    ReqAddrView::Domain {
                        name: b.subrange(5, 5 + b[4]),
                        port: be16(b[5 + b[4]], b[6 + b[4]]),
                    },
                ),
            )
        } else {
            None
        }
    } else {
        None
    }
}

/// Every reply frame for a well-formed address starts with the version
/// byte 5, carries a zero reserved byte, and is at least 8 bytes long, so
/// no reply frame coincides with a 2-byte method-selection frame.
pub proof fn lemma_reply_frame_form(code: u8, a: ReqAddrView)
    requires
        a.wf(),
    ensures
        reply_frame(code, a).len() >= 8,
        reply_frame(code, a)[0] == 5,
        reply_frame(code, a)[1] == code,
        reply_frame(code, a)[2] == 0,
{
}

/// Encoding a well-formed address into a reply frame and decoding the frame
/// yields the same code and the same address.
pub proof fn lemma_reply_round_trip(code: u8, a: ReqAddrView)
    requires
        a.wf(),
    ensures
        parse_reply(reply_frame(code, a)) == Some((code, a)),
{
    let b = reply_frame(code, a);
    match a {
        ReqAddrView::Ip { ip, port } => {
            if ip.len() == 4 {
                assert(b.subrange(4, 8) =~= ip);
                assert(be16(b[8], b[9]) == port) by {
                    assert(b[8] == port / 256 && b[9] == port % 256);
                };
                assert(parse_reply(b).unwrap().1 =~= a);
            } else {
                assert(b.subrange(4, 20) =~= ip);
                assert(be16(b[20], b[21]) == port) by {
                    assert(b[20] == port / 256 && b[21] == port % 256);
                };
                assert(parse_reply(b).unwrap().1 =~= a);
            }
        },
        ReqAddrView::Domain { name, port } => {
            assert(b[4] == name.len() as u8);
            assert(b.len() == 7 + name.len());
            assert(b.subrange(5, 5 + b[4]) =~= name);
            assert(be16(b[5 + b[4]], b[6 + b[4]]) == port) by {
                assert(b[5 + name.len() as int] == port / 256 && b[6 + name.len() as int]
                    == port % 256);
            };
            assert(parse_reply(b).unwrap().1 =~= a);
        },
    }
}

/// Encodes a reply frame for the given code and bound address.
pub fn encode_reply(code: Socks5Error, addr: &ReqAddr) -> (r: Vec<u8>)
    requires
        addr@.wf(),
    ensures
        r@ == reply_frame(reply_code(code), addr@),
{
    let mut out: Vec<u8> = Vec::new();
    out.push(5);
    out.push(code.code());
    out.push(0);
    match addr {
        ReqAddr::IP(SocketAddress::V4 { ip, port }) => {
            out.push(1);
            let mut i: usize = 0;
            while i < 4
                invariant
                    i <= 4,
                    out@ =~= seq![5u8, reply_code(code), 0u8, 1u8] + ip@.subrange(0, i as int),
                decreases 4 - i,
            {
                out.push(ip[i]);
                i = i + 1;
            }
            out.push((*port / 256) as u8);
            out.push((*port % 256) as u8);
            proof {
                assert(ip@.subrange(0, 4) =~= ip@);
                assert(out@ =~= reply_frame(reply_code(code), addr@));
            }
        },
        ReqAddr::IP(SocketAddress::V6 { ip, port }) => {
            out.push(4);
            let mut i: usize = 0;
            while i < 16
                invariant
                    i <= 16,
                    out@ =~= seq![5u8, reply_code(code), 0u8, 4u8] + ip@.subrange(0, i as int),
                decreases 16 - i,
            {
                out.push(ip[i]);
                i = i + 1;
            }
            out.push((*port / 256) as u8);
            out.push((*port % 256) as u8);
            proof {
                assert(ip@.subrange(0, 16) =~= ip@);
                assert(out@ =~= reply_frame(reply_code(code), addr@));
            }
        },
        ReqAddr::Domain(name, port) => {
            out.push(3);
            out.push(name.len() as u8);
            let mut i: usize = 0;
            while i < name.len()
                invariant
                    i <= name@.len(),
                    name@.len() <= 255,
                    out@ =~= seq![5u8, reply_code(code), 0u8, 3u8, name@.len() as u8]
                        + name@.subrange(0, i as int),
                decreases name@.len() - i,
            {
                out.push(name[i]);
                i = i + 1;
            }
            out.push((*port / 256) as u8);
            out.push((*port % 256) as u8);
            proof {
                assert(name@.subrange(0, name@.len() as int) =~= name@);
                assert(out@ =~= reply_frame(reply_code(code), addr@));
            }
        },
    }
    out
}

/// Decodes a reply frame.  Succeeds exactly on the byte sequences that
/// `parse_reply` accepts, and returns the code byte and bound address that
/// it names.
pub fn decode_reply(bytes: &[u8]) -> (r: Result<(u8, ReqAddr), Error>)
    ensures
        match r {
            Ok((c, a)) => parse_reply(bytes@) == Some((c, a@)),
            Err(e) => parse_reply(bytes@) is None && e == Error::AddressFormat,
        },
{
    if bytes.len() < 4 || bytes[0] != 5 || bytes[2] != 0 {
        return Err(Error::AddressFormat);
    }
    let code = bytes[1];
    let atyp = bytes[3];
    if atyp == 1 {
        if bytes.len() != 10 {
            return Err(Error::AddressFormat);
        }
        let ip: [u8; 4] = [bytes[4], bytes[5], bytes[6], bytes[7]];
        let port: u16 = bytes[8] as u16 * 256 + bytes[9] as u16;
        proof {
            assert(ip@ =~= bytes@.subrange(4, 8));
        }
        Ok((code, ReqAddr::IP(SocketAddress::V4 { ip, port })))
    } else if atyp == 4 {
        if bytes.len() != 22 {
            return Err(Error::AddressFormat);
        }
        let ip: [u8; 16] = [
            bytes[4],
            bytes[5],
            bytes[6],
            bytes[7],
            bytes[8],
            bytes[9],
            bytes[10],
            bytes[11],
            bytes[12],
            bytes[13],
            bytes[14],
            bytes[15],
            bytes[16],
            bytes[17],
            bytes[18],
            bytes[19],
        ];
        let port: u16 = bytes[20] as u16 * 256 + bytes[21] as u16;
        proof {
            assert(ip@ =~= bytes@.subrange(4, 20));
        }
        Ok((code, ReqAddr::IP(SocketAddress::V6 { ip, port })))
    } else if atyp == 3 {
        if bytes.len() < 5 {
            return Err(Error::AddressFormat);
        }
        let len = bytes[4] as usize;
        if len < 1 || bytes.len() != 7 + len {
            return Err(Error::AddressFormat);
        }
        let mut name: Vec<u8> = Vec::new();
        let mut i: usize = 0;
        while i < len
            invariant
                i <= len,
                len <= 255,
                bytes@.len() == 7 + len,
                name@ =~= bytes@.subrange(5, 5 + i as int),
            decreases len - i,
        {
            name.push(bytes[5 + i]);
            i = i + 1;
        }
        proof {
            assert(name@ =~= bytes@.subrange(5, 5 + len as int));
        }
        if !crate::req_addr::utf8_check(name.as_slice()) {
            return Err(Error::AddressFormat);
        }
        let port: u16 = bytes[5 + len] as u16 * 256 + bytes[6 + len] as u16;
        Ok((code, ReqAddr::Domain(name, port)))
    } else {
        Err(Error::AddressFormat)
    }
}

} // verus!
