use vstd::prelude::*;

verus! {

use crate::error::Error;
use vstd::utf8::valid_utf8;

/// Abstract value of a destination address: the raw address bytes together
/// with the port.  An `Ip` address holds 4 bytes (IPv4) or 16 bytes (IPv6);
/// a `Domain` holds the hostname bytes still awaiting resolution.
#[verifier::ext_equal]
pub enum ReqAddrView {
    Ip { ip: Seq<u8>, port: u16 },
    Domain { name: Seq<u8>, port: u16 },
}

/// A resolved socket address, stored as raw address bytes plus port.
#[allow(inconsistent_fields)]
#[derive(Clone, Copy, Debug, PartialEq, Eq)]
pub enum SocketAddress {
    V4 { ip: [u8; 4], port: u16 },
    V6 { ip: [u8; 16], port: u16 },
}

/// A requested destination: either a socket address, or a hostname and port
/// awaiting resolution.
#[derive(Debug, PartialEq, Eq)]
pub enum ReqAddr {
    IP(SocketAddress),
    Domain(Vec<u8>, u16),
}

impl View for SocketAddress {
    type V = ReqAddrView;

    open spec fn view(&self) -> ReqAddrView {
        match *self {
            SocketAddress::V4 { ip, port } => ReqAddrView::Ip { ip: ip@, port: port },
            SocketAddress::V6 { ip, port } => ReqAddrView::Ip { ip: ip@, port: port },
        }
    }
}

impl View for ReqAddr {
    type V = ReqAddrView;

    open spec fn view(&self) -> ReqAddrView {
        match self {
            ReqAddr::IP(a) => a@,
            ReqAddr::Domain(name, port) => ReqAddrView::Domain { name: name@, port: *port },
        }
    }
}

/// The value of a big-endian 16-bit field.
pub open spec fn be16(hi: u8, lo: u8) -> u16 {
    (hi as int * 256 + lo as int) as u16
}

impl ReqAddrView {
    /// A well-formed address: the raw bytes fit one of the three SOCKS5
    /// address types, and a hostname fits the one-byte length field.
    pub open spec fn wf(self) -> bool {
        match self {
            ReqAddrView::Ip { ip, port } => ip.len() == 4 || ip.len() == 16,
            ReqAddrView::Domain { name, port } => 1 <= name.len() <= 255 && valid_utf8(name),
        }
    }

    /// The port of the address.
    pub open spec fn port(self) -> u16 {
        match self {
            ReqAddrView::Ip { ip, port } => port,
            ReqAddrView::Domain { name, port } => port,
        }
    }
}

/// Relies on std::str::from_utf8: it returns Ok exactly when the byte
/// sequence is valid UTF-8, the same property that vstd's `valid_utf8`
/// states of the bytes.
#[verifier::external_body]
pub(crate) fn utf8_check(bytes: &[u8]) -> (r: bool)
    ensures
        r == valid_utf8(bytes@),
{
    std::str::from_utf8(bytes).is_ok()
}

/// The all-zero IPv4 address with port zero, the bound address of replies
/// sent before any request was parsed.
pub open spec fn zero_addr() -> ReqAddrView {
    ReqAddrView::Ip { ip: seq![0u8, 0u8, 0u8, 0u8], port: 0u16 }
}

impl ReqAddr {
    /// An equal copy of the destination.
    pub fn duplicate(&self) -> (r: Self)
        ensures
            r@ == self@,
    {
        match self {
            ReqAddr::IP(a) => ReqAddr::IP(*a),
            ReqAddr::Domain(name, port) => {
                let mut n: Vec<u8> = Vec::new();
                let mut i: usize = 0;
                while i < name.len()
                    invariant
                        i <= name@.len(),
                        n@ =~= name@.subrange(0, i as int),
                    decreases name@.len() - i,
                {
                    n.push(name[i]);
                    i = i + 1;
                }
                proof {
                    assert(n@ =~= name@);
                }
                ReqAddr::Domain(n, *port)
            },
        }
    }

    /// Wraps an already-resolved socket address.
    pub fn from_addr(addr: SocketAddress) -> (r: Self)
        ensures
            r == ReqAddr::IP(addr),
    {
        ReqAddr::IP(addr)
    }

    /// Wraps a hostname and port awaiting resolution.
    pub fn from_domain(domain: Vec<u8>, port: u16) -> (r: Self)
        ensures
            r@ == (ReqAddrView::Domain { name: domain@, port: port }),
    {
        ReqAddr::Domain(domain, port)
    }

    /// The port of the destination.
    pub fn port(&self) -> (p: u16)
        ensures
            p == self@.port(),
    {
        match self {
            ReqAddr::IP(SocketAddress::V4 { ip, port }) => *port,
            ReqAddr::IP(SocketAddress::V6 { ip, port }) => *port,
            ReqAddr::Domain(_, port) => *port,
        }
    }

    /// Decodes an IPv4 address field: 4 address bytes then the big-endian
    /// port, exactly 6 bytes in all.
    pub fn parse_address_v4(addr_bytes: &[u8]) -> (r: Result<ReqAddr, Error>)
        ensures
            addr_bytes@.len() == 6 ==> (r matches Ok(a) && a@ == (ReqAddrView::Ip {
                ip: addr_bytes@.subrange(0, 4),
                port: be16(addr_bytes@[4], addr_bytes@[5]),
            })),
            addr_bytes@.len() != 6 ==> (r matches Err(e) && e == Error::AddressFormat),
    {
        if addr_bytes.len() != 6 {
            return Err(Error::AddressFormat);
        }
        let ip: [u8; 4] = [addr_bytes[0], addr_bytes[1], addr_bytes[2], addr_bytes[3]];
        let port: u16 = addr_bytes[4] as u16 * 256 + addr_bytes[5] as u16;
        proof {
            assert(ip@ =~= addr_bytes@.subrange(0, 4));
        }
        Ok(ReqAddr::IP(SocketAddress::V4 { ip, port }))
    }

    /// Decodes an IPv6 address field: 16 address bytes then the big-endian
    /// port, exactly 18 bytes in all.
    pub fn parse_address_v6(addr_bytes: &[u8]) -> (r: Result<ReqAddr, Error>)
        ensures
            addr_bytes@.len() == 18 ==> (r matches Ok(a) && a@ == (ReqAddrView::Ip {
                ip: addr_bytes@.subrange(0, 16),
                port: be16(addr_bytes@[16], addr_bytes@[17]),
            })),
            addr_bytes@.len() != 18 ==> (r matches Err(e) && e == Error::AddressFormat),
    {
        if addr_bytes.len() != 18 {
            return Err(Error::AddressFormat);
        }
        let ip: [u8; 16] = [
            addr_bytes[0],
            addr_bytes[1],
            addr_bytes[2],
            addr_bytes[3],
            addr_bytes[4],
            addr_bytes[5],
            addr_bytes[6],
            addr_bytes[7],
            addr_bytes[8],
            addr_bytes[9],
            addr_bytes[10],
            addr_bytes[11],
            addr_bytes[12],
            addr_bytes[13],
            addr_bytes[14],
            addr_bytes[15],
        ];
        let port: u16 = addr_bytes[16] as u16 * 256 + addr_bytes[17] as u16;
        proof {
            assert(ip@ =~= addr_bytes@.subrange(0, 16));
        }
        Ok(ReqAddr::IP(SocketAddress::V6 { ip, port }))
    }

    /// Decodes a domain address field: `addr_len` hostname bytes then the
    /// big-endian port.  The hostname must be non-empty, fit the one-byte
    /// length field, and be valid UTF-8.
    pub fn parse_domain(addr_len: usize, addr_bytes: &[u8]) -> (r: Result<ReqAddr, Error>)
        ensures
            ({
                let name = addr_bytes@.subrange(0, addr_len as int);
                if addr_len == 0 || addr_len > 255 {
                    r matches Err(e) && e == Error::DomainLength
                } else if addr_bytes@.len() != addr_len + 2 {
                    r matches Err(e) && e == Error::AddressFormat
                } else if !valid_utf8(name) {
                    r matches Err(e) && e == Error::Utf8
                } else {
                    r matches Ok(a) && a@ == (ReqAddrView::Domain {
                        name: name,
                        port: be16(addr_bytes@[addr_len as int], addr_bytes@[addr_len + 1]),
                    }) && a@.wf()
                }
            }),
    {
        if addr_len == 0 || addr_len > 255 {
            return Err(Error::DomainLength);
        }
        if addr_bytes.len() != addr_len + 2 {
            return Err(Error::AddressFormat);
        }
        let mut name: Vec<u8> = Vec::new();
        let mut i: usize = 0;
        while i < addr_len
            invariant
                i <= addr_len,
                addr_bytes@.len() == addr_len + 2,
                addr_len <= 255,
                name@ =~= addr_bytes@.subrange(0, i as int),
            decreases addr_len - i,
        {
            name.push(addr_bytes[i]);
            i = i + 1;
        }
        proof {
            assert(name@ =~= addr_bytes@.subrange(0, addr_len as int));
        }
        if !utf8_check(name.as_slice()) {
            return Err(Error::Utf8);
        }
        let port: u16 = addr_bytes[addr_len] as u16 * 256 + addr_bytes[addr_len + 1] as u16;
        Ok(ReqAddr::Domain(name, port))
    }
}

/// The all-zero IPv4 address and port, used as the bound address of replies
/// sent before any request was parsed.
impl Default for ReqAddr {
    fn default() -> (r: Self)
        ensures
            r@ == zero_addr(),
    {
        let ip: [u8; 4] = [0, 0, 0, 0];
        proof {
            assert(ip@ =~= seq![0u8, 0u8, 0u8, 0u8]);
        }
        ReqAddr::IP(SocketAddress::V4 { ip, port: 0 })
    }
}

} // verus!
