use vstd::prelude::*;

pub mod codec;
pub mod incoming;

verus! {

use crate::error::Error;
use crate::outgoing::OutgoingError;

/// The protocol version byte.
pub const SOCKS5_PROTOCOL: u8 = 5;

/// The "no authentication required" method byte.
pub const SOCKS5_NO_AUTH: u8 = 0;

/// The method-selection byte that refuses every offered method.
pub const SOCKS5_NO_ACCEPTABLE_METHOD: u8 = 0xff;

/// The CONNECT command byte, the only command served.
pub const SOCKS5_CMD_CONNECT: u8 = 1;

/// The SOCKS5 reply codes.
#[derive(Clone, Copy, Debug, PartialEq, Eq, Structural)]
pub enum Socks5Error {
    Success,
    GeneralProxyFailure,
    NetworkUnreachable,
    HostUnreachable,
    ConnectionRefused,
    TTLExpired,
    CommandNotSupported,
    AddressTypeNotSupported,
}

/// The wire value of each reply code.
pub open spec fn reply_code(e: Socks5Error) -> u8 {
    match e {
        Socks5Error::Success => 0,
        Socks5Error::GeneralProxyFailure => 1,
        Socks5Error::NetworkUnreachable => 3,
        Socks5Error::HostUnreachable => 4,
        Socks5Error::ConnectionRefused => 5,
        Socks5Error::TTLExpired => 6,
        Socks5Error::CommandNotSupported => 7,
        Socks5Error::AddressTypeNotSupported => 8,
    }
}

impl Socks5Error {
    /// The wire value of the reply code.
    pub fn code(&self) -> (c: u8)
        ensures
            c == reply_code(*self),
    {
        match self {
            Socks5Error::Success => 0,
            Socks5Error::GeneralProxyFailure => 1,
            Socks5Error::NetworkUnreachable => 3,
            Socks5Error::HostUnreachable => 4,
            Socks5Error::ConnectionRefused => 5,
            Socks5Error::TTLExpired => 6,
            Socks5Error::CommandNotSupported => 7,
            Socks5Error::AddressTypeNotSupported => 8,
        }
    }
}

/// The SOCKS5 address types.
#[derive(Clone, Copy, Debug, PartialEq, Eq, Structural)]
pub enum Socks5AddrType {
    IPV4,
    IPV6,
    DOMAIN,
}

/// The wire value of each address type.
pub open spec fn atyp_code(t: Socks5AddrType) -> u8 {
    match t {
        Socks5AddrType::IPV4 => 1,
        Socks5AddrType::DOMAIN => 3,
        Socks5AddrType::IPV6 => 4,
    }
}

impl Socks5AddrType {
    /// The wire value of the address type.
    pub fn code(&self) -> (c: u8)
        ensures
            c == atyp_code(*self),
    {
        match self {
            Socks5AddrType::IPV4 => 1,
            Socks5AddrType::DOMAIN => 3,
            Socks5AddrType::IPV6 => 4,
        }
    }

    /// Reads an ATYP byte; any value outside {1, 3, 4} is refused.
    pub fn try_from(i: u8) -> (r: Result<Self, Error>)
        ensures
            i == 1 ==> r == Ok::<Self, Error>(Socks5AddrType::IPV4),
            i == 3 ==> r == Ok::<Self, Error>(Socks5AddrType::DOMAIN),
            i == 4 ==> r == Ok::<Self, Error>(Socks5AddrType::IPV6),
            i != 1 && i != 3 && i != 4 ==> r == Err::<Self, Error>(Error::InvalidSocks5AddrType),
    {
        match i {
            1 => Ok(Socks5AddrType::IPV4),
            3 => Ok(Socks5AddrType::DOMAIN),
            4 => Ok(Socks5AddrType::IPV6),
            _ => Err(Error::InvalidSocks5AddrType),
        }
    }
}

/// The reply code that reports each outbound-connect failure.
pub open spec fn reason_of(err: OutgoingError) -> Socks5Error {
    match err {
        OutgoingError::GeneralFailure => Socks5Error::GeneralProxyFailure,
        OutgoingError::NetworkUnreachable => Socks5Error::NetworkUnreachable,
        OutgoingError::HostUnreachable => Socks5Error::HostUnreachable,
        OutgoingError::ConnectionRefused => Socks5Error::ConnectionRefused,
        OutgoingError::TimedOut => Socks5Error::TTLExpired,
    }
}

/// Maps an outbound-connect failure to the reply code sent to the client.
pub fn get_reason(err: &OutgoingError) -> (r: Socks5Error)
    ensures
        r == reason_of(*err),
{
    match err {
        OutgoingError::GeneralFailure => Socks5Error::GeneralProxyFailure,
        OutgoingError::NetworkUnreachable => Socks5Error::NetworkUnreachable,
        OutgoingError::HostUnreachable => Socks5Error::HostUnreachable,
        OutgoingError::ConnectionRefused => Socks5Error::ConnectionRefused,
        OutgoingError::TimedOut => Socks5Error::TTLExpired,
    }
}

} // verus!
