use vstd::prelude::*;

verus! {

/// Classified failures of the outbound connect, the vocabulary a dispatcher
/// reports in.
#[derive(Clone, Copy, Debug, PartialEq, Eq, Structural)]
pub enum OutgoingError {
    GeneralFailure,
    NetworkUnreachable,
    HostUnreachable,
    ConnectionRefused,
    TimedOut,
}

/// The raw OS error codes that a platform reports for an unreachable
/// network, an unreachable host, and an expired TTL.
pub struct PlatformErrorCodes {
    pub network_unreachable: i32,
    pub host_unreachable: i32,
    pub ttl_expired: i32,
}

impl PlatformErrorCodes {
    /// The Linux errno values.
    pub fn linux() -> (r: Self)
        ensures
            r.network_unreachable == 101,
            r.host_unreachable == 113,
            r.ttl_expired == 110,
    {
        PlatformErrorCodes { network_unreachable: 101, host_unreachable: 113, ttl_expired: 110 }
    }

    /// The Windows error values.
    pub fn windows() -> (r: Self)
        ensures
            r.network_unreachable == 1231,
            r.host_unreachable == 1232,
            r.ttl_expired == 10060,
    {
        PlatformErrorCodes {
            network_unreachable: 1231,
            host_unreachable: 1232,
            ttl_expired: 10060,
        }
    }

    /// The macOS values.
    pub fn macos() -> (r: Self)
        ensures
            r.network_unreachable == 2,
            r.host_unreachable == 1,
            r.ttl_expired == -72006,
    {
        PlatformErrorCodes { network_unreachable: 2, host_unreachable: 1, ttl_expired: -72006 }
    }
}

/// The classification of one connect failure: `connection_refused` says
/// whether the error kind was "connection refused"; `raw` is the raw OS
/// error code, when one exists.
pub open spec fn classify_spec(
    codes: PlatformErrorCodes,
    connection_refused: bool,
    raw: Option<i32>,
) -> OutgoingError {
    if connection_refused {
        OutgoingError::ConnectionRefused
    } else {
        match raw {
            Some(code) => if code == codes.network_unreachable {
                OutgoingError::NetworkUnreachable
            } else if code == codes.host_unreachable {
                OutgoingError::HostUnreachable
            } else if code == codes.ttl_expired {
                OutgoingError::TimedOut
            } else {
                OutgoingError::GeneralFailure
            },
            None => OutgoingError::GeneralFailure,
        }
    }
}

/// Classifies a failed connect into the dispatcher's error vocabulary.
/// "Connection refused" wins over the raw code; a raw code equal to one of
/// the platform constants names its condition; anything else is a general
/// failure.
pub fn classify_connect_error(
    codes: &PlatformErrorCodes,
    connection_refused: bool,
    raw: Option<i32>,
) -> (r: OutgoingError)
    ensures
        r == classify_spec(*codes, connection_refused, raw),
{
    if connection_refused {
        return OutgoingError::ConnectionRefused;
    }
    match raw {
        Some(code) => {
            if code == codes.network_unreachable {
                OutgoingError::NetworkUnreachable
            } else if code == codes.host_unreachable {
                OutgoingError::HostUnreachable
            } else if code == codes.ttl_expired {
                OutgoingError::TimedOut
            } else {
                OutgoingError::GeneralFailure
            }
        },
        None => OutgoingError::GeneralFailure,
    }
}

} // verus!
