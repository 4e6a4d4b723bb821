use vstd::prelude::*;

verus! {

/// Errors of the library proper.  I/O failures never reach these: the
/// surrounding program keeps its own error type for them and maps these
/// variants into it.
#[derive(Clone, Copy, Debug, PartialEq, Eq, Structural)]
pub enum Error {
    /// A request carried an ATYP byte outside {IPv4, Domain, IPv6}.
    InvalidSocks5AddrType,
    /// An address field had the wrong length for its ATYP.
    AddressFormat,
    /// A domain name was empty or did not fit the one-byte length field.
    DomainLength,
    /// A domain name was not valid UTF-8.
    Utf8,
    /// The configuration named no usable listen address.
    InvalidConfig,
    /// A buffer had no room to write or no data to read.
    WouldBlock,
    /// A line parser needs more input before it can produce a line.
    Incomplete,
}

} // verus!
