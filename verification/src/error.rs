//! What ends a connection early.

use vstd::prelude::*;

verus! {

/// What a decision of the proxy gives: a value, or the reason why the
/// connection ends.
pub type Result<T> = core::result::Result<T, Error>;

/// The four classes of failure. Each is fatal to the connection it happens
/// on, and to that connection only.
#[derive(Clone, Copy, Debug, PartialEq, Eq, Structural)]
pub enum ErrorKind {
    /// A socket could not be read, written or connected.
    Io,
    /// The client's header bytes are malformed or stop too early.
    Parse,
    /// No address could be had for the host.
    Resolution,
    /// The upstream could not be identified or did not prove who it is.
    Tls,
}

/// Why a connection was closed before its relay ended by itself.
#[derive(Clone, Copy, Debug, PartialEq, Eq, Structural)]
pub enum Error {
    /// A read or a write on one of the two sockets failed.
    IO,
    /// The transport connection to the destination could not be opened.
    ConnectFailed,
    /// An event arrived that cannot occur in the phase the connection is in.
    Unexpected,
    /// A field name or a field value is not text.
    NonText,
    /// The client closed in the middle of a field.
    MissingDelimiter,
    /// The client closed before it sent a `Host` field.
    NoHost,
    /// The `Host` field names no host.
    EmptyHost,
    /// The lookup itself failed.
    LookupFailed,
    /// The lookup succeeded and returned no address.
    NoAddress,
    /// The host is neither a DNS name nor an IP address, so no certificate
    /// can be checked against it.
    InvalidServerName,
    /// The handshake with the upstream failed, or its certificate was not
    /// accepted for the host.
    Handshake,
}

impl Error {
    /// The class an error belongs to.
    pub open spec fn kind_of(self) -> ErrorKind {
        match self {
            Error::IO | Error::ConnectFailed | Error::Unexpected => ErrorKind::Io,
            Error::NonText | Error::MissingDelimiter | Error::NoHost => ErrorKind::Parse,
            Error::EmptyHost | Error::LookupFailed | Error::NoAddress => ErrorKind::Resolution,
            Error::InvalidServerName | Error::Handshake => ErrorKind::Tls,
        }
    }

    /// The words that describe an error.
    pub open spec fn message_of(self) -> Seq<char> {
        match self {
            Error::IO => "socket read or write failed"@,
            Error::ConnectFailed => "could not connect to the destination"@,
            Error::Unexpected => "event out of order"@,
            Error::NonText => "header field is not text"@,
            Error::MissingDelimiter => "connection closed inside a header field"@,
            Error::NoHost => "connection closed before a Host field"@,
            Error::EmptyHost => "Host field names no host"@,
            Error::LookupFailed => "dns lookup failed"@,
            Error::NoAddress => "dns lookup returned no address"@,
            Error::InvalidServerName => "host is not a valid server name"@,
            Error::Handshake => "tls handshake failed"@,
        }
    }

    /// The class this error belongs to.
    pub fn kind(&self) -> (k: ErrorKind)
        ensures
            k == self.kind_of(),
    {
        match self {
            Error::IO | Error::ConnectFailed | Error::Unexpected => ErrorKind::Io,
            Error::NonText | Error::MissingDelimiter | Error::NoHost => ErrorKind::Parse,
            Error::EmptyHost | Error::LookupFailed | Error::NoAddress => ErrorKind::Resolution,
            Error::InvalidServerName | Error::Handshake => ErrorKind::Tls,
        }
    }

    /// A description of this error, for a log line.
    pub fn message(&self) -> (m: &'static str)
        ensures
            m@ == self.message_of(),
    {
        match self {
            Error::IO => "socket read or write failed",
            Error::ConnectFailed => "could not connect to the destination",
            Error::Unexpected => "event out of order",
            Error::NonText => "header field is not text",
            Error::MissingDelimiter => "connection closed inside a header field",
            Error::NoHost => "connection closed before a Host field",
            Error::EmptyHost => "Host field names no host",
            Error::LookupFailed => "dns lookup failed",
            Error::NoAddress => "dns lookup returned no address",
            Error::InvalidServerName => "host is not a valid server name",
            Error::Handshake => "tls handshake failed",
        }
    }
}

} // verus!
