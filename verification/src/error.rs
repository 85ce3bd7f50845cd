//! The ways in which establishing a connection can fail.
use vstd::prelude::*;

verus! {

/// A failure that the connector itself finds. Failures of the transport
/// underneath are handed on as they are and have no variant here.
#[derive(Clone, Copy, Debug, PartialEq, Eq, Structural)]
pub enum ConnectError {
    /// The destination names no host.
    NoHost,
    /// The destination that a SOCKS proxy is to be asked for names no host.
    NoSocksHost,
    /// The destination's host is no DNS name that a certificate could be held against.
    InvalidDnsName,
    /// The proxy closed the connection before its reply was complete.
    TunnelEof,
    /// The proxy's reply does not fit in the reply buffer.
    HeadersTooLong,
    /// The proxy asks for credentials.
    ProxyAuthRequired,
    /// The proxy's reply is anything else than a success.
    Unsuccessful,
}

/// What a failure is handed to the caller as.
#[derive(Clone, Copy, Debug, PartialEq, Eq, Structural)]
pub enum ErrorKind {
    /// An error that is its text and nothing more.
    Message,
    /// An I/O error of the kind `Other`, with the text.
    IoOther,
}

/// What each failure is handed on as: as a mere text, but for the missing host
/// of a destination behind a SOCKS proxy.
pub open spec fn error_kind(e: ConnectError) -> ErrorKind {
    if e is NoSocksHost {
        ErrorKind::IoOther
    } else {
        ErrorKind::Message
    }
}

/// The text of each failure.
pub open spec fn error_text(e: ConnectError) -> Seq<char> {
    match e {
        ConnectError::NoHost => "no host in url"@,
        ConnectError::NoSocksHost => "no host in url"@,
        ConnectError::InvalidDnsName => "Invalid DNS Name"@,
        ConnectError::TunnelEof => "unexpected eof while tunneling"@,
        ConnectError::HeadersTooLong => "proxy headers too long for tunnel"@,
        ConnectError::ProxyAuthRequired => "proxy authentication required"@,
        ConnectError::Unsuccessful => "unsuccessful tunnel"@,
    }
}

impl ConnectError {
    /// What the failure is called in messages.
    pub fn message(&self) -> (r: &'static str)
        ensures
            r@ == error_text(*self),
    {
        match self {
            ConnectError::NoHost => "no host in url",
            ConnectError::NoSocksHost => "no host in url",
            ConnectError::InvalidDnsName => "Invalid DNS Name",
            ConnectError::TunnelEof => "unexpected eof while tunneling",
            ConnectError::HeadersTooLong => "proxy headers too long for tunnel",
            ConnectError::ProxyAuthRequired => "proxy authentication required",
            ConnectError::Unsuccessful => "unsuccessful tunnel",
        }
    }

    /// What the failure is handed to the caller as.
    pub fn kind(&self) -> (r: ErrorKind)
        ensures
            r == error_kind(*self),
    {
        match self {
            ConnectError::NoSocksHost => ErrorKind::IoOther,
            _ => ErrorKind::Message,
        }
    }
}

/// Which text could not be read.
#[derive(Clone, Copy, Debug, PartialEq, Eq, Structural)]
pub enum ParseError {
    /// The text is no URI.
    Uri,
    /// The text is no authority (`host` or `host:port`, user information allowed).
    Authority,
    /// The bytes cannot stand in a header field.
    HeaderValue,
}

} // verus!
