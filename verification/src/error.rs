//! The error taxonomy: a closed set of failure categories shared by the HTTP
//! executor and the WebSocket session manager, so callers pattern-match on a
//! category instead of string-matching on raw causes.

use vstd::prelude::*;

verus! {

/// A failure of the transport layer.  Every failure path, whatever its origin
/// (I/O, decoding, HTTP status, WebSocket closure), ends in exactly one of
/// these variants; classification happens at the point of failure and no
/// downstream component re-interprets raw status codes.
#[derive(Debug, Clone)]
pub enum Error {
    /// The underlying byte stream failed (DNS, TCP reset, TLS); carries a
    /// description of the native cause.
    TransportIo(String),
    /// A payload could not be parsed as the expected structured format.
    Decode(String),
    /// An outbound payload could not be serialized.
    Encode(String),
    /// The WebSocket session ended before the caller requested closure;
    /// carries the closure reason.
    ConnectionClosed(String),
    /// An HTTP response with a non-success status and no further detail.
    HttpStatus(u16),
    /// An HTTP response with a non-success status and a server-supplied
    /// message.
    HttpStatusWithMessage(u16, String),
    /// HTTP 429 or an equivalent throttling signal; carries the status and
    /// the optional server-indicated wait in seconds.
    RateLimited(u16, Option<u64>),
    /// The remote service returned data inconsistent with its documented
    /// contract.
    ProtocolViolation(String),
    /// Credentials were rejected or have expired.
    AuthenticationFailure,
    /// The caller supplied malformed input before any network call was made.
    InvalidUsage(String),
    /// Fallback for conditions with no structured classification.
    Uncategorized(String),
}

/// Spec-level equality of two errors: same category, and the carried data
/// agrees (strings by content).
pub open spec fn error_eq(a: Error, b: Error) -> bool {
    match (a, b) {
        (Error::TransportIo(x), Error::TransportIo(y)) => x@ == y@,
        (Error::Decode(x), Error::Decode(y)) => x@ == y@,
        (Error::Encode(x), Error::Encode(y)) => x@ == y@,
        (Error::ConnectionClosed(x), Error::ConnectionClosed(y)) => x@ == y@,
        (Error::HttpStatus(x), Error::HttpStatus(y)) => x == y,
        (Error::HttpStatusWithMessage(x, xm), Error::HttpStatusWithMessage(y, ym)) => x == y
            && xm@ == ym@,
        (Error::RateLimited(x, xa), Error::RateLimited(y, ya)) => x == y && xa == ya,
        (Error::ProtocolViolation(x), Error::ProtocolViolation(y)) => x@ == y@,
        (Error::AuthenticationFailure, Error::AuthenticationFailure) => true,
        (Error::InvalidUsage(x), Error::InvalidUsage(y)) => x@ == y@,
        (Error::Uncategorized(x), Error::Uncategorized(y)) => x@ == y@,
        _ => false,
    }
}

impl PartialEq for Error {
    fn eq(&self, other: &Error) -> (r: bool) {
        match (self, other) {
            (Error::TransportIo(x), Error::TransportIo(y)) => *x == *y,
            (Error::Decode(x), Error::Decode(y)) => *x == *y,
            (Error::Encode(x), Error::Encode(y)) => *x == *y,
            (Error::ConnectionClosed(x), Error::ConnectionClosed(y)) => *x == *y,
            (Error::HttpStatus(x), Error::HttpStatus(y)) => *x == *y,
            (Error::HttpStatusWithMessage(x, xm), Error::HttpStatusWithMessage(y, ym)) => *x == *y
                && *xm == *ym,
            (Error::RateLimited(x, xa), Error::RateLimited(y, ya)) => {
                let same_after = match (xa, ya) {
                    (Option::None, Option::None) => true,
                    (Option::Some(u), Option::Some(v)) => *u == *v,
                    _ => false,
                };
                *x == *y && same_after
            },
            (Error::ProtocolViolation(x), Error::ProtocolViolation(y)) => *x == *y,
            (Error::AuthenticationFailure, Error::AuthenticationFailure) => true,
            (Error::InvalidUsage(x), Error::InvalidUsage(y)) => *x == *y,
            (Error::Uncategorized(x), Error::Uncategorized(y)) => *x == *y,
            _ => false,
        }
    }
}

impl vstd::std_specs::cmp::PartialEqSpecImpl for Error {
    open spec fn obeys_eq_spec() -> bool {
        true
    }

    open spec fn eq_spec(&self, other: &Error) -> bool {
        error_eq(*self, *other)
    }
}

impl Eq for Error {}

impl Error {
    /// The short, fixed name of the failure category, for display by callers.
    pub fn category(&self) -> (r: &'static str)
        ensures
            r@ == self.spec_category(),
    {
        match self {
            Error::TransportIo(_) => "transport I/O failure",
            Error::Decode(_) => "decode failure",
            Error::Encode(_) => "encode failure",
            Error::ConnectionClosed(_) => "connection closed",
            Error::HttpStatus(_) => "HTTP status",
            Error::HttpStatusWithMessage(..) => "HTTP status with message",
            Error::RateLimited(..) => "rate limited",
            Error::ProtocolViolation(_) => "protocol violation",
            Error::AuthenticationFailure => "authentication failure",
            Error::InvalidUsage(_) => "invalid usage",
            Error::Uncategorized(_) => "uncategorized",
        }
    }

    /// The name `category` returns for each variant.
    pub open spec fn spec_category(&self) -> Seq<char> {
        match self {
            Error::TransportIo(_) => "transport I/O failure"@,
            Error::Decode(_) => "decode failure"@,
            Error::Encode(_) => "encode failure"@,
            Error::ConnectionClosed(_) => "connection closed"@,
            Error::HttpStatus(_) => "HTTP status"@,
            Error::HttpStatusWithMessage(..) => "HTTP status with message"@,
            Error::RateLimited(..) => "rate limited"@,
            Error::ProtocolViolation(_) => "protocol violation"@,
            Error::AuthenticationFailure => "authentication failure"@,
            Error::InvalidUsage(_) => "invalid usage"@,
            Error::Uncategorized(_) => "uncategorized"@,
        }
    }

    /// The HTTP status the error carries, where it carries one.
    pub fn status_code(&self) -> (r: Option<u16>)
        ensures
            r == self.spec_status_code(),
    {
        match self {
            Error::HttpStatus(s) => Some(*s),
            Error::HttpStatusWithMessage(s, _) => Some(*s),
            Error::RateLimited(s, _) => Some(*s),
            _ => None,
        }
    }

    /// The status `status_code` returns for each variant.
    pub open spec fn spec_status_code(&self) -> Option<u16> {
        match self {
            Error::HttpStatus(s) => Some(*s),
            Error::HttpStatusWithMessage(s, _) => Some(*s),
            Error::RateLimited(s, _) => Some(*s),
            _ => None,
        }
    }

    /// Builds the fallback variant from borrowed text.
    pub fn uncategorized(text: &str) -> (r: Error)
        ensures
            r matches Error::Uncategorized(m) && m@ == text@,
    {
        Error::Uncategorized(text.to_owned())
    }
}

impl From<String> for Error {
    /// A bare string with no structured classification becomes the fallback
    /// category, never a silent drop.
    fn from(s: String) -> (r: Error) {
        Error::Uncategorized(s)
    }
}

impl vstd::std_specs::convert::FromSpecImpl<String> for Error {
    open spec fn obeys_from_spec() -> bool {
        true
    }

    open spec fn from_spec(s: String) -> Error {
        Error::Uncategorized(s)
    }
}

} // verus!
