//! Resilient transport layer for a team-messaging service.
//!
//! The crate turns unreliable network primitives (HTTP calls subject to rate
//! limiting, a WebSocket event stream subject to drops) into a dependable,
//! typed operation surface.  Every failure path ends in exactly one variant of
//! [`error::Error`]; the HTTP executor applies bounded retry-with-backoff on
//! rate-limit signals; the WebSocket session manager preserves delivery order
//! and survives malformed frames.  The I/O itself is performed by a thin
//! unverified shell around this crate; everything that decides or computes
//! lives here.

pub mod codec;
pub mod error;
pub mod http;
pub mod request;
pub mod room;
pub mod session;

pub use error::Error;
