//! Kinds of failure of a connection.

use vstd::prelude::*;

verus! {

/// Why a connection, or the handler that accepts connections, failed.
#[derive(Clone, Copy, Debug, PartialEq, Eq, Structural)]
pub enum DispatchError {
    /// Inbound bytes were malformed.
    Parse,
    /// The framing of a body was violated.
    PayloadFraming,
    /// The readiness poll of a service failed.
    ServiceReadiness,
    /// A call of the application or expect service failed.
    ServiceCall,
    /// The upgrade service failed.
    Upgrade,
    /// Reading or writing the stream failed.
    Io,
    /// A timer expired.
    Timeout,
}

/// Why the body of a request ended early.
#[derive(Clone, Copy, Debug, PartialEq, Eq, Structural)]
pub enum PayloadError {
    /// The connection ended before the body did.
    Incomplete,
    /// The framing of the body was violated.
    EncodingCorrupted,
}

} // verus!
