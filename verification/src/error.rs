//! Error types for scanning operations.
//!
//! Configuration and privilege errors are raised while a scanner is being
//! constructed and are fatal to the job; everything arising while probing a
//! single port is mapped to a port status and never aborts the job.

use vstd::prelude::*;

verus! {

/// An error from a scanning operation.
#[derive(Debug, Clone)]
pub enum ScanError {
    /// A connection attempt failed for a reason that fits no other variant.
    ConnectionFailed {
        /// The target that was probed.
        target: String,
        /// The port that was probed.
        port: u16,
        /// The reported reason.
        reason: String,
    },
    /// The attempt timed out.
    Timeout,
    /// The target actively refused the connection.
    ConnectionRefused,
    /// The network is unreachable.
    NetworkUnreachable(String),
    /// The host is unreachable.
    HostUnreachable,
    /// Raw socket access was denied.
    PermissionDenied(String),
    /// A raw socket operation failed.
    RawSocketError(String),
    /// A frame could not be built or read.
    InvalidPacket(String),
    /// The named network interface does not exist, or none is usable.
    InterfaceNotFound(String),
    /// An input or output operation failed.
    Io(String),
    /// A hostname could not be resolved.
    DnsResolution(String),
    /// The scan was configured with something unsupported.
    InvalidConfig(String),
    /// The rate limit was exceeded.
    RateLimitExceeded,
    /// The scan was cancelled.
    Cancelled,
}

} // verus!
