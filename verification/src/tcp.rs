//! TCP connect strategy: the decision logic of the full-handshake scan.
//!
//! The connection itself is ordinary socket work done by the caller; what
//! stands here, verified, is everything that decides: how a failed attempt
//! is classified from the reported reason, which status each outcome maps
//! to, and how the per-port result is assembled. A connect scan never
//! produces the ambiguous open-or-filtered status.

use vstd::prelude::*;
use crate::error::ScanError;
use crate::net::IpAddress;
use crate::port::Port;
use crate::result::{PortResult, PortStatus, ScanType};
use crate::services::{get_service_description, spec_service_text};
use crate::text::{spec_contains_seq, str_contains};

verus! {

/// What a single connection attempt came to.
pub enum ConnectOutcome {
    /// The handshake completed: a service is listening.
    Connected,
    /// The attempt failed with the given classified error.
    Failed(ScanError),
}

/// The status a failed connect attempt maps to: refusal means closed,
/// timeouts and unreachable networks mean filtered, and anything else is
/// conservatively closed. Never open, never ambiguous.
pub open spec fn spec_status_for_connect_error(e: ScanError) -> PortStatus {
    match e {
        ScanError::ConnectionRefused => PortStatus::Closed,
        ScanError::Timeout => PortStatus::Filtered,
        ScanError::HostUnreachable => PortStatus::Filtered,
        ScanError::NetworkUnreachable(_) => PortStatus::Filtered,
        _ => PortStatus::Closed,
    }
}

/// Map a failed connect attempt to a port status.
pub fn status_for_connect_error(e: &ScanError) -> (r: PortStatus)
    ensures
        r == spec_status_for_connect_error(*e),
        !(r is OpenFiltered),
        !(r is Open),
{
    match e {
        ScanError::ConnectionRefused => PortStatus::Closed,
        ScanError::Timeout => PortStatus::Filtered,
        ScanError::HostUnreachable => PortStatus::Filtered,
        ScanError::NetworkUnreachable(_) => PortStatus::Filtered,
        _ => PortStatus::Closed,
    }
}

/// Classify a connect failure from its lowercased reason text: a refusal,
/// an unreachable host or network, or a failure that fits no pattern.
pub fn classify_connect_error(msg: &str, target: &str, port: Port) -> (r: ScanError)
    ensures
        spec_contains_seq(msg@, "refused"@) ==> r is ConnectionRefused,
        !spec_contains_seq(msg@, "refused"@) && spec_contains_seq(msg@, "unreachable"@)
            && spec_contains_seq(msg@, "host"@) ==> r is HostUnreachable,
        !spec_contains_seq(msg@, "refused"@) && spec_contains_seq(msg@, "unreachable"@)
            && !spec_contains_seq(msg@, "host"@) ==> (r matches ScanError::NetworkUnreachable(m)
            && m@ == msg@),
        !spec_contains_seq(msg@, "refused"@) && !spec_contains_seq(msg@, "unreachable"@)
            ==> (r matches ScanError::ConnectionFailed { target: t, port: p, reason: m } && t@
            == target@ && p == port@ && m@ == msg@),
{
    if str_contains(msg, "refused") {
        ScanError::ConnectionRefused
    } else if str_contains(msg, "unreachable") {
        if str_contains(msg, "host") {
            ScanError::HostUnreachable
        } else {
            ScanError::NetworkUnreachable(msg.to_owned())
        }
    } else {
        ScanError::ConnectionFailed {
            target: target.to_owned(),
            port: port.as_u16(),
            reason: msg.to_owned(),
        }
    }
}

/// The full-handshake TCP scanner: connects with the operating system's
/// socket interface, so it needs no special privileges.
pub struct TcpConnectScanner {
    target: IpAddress,
    timeout_ms: u64,
    grab_banners: bool,
}

impl TcpConnectScanner {
    /// The configured target address.
    pub closed spec fn spec_target(self) -> IpAddress {
        self.target
    }

    /// The per-probe timeout in milliseconds.
    pub closed spec fn spec_timeout_ms(self) -> u64 {
        self.timeout_ms
    }

    /// Whether open ports get a banner grab.
    pub closed spec fn spec_grab_banners(self) -> bool {
        self.grab_banners
    }

    /// Create a new TCP connect scanner.
    pub fn new(target: IpAddress, timeout_ms: u64, grab_banners: bool) -> (r: TcpConnectScanner)
        ensures
            r.spec_target() == target,
            r.spec_timeout_ms() == timeout_ms,
            r.spec_grab_banners() == grab_banners,
    {
        TcpConnectScanner { target, timeout_ms, grab_banners }
    }

    /// The technique this scanner implements.
    pub fn scan_type(&self) -> (r: ScanType)
        ensures
            r is Connect,
    {
        ScanType::Connect
    }

    /// A connect scan needs no elevated privileges.
    pub fn requires_privileges(&self) -> (r: bool)
        ensures
            !r,
    {
        false
    }

    /// The configured target address.
    pub fn target(&self) -> (r: IpAddress)
        ensures
            r == self.spec_target(),
    {
        self.target
    }

    /// The per-probe timeout in milliseconds.
    pub fn timeout_ms(&self) -> (r: u64)
        ensures
            r == self.spec_timeout_ms(),
    {
        self.timeout_ms
    }

    /// Whether open ports get a banner grab.
    pub fn grab_banners(&self) -> (r: bool)
        ensures
            r == self.spec_grab_banners(),
    {
        self.grab_banners
    }

    /// Assemble the per-port result from a connection attempt's outcome.
    /// A completed handshake is open, with the banner the caller captured
    /// and the measured response time attached; a failure maps to its
    /// status with neither. The status is never the ambiguous
    /// open-or-filtered one, and a probe never fails outward: every outcome
    /// yields a result.
    pub fn scan_port_result(
        &self,
        port: Port,
        outcome: ConnectOutcome,
        banner: Option<String>,
        response_time_ms: u64,
    ) -> (r: PortResult)
        ensures
            r.port == port,
            r.service@ == spec_service_text(port@),
            outcome is Connected ==> r.status is Open && r.banner == banner
                && r.response_time_ms == Some(response_time_ms),
            outcome matches ConnectOutcome::Failed(e) ==> (r.status
                == spec_status_for_connect_error(e) && r.banner is None
                && r.response_time_ms is None),
            !(r.status is OpenFiltered),
    {
        let service = get_service_description(port.as_u16());
        match outcome {
            ConnectOutcome::Connected => {
                PortResult::new(port, PortStatus::Open, service).with_banner(
                    banner,
                ).with_response_time(response_time_ms)
            },
            ConnectOutcome::Failed(e) => {
                PortResult::new(port, status_for_connect_error(&e), service)
            },
        }
    }
}

} // verus!
