//! UDP strategy: probe payload selection and the retry decision logic.
//!
//! The socket work is the caller's; what stands here, verified, is the
//! protocol-specific probe payload for each well-known port and the
//! per-attempt decision: any returned data means open, an ICMP unreachable
//! signal means closed, and a probe that stays silent through every retry
//! is deliberately classified as the ambiguous open-or-filtered status.

use vstd::prelude::*;
use crate::net::IpAddress;
use crate::port::Port;
use crate::result::{PortResult, PortStatus, ScanType};
use crate::services::{get_service_description, spec_service_text};

verus! {

/// The probe payload for a destination port: a protocol-specific request
/// for a handful of well-known services, and a single zero byte otherwise.
pub open spec fn spec_probe_for_port(port: u16) -> Seq<u8> {
    if port == 53 {
        // DNS status query
        seq![0x00u8, 0x00, 0x10, 0x00, 0x00, 0x00, 0x00, 0x00, 0x00, 0x00, 0x00, 0x00]
    } else if port == 161 {
        // SNMP get-request with the "public" community
        seq![
            0x30u8,
            0x26,
            0x02,
            0x01,
            0x01,
            0x04,
            0x06,
            0x70,
            0x75,
            0x62,
            0x6c,
            0x69,
            0x63,
            0xa0,
            0x19,
            0x02,
            0x04,
        ]
    } else if port == 123 {
        // NTP version request
        seq![0xe3u8, 0x00, 0x04, 0xfa, 0x00, 0x01, 0x00, 0x00, 0x00, 0x01, 0x00, 0x00]
    } else if port == 69 {
        // TFTP read request for "test" in netascii
        seq![
            0x00u8,
            0x01,
            0x74,
            0x65,
            0x73,
            0x74,
            0x00,
            0x6e,
            0x65,
            0x74,
            0x61,
            0x73,
            0x63,
            0x69,
            0x69,
            0x00,
        ]
    } else if port == 137 {
        // NetBIOS name query
        seq![0x80u8, 0xf0, 0x00, 0x10, 0x00, 0x01, 0x00, 0x00, 0x00, 0x00, 0x00, 0x00, 0x20, 0x43,
            0x4b, 0x41, 0x41, 0x41, 0x41, 0x41, 0x41, 0x41, 0x41, 0x41, 0x41, 0x41, 0x41, 0x41,
            0x41, 0x41, 0x41, 0x41, 0x41, 0x41, 0x41, 0x41, 0x41, 0x41, 0x41, 0x41, 0x41, 0x41,
            0x41, 0x41, 0x41, 0x00, 0x00, 0x21, 0x00, 0x01]
    } else {
        seq![0x00u8]
    }
}

/// The probe payload to send to a destination port.
pub fn get_probe_for_port(port: u16) -> (r: Vec<u8>)
    ensures
        r@ == spec_probe_for_port(port),
{
    let mut out: Vec<u8> = Vec::new();
    if port == 53 {
        out.push(0x00);
        out.push(0x00);
        out.push(0x10);
        out.push(0x00);
        out.push(0x00);
        out.push(0x00);
        out.push(0x00);
        out.push(0x00);
        out.push(0x00);
        out.push(0x00);
        out.push(0x00);
        out.push(0x00);
    } else if port == 161 {
        out.push(0x30);
        out.push(0x26);
        out.push(0x02);
        out.push(0x01);
        out.push(0x01);
        out.push(0x04);
        out.push(0x06);
        out.push(0x70);
        out.push(0x75);
        out.push(0x62);
        out.push(0x6c);
        out.push(0x69);
        out.push(0x63);
        out.push(0xa0);
        out.push(0x19);
        out.push(0x02);
        out.push(0x04);
    } else if port == 123 {
        out.push(0xe3);
        out.push(0x00);
        out.push(0x04);
        out.push(0xfa);
        out.push(0x00);
        out.push(0x01);
        out.push(0x00);
        out.push(0x00);
        out.push(0x00);
        out.push(0x01);
        out.push(0x00);
        out.push(0x00);
    } else if port == 69 {
        out.push(0x00);
        out.push(0x01);
        out.push(0x74);
        out.push(0x65);
        out.push(0x73);
        out.push(0x74);
        out.push(0x00);
        out.push(0x6e);
        out.push(0x65);
        out.push(0x74);
        out.push(0x61);
        out.push(0x73);
        out.push(0x63);
        out.push(0x69);
        out.push(0x69);
        out.push(0x00);
    } else if port == 137 {
        out.push(0x80);
        out.push(0xf0);
        out.push(0x00);
        out.push(0x10);
        out.push(0x00);
        out.push(0x01);
        out.push(0x00);
        out.push(0x00);
        out.push(0x00);
        out.push(0x00);
        out.push(0x00);
        out.push(0x00);
        out.push(0x20);
        out.push(0x43);
        out.push(0x4b);
        let mut i: usize = 0;
        while i < 30
            invariant
                i <= 30,
                out@.len() == 15 + i,
                out@ == spec_probe_for_port(137).take(15 + i),
            decreases 30 - i,
        {
            out.push(0x41);
            proof {
                assert(out@ =~= spec_probe_for_port(137).take(15 + i + 1));
            }
            i = i + 1;
        }
        out.push(0x00);
        out.push(0x00);
        out.push(0x21);
        out.push(0x00);
        out.push(0x01);
    } else {
        out.push(0x00);
    }
    proof {
        assert(out@ =~= spec_probe_for_port(port));
    }
    out
}

/// What one send-and-wait attempt observed.
pub enum UdpProbeEvent {
    /// A reply arrived carrying this many bytes.
    Response(usize),
    /// The network reported the port unreachable (an ICMP error surfaced
    /// as a refused or unreachable socket error).
    IcmpUnreachable,
    /// Nothing arrived within the timeout.
    TimedOut,
    /// The probe could not be sent or the socket failed.
    SendFailed,
}

/// What the probe loop does next.
#[derive(Debug, Clone, Copy, PartialEq, Eq, Structural)]
pub enum UdpDecision {
    /// The port's status is settled.
    Final(PortStatus),
    /// Send the probe again after a short delay.
    Retry,
}

/// Decide what one attempt's observation means. Data means open; an ICMP
/// unreachable signal means closed; a send failure degrades to filtered; a
/// silent attempt is retried until the attempts are used up, and only then
/// classified as the ambiguous open-or-filtered status, because a silent
/// port may be a dropping service or a filter.
pub fn udp_probe_step(attempt: u32, retries: u32, event: UdpProbeEvent) -> (r: UdpDecision)
    requires
        attempt < retries,
    ensures
        (event matches UdpProbeEvent::Response(n) && n > 0) ==> r == UdpDecision::Final(
            PortStatus::Open,
        ),
        event is IcmpUnreachable ==> r == UdpDecision::Final(PortStatus::Closed),
        event is SendFailed ==> r == UdpDecision::Final(PortStatus::Filtered),
        (event is TimedOut || event == UdpProbeEvent::Response(0usize)) ==> r == (if attempt + 1
            < retries {
            UdpDecision::Retry
        } else {
            UdpDecision::Final(PortStatus::OpenFiltered)
        }),
{
    match event {
        UdpProbeEvent::Response(n) => {
            if n > 0 {
                UdpDecision::Final(PortStatus::Open)
            } else if attempt + 1 < retries {
                UdpDecision::Retry
            } else {
                UdpDecision::Final(PortStatus::OpenFiltered)
            }
        },
        UdpProbeEvent::IcmpUnreachable => UdpDecision::Final(PortStatus::Closed),
        UdpProbeEvent::SendFailed => UdpDecision::Final(PortStatus::Filtered),
        UdpProbeEvent::TimedOut => {
            if attempt + 1 < retries {
                UdpDecision::Retry
            } else {
                UdpDecision::Final(PortStatus::OpenFiltered)
            }
        },
    }
}

/// The UDP scanner: sends protocol-aware probes and reads the silence.
pub struct UdpScanner {
    target: IpAddress,
    timeout_ms: u64,
    retries: u32,
}

impl UdpScanner {
    /// The configured target address.
    pub closed spec fn spec_target(self) -> IpAddress {
        self.target
    }

    /// The per-attempt timeout in milliseconds.
    pub closed spec fn spec_timeout_ms(self) -> u64 {
        self.timeout_ms
    }

    /// How many attempts each port gets.
    pub closed spec fn spec_retries(self) -> u32 {
        self.retries
    }

    /// Create a new UDP scanner; every port gets two attempts.
    pub fn new(target: IpAddress, timeout_ms: u64) -> (r: UdpScanner)
        ensures
            r.spec_target() == target,
            r.spec_timeout_ms() == timeout_ms,
            r.spec_retries() == 2,
    {
        UdpScanner { target, timeout_ms, retries: 2 }
    }

    /// The technique this scanner implements.
    pub fn scan_type(&self) -> (r: ScanType)
        ensures
            r is Udp,
    {
        ScanType::Udp
    }

    /// ICMP visibility for reliable closed detection needs privileges.
    pub fn requires_privileges(&self) -> (r: bool)
        ensures
            r,
    {
        true
    }

    /// The configured target address.
    pub fn target(&self) -> (r: IpAddress)
        ensures
            r == self.spec_target(),
    {
        self.target
    }

    /// The per-attempt timeout in milliseconds.
    pub fn timeout_ms(&self) -> (r: u64)
        ensures
            r == self.spec_timeout_ms(),
    {
        self.timeout_ms
    }

    /// How many attempts each port gets.
    pub fn retries(&self) -> (r: u32)
        ensures
            r == self.spec_retries(),
    {
        self.retries
    }

    /// Assemble the per-port result once the probe loop settled on a
    /// status. A probe never fails outward: every status yields a result.
    pub fn scan_port_result(&self, port: Port, status: PortStatus) -> (r: PortResult)
        ensures
            r.port == port,
            r.status == status,
            r.service@ == spec_service_text(port@),
            r.banner is None,
            r.response_time_ms is None,
    {
        PortResult::new(port, status, get_service_description(port.as_u16()))
    }
}

} // verus!
