//! Scan result types: port status, per-port results, scan techniques and
//! output formats.

use vstd::prelude::*;
use crate::port::Port;
use crate::text::{ascii_lower, eq_ignore_ascii_case, str_eq};

verus! {

/// Status of a scanned port.
#[derive(Debug, Clone, Copy, PartialEq, Eq, Structural)]
pub enum PortStatus {
    /// A service answered: the port is open.
    Open,
    /// The port actively refused: closed.
    Closed,
    /// No answer within the timeout: filtered.
    Filtered,
    /// Open or filtered; a technique that cannot tell the two apart.
    OpenFiltered,
}

impl PortStatus {
    /// The status rendered as text.
    pub open spec fn spec_name(self) -> Seq<char> {
        match self {
            PortStatus::Open => "open"@,
            PortStatus::Closed => "closed"@,
            PortStatus::Filtered => "filtered"@,
            PortStatus::OpenFiltered => "open|filtered"@,
        }
    }

    /// The status a piece of text names, if any.
    pub open spec fn spec_of_name(s: Seq<char>) -> Option<PortStatus> {
        if s == "open"@ {
            Some(PortStatus::Open)
        } else if s == "closed"@ {
            Some(PortStatus::Closed)
        } else if s == "filtered"@ {
            Some(PortStatus::Filtered)
        } else if s == "open|filtered"@ {
            Some(PortStatus::OpenFiltered)
        } else {
            None
        }
    }

    /// Render the status as text.
    pub fn as_str(self) -> (r: &'static str)
        ensures
            r@ == self.spec_name(),
    {
        match self {
            PortStatus::Open => "open",
            PortStatus::Closed => "closed",
            PortStatus::Filtered => "filtered",
            PortStatus::OpenFiltered => "open|filtered",
        }
    }

    /// Parse a status from its textual name.
    pub fn parse(s: &str) -> (r: Option<PortStatus>)
        ensures
            r == PortStatus::spec_of_name(s@),
    {
        if str_eq(s, "open") {
            Some(PortStatus::Open)
        } else if str_eq(s, "closed") {
            Some(PortStatus::Closed)
        } else if str_eq(s, "filtered") {
            Some(PortStatus::Filtered)
        } else if str_eq(s, "open|filtered") {
            Some(PortStatus::OpenFiltered)
        } else {
            None
        }
    }

    /// A status's name always parses back to that status.
    pub proof fn lemma_name_round_trip(self)
        ensures
            PortStatus::spec_of_name(self.spec_name()) == Some(self),
    {
        reveal_strlit("open");
        reveal_strlit("closed");
        reveal_strlit("filtered");
        reveal_strlit("open|filtered");
        assert("open"@.len() == 4);
        assert("closed"@.len() == 6);
        assert("filtered"@.len() == 8);
        assert("open|filtered"@.len() == 13);
    }
}

/// Result of scanning a single port.
#[derive(Debug, Clone, PartialEq)]
pub struct PortResult {
    /// The port that was scanned.
    pub port: Port,
    /// Status determined by the scan.
    pub status: PortStatus,
    /// Detected or inferred service name.
    pub service: String,
    /// Banner captured from the service, if any.
    pub banner: Option<String>,
    /// Response time in milliseconds, if measured.
    pub response_time_ms: Option<u64>,
}

impl PortResult {
    /// Create a new port result with no banner and no response time.
    pub fn new(port: Port, status: PortStatus, service: &str) -> (r: PortResult)
        ensures
            r.port == port,
            r.status == status,
            r.service@ == service@,
            r.banner is None,
            r.response_time_ms is None,
    {
        PortResult {
            port,
            status,
            service: service.to_owned(),
            banner: None,
            response_time_ms: None,
        }
    }

    /// Replace the banner.
    pub fn with_banner(self, banner: Option<String>) -> (r: PortResult)
        ensures
            r == (PortResult { banner, ..self }),
    {
        PortResult { banner, ..self }
    }

    /// Set the response time.
    pub fn with_response_time(self, time_ms: u64) -> (r: PortResult)
        ensures
            r == (PortResult { response_time_ms: Some(time_ms), ..self }),
    {
        PortResult { response_time_ms: Some(time_ms), ..self }
    }

    /// Whether the port may be open.
    pub fn is_open(&self) -> (r: bool)
        ensures
            r == (self.status is Open || self.status is OpenFiltered),
    {
        match self.status {
            PortStatus::Open | PortStatus::OpenFiltered => true,
            _ => false,
        }
    }
}

/// Available scan techniques.
#[derive(Debug, Clone, Copy, PartialEq, Eq, Structural)]
pub enum ScanType {
    /// TCP connect scan; no special privileges required.
    Connect,
    /// SYN stealth scan; requires raw socket access.
    Syn,
    /// UDP scan; requires ICMP visibility for reliable closed detection.
    Udp,
}

impl ScanType {
    /// The technique rendered as text.
    pub open spec fn spec_name(self) -> Seq<char> {
        match self {
            ScanType::Connect => "TCP Connect"@,
            ScanType::Syn => "SYN Stealth"@,
            ScanType::Udp => "UDP"@,
        }
    }

    /// The technique a keyword names, compared ASCII-case-insensitively.
    pub open spec fn spec_of_keyword(s: Seq<char>) -> Option<ScanType> {
        if ascii_lower(s) == "connect"@ || ascii_lower(s) == "tcp"@ {
            Some(ScanType::Connect)
        } else if ascii_lower(s) == "syn"@ || ascii_lower(s) == "stealth"@ {
            Some(ScanType::Syn)
        } else if ascii_lower(s) == "udp"@ {
            Some(ScanType::Udp)
        } else {
            None
        }
    }

    /// Render the technique as text.
    pub fn as_str(self) -> (r: &'static str)
        ensures
            r@ == self.spec_name(),
    {
        match self {
            ScanType::Connect => "TCP Connect",
            ScanType::Syn => "SYN Stealth",
            ScanType::Udp => "UDP",
        }
    }

    /// Parse a technique keyword such as "connect", "tcp", "syn",
    /// "stealth" or "udp", ignoring ASCII case.
    pub fn parse(s: &str) -> (r: Option<ScanType>)
        ensures
            r == ScanType::spec_of_keyword(s@),
    {
        if eq_ignore_ascii_case(s, "connect") || eq_ignore_ascii_case(s, "tcp") {
            Some(ScanType::Connect)
        } else if eq_ignore_ascii_case(s, "syn") || eq_ignore_ascii_case(s, "stealth") {
            Some(ScanType::Syn)
        } else if eq_ignore_ascii_case(s, "udp") {
            Some(ScanType::Udp)
        } else {
            None
        }
    }
}

impl core::str::FromStr for ScanType {
    type Err = String;

    fn from_str(s: &str) -> Result<ScanType, String> {
        match ScanType::parse(s) {
            Some(t) => Ok(t),
            None => Err("unknown scan type: ".to_owned().concat(s)),
        }
    }
}

impl Default for ScanType {
    /// The default technique is the unprivileged TCP connect scan.
    fn default() -> (r: ScanType)
        ensures
            r is Connect,
    {
        ScanType::Connect
    }
}

/// Output format options for rendered reports.
#[derive(Debug, Clone, Copy, PartialEq, Eq, Structural)]
pub enum OutputFormat {
    /// Human-readable plain text.
    Plain,
    /// JSON structured output.
    Json,
    /// CSV rows for data analysis.
    Csv,
}

impl Default for OutputFormat {
    /// The default format is plain text.
    fn default() -> (r: OutputFormat)
        ensures
            r is Plain,
    {
        OutputFormat::Plain
    }
}

} // verus!
