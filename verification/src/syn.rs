//! SYN stealth strategy: interface resolution, probe construction and
//! response classification.
//!
//! Construction resolves a network interface and a source address from a
//! caller-supplied description of the machine's interfaces, and fails fast
//! with a distinguishable error before any packet is sent: an unsupported
//! address family, a missing interface, or an interface without a usable
//! address. Per-port probing builds the raw frame byte for byte and
//! classifies captured frames; sending and capturing are the caller's.

use vstd::prelude::*;
use crate::error::ScanError;
use crate::net::{spec_v4_loopback, v4_is_loopback, IpAddress};
use crate::packet::{build_syn_frame, spec_classify_frame, syn_frame};
use crate::port::Port;
use crate::result::{PortResult, PortStatus, ScanType};
use crate::services::{get_service_description, spec_service_text};
use crate::text::str_eq;
use rand::Rng;

verus! {

/// What the scanner needs to know of one network interface: its name,
/// state, hardware address and IPv4 addresses, as plain values.
pub struct InterfaceInfo {
    /// The interface name, such as "eth0".
    pub name: String,
    /// Whether the interface is up.
    pub is_up: bool,
    /// Whether it is the loopback interface.
    pub is_loopback: bool,
    /// Its hardware address, if it has one.
    pub mac: Option<[u8; 6]>,
    /// Its IPv4 addresses, in order.
    pub ipv4_addrs: Vec<[u8; 4]>,
}

/// Whether an interface is usable for auto-selection: up, not loopback,
/// with at least one IPv4 address.
pub open spec fn spec_usable_interface(iface: InterfaceInfo) -> bool {
    &&& !iface.is_loopback
    &&& iface.is_up
    &&& iface.ipv4_addrs@.len() > 0
}

/// The first non-loopback IPv4 address of an interface, if any.
pub open spec fn spec_source_addr(iface: InterfaceInfo) -> Option<Seq<u8>> {
    if exists|i: int|
        0 <= i < iface.ipv4_addrs@.len() && !spec_v4_loopback(#[trigger] iface.ipv4_addrs@[i]@) {
        let i = choose|i: int|
            0 <= i < iface.ipv4_addrs@.len() && !spec_v4_loopback(#[trigger] iface.ipv4_addrs@[i]@)
                && forall|j: int|
                0 <= j < i ==> spec_v4_loopback(#[trigger] iface.ipv4_addrs@[j]@);
        Some(iface.ipv4_addrs@[i]@)
    } else {
        None
    }
}

/// Whether the interface list holds one the scanner can resolve: the
/// named interface when a name is given, else some usable interface.
pub open spec fn spec_interface_found(interfaces: Seq<InterfaceInfo>, name: Option<&str>) -> bool {
    match name {
        Some(n) => exists|i: int|
            0 <= i < interfaces.len() && (#[trigger] interfaces[i].name)@ == n@,
        None => exists|i: int|
            0 <= i < interfaces.len() && spec_usable_interface(#[trigger] interfaces[i]),
    }
}

/// The index the scanner resolves to: the first interface of the given
/// name, or the first usable one when no name is given.
pub open spec fn spec_resolved_index(interfaces: Seq<InterfaceInfo>, name: Option<&str>) -> int {
    match name {
        Some(n) => choose|i: int|
            0 <= i < interfaces.len() && (#[trigger] interfaces[i].name)@ == n@ && (forall|j: int|
                0 <= j < i ==> (#[trigger] interfaces[j].name)@ != n@),
        None => choose|i: int|
            0 <= i < interfaces.len() && spec_usable_interface(#[trigger] interfaces[i]) && (
            forall|j: int| 0 <= j < i ==> !spec_usable_interface(#[trigger] interfaces[j])),
    }
}

/// Find the interface to scan from: by name when one is given, else the
/// first interface that is up, not loopback, and has an IPv4 address.
/// Returns the index into `interfaces`; the interface-not-found error
/// comes exactly when no interface qualifies.
pub fn find_interface(interfaces: &Vec<InterfaceInfo>, name: Option<&str>) -> (r: Result<
    usize,
    ScanError,
>)
    ensures
        name matches Some(n) ==> ((r is Ok <==> exists|i: int|
            0 <= i < interfaces@.len() && (#[trigger] interfaces@[i].name)@ == n@) && (r is Ok
            ==> r.unwrap() < interfaces@.len() && interfaces@[r.unwrap() as int].name@ == n@
            && (forall|k: int|
            0 <= k < r.unwrap() ==> (#[trigger] interfaces@[k].name)@ != n@))),
        name is None ==> ((r is Ok <==> exists|i: int|
            0 <= i < interfaces@.len() && spec_usable_interface(#[trigger] interfaces@[i])) && (
        r is Ok ==> r.unwrap() < interfaces@.len() && spec_usable_interface(
            interfaces@[r.unwrap() as int],
        ) && (forall|k: int|
            0 <= k < r.unwrap() ==> !spec_usable_interface(#[trigger] interfaces@[k])))),
        r is Err ==> r.unwrap_err() is InterfaceNotFound,
{
    match name {
        Some(n) => {
            let mut i: usize = 0;
            while i < interfaces.len()
                invariant
                    name == Some(n),
                    i <= interfaces@.len(),
                    forall|k: int| 0 <= k < i ==> (#[trigger] interfaces@[k].name)@ != n@,
                decreases interfaces@.len() - i,
            {
                if str_eq(interfaces[i].name.as_str(), n) {
                    proof {
                        assert((interfaces@[i as int].name)@ == n@);
                    }
                    return Ok(i);
                }
                i = i + 1;
            }
            Err(ScanError::InterfaceNotFound(n.to_owned()))
        },
        None => {
            let mut i: usize = 0;
            while i < interfaces.len()
                invariant
                    name is None,
                    i <= interfaces@.len(),
                    forall|k: int|
                        0 <= k < i ==> !spec_usable_interface(#[trigger] interfaces@[k]),
                decreases interfaces@.len() - i,
            {
                let iface = &interfaces[i];
                if !iface.is_loopback && iface.is_up && iface.ipv4_addrs.len() > 0 {
                    proof {
                        assert(spec_usable_interface(interfaces@[i as int]));
                    }
                    return Ok(i);
                }
                i = i + 1;
            }
            Err(ScanError::InterfaceNotFound("No suitable network interface found".to_owned()))
        },
    }
}

/// The first non-loopback IPv4 address of an interface; the configuration
/// error comes exactly when it has none.
pub fn get_interface_ipv4(iface: &InterfaceInfo) -> (r: Result<[u8; 4], ScanError>)
    ensures
        r is Ok <==> spec_source_addr(*iface) is Some,
        r is Ok ==> r.unwrap()@ == spec_source_addr(*iface).unwrap(),
        r is Err ==> r.unwrap_err() is InvalidConfig,
{
    let mut i: usize = 0;
    while i < iface.ipv4_addrs.len()
        invariant
            i <= iface.ipv4_addrs@.len(),
            forall|k: int| 0 <= k < i ==> spec_v4_loopback(#[trigger] iface.ipv4_addrs@[k]@),
        decreases iface.ipv4_addrs@.len() - i,
    {
        let addr = iface.ipv4_addrs[i];
        if !v4_is_loopback(&addr) {
            proof {
                let w = choose|w: int|
                    0 <= w < iface.ipv4_addrs@.len() && !spec_v4_loopback(
                        #[trigger] iface.ipv4_addrs@[w]@,
                    ) && forall|j: int|
                        0 <= j < w ==> spec_v4_loopback(#[trigger] iface.ipv4_addrs@[j]@);
                assert(w == i);
            }
            return Ok(addr);
        }
        i = i + 1;
    }
    Err(ScanError::InvalidConfig("interface has no usable IPv4 address".to_owned()))
}

/// Relies on rand's thread-local generator: a uniformly drawn value in
/// the half-open range.
#[verifier::external_body]
fn random_in_range_u16(lo: u16, hi: u16) -> (r: u16)
    requires
        lo < hi,
    ensures
        lo <= r < hi,
{
    rand::thread_rng().gen_range(lo..hi)
}

/// Relies on rand::random; nothing is promised of the value.
#[verifier::external_body]
fn random_u16() -> u16 {
    rand::random()
}

/// Relies on rand::random; nothing is promised of the value.
#[verifier::external_body]
fn random_u32() -> u32 {
    rand::random()
}

/// A randomized ephemeral source port, in 49152..65535.
pub fn rand_source_port() -> (r: u16)
    ensures
        49152 <= r < 65535,
{
    random_in_range_u16(49152, 65535)
}

/// The half-open SYN scanner. Requires raw socket access.
#[derive(Debug)]
pub struct SynScanner {
    target: [u8; 4],
    source_ip: [u8; 4],
    source_mac: [u8; 6],
    interface_index: usize,
    timeout_ms: u64,
}

impl SynScanner {
    /// The target address octets.
    pub closed spec fn spec_target(self) -> Seq<u8> {
        self.target@
    }

    /// The resolved source address octets.
    pub closed spec fn spec_source_ip(self) -> Seq<u8> {
        self.source_ip@
    }

    /// The resolved source hardware address.
    pub closed spec fn spec_source_mac(self) -> Seq<u8> {
        self.source_mac@
    }

    /// The index of the resolved interface in the list construction saw.
    pub closed spec fn spec_interface_index(self) -> usize {
        self.interface_index
    }

    /// The per-probe timeout in milliseconds.
    pub closed spec fn spec_timeout_ms(self) -> u64 {
        self.timeout_ms
    }

    /// Create a SYN scanner: reject IPv6 targets, resolve the interface
    /// (by name if one is given) and its first usable IPv4 address. Every
    /// failure is fatal before any packet is sent: an unsupported target
    /// is a configuration error, a missing interface is the
    /// interface-not-found error, and an interface without a usable
    /// address is a configuration error.
    pub fn new(
        target: IpAddress,
        interface_name: Option<&str>,
        timeout_ms: u64,
        interfaces: &Vec<InterfaceInfo>,
    ) -> (r: Result<SynScanner, ScanError>)
        ensures
            target is V6 ==> r is Err && r.unwrap_err() is InvalidConfig,
            target is V4 ==> ((r is Ok) <==> (spec_interface_found(interfaces@, interface_name)
                && spec_source_addr(
                interfaces@[spec_resolved_index(interfaces@, interface_name)],
            ) is Some)),
            (target is V4 && !spec_interface_found(interfaces@, interface_name)) ==> (r is Err
                && r.unwrap_err() is InterfaceNotFound),
            (target is V4 && spec_interface_found(interfaces@, interface_name)
                && spec_source_addr(
                interfaces@[spec_resolved_index(interfaces@, interface_name)],
            ) is None) ==> (r is Err && r.unwrap_err() is InvalidConfig),
            r is Ok ==> target is V4,
            r is Ok ==> r.unwrap().spec_target() == target.arrow_V4_0()@,
            r is Ok ==> r.unwrap().spec_timeout_ms() == timeout_ms,
            r is Ok ==> r.unwrap().spec_interface_index() == spec_resolved_index(
                interfaces@,
                interface_name,
            ) && r.unwrap().spec_interface_index() < interfaces@.len(),
            interface_name matches Some(n) ==> (r is Ok
                ==> interfaces@[r.unwrap().spec_interface_index() as int].name@ == n@),
            r is Ok ==> spec_source_addr(interfaces@[r.unwrap().spec_interface_index() as int])
                == Some(r.unwrap().spec_source_ip()),
    {
        let target_v4: [u8; 4] = match target {
            IpAddress::V4(octets) => octets,
            IpAddress::V6(_) => {
                return Err(
                    ScanError::InvalidConfig(
                        "SYN scanning only supports IPv4 currently".to_owned(),
                    ),
                );
            },
        };
        let index = match find_interface(interfaces, interface_name) {
            Ok(i) => i,
            Err(e) => {
                return Err(e);
            },
        };
        proof {
            match interface_name {
                Some(n) => {
                    assert(0 <= index < interfaces@.len() && (interfaces@[index as int].name)@
                        == n@ && (forall|j: int|
                        0 <= j < index ==> (#[trigger] interfaces@[j].name)@ != n@));
                    let w = spec_resolved_index(interfaces@, interface_name);
                    if w < index {
                        assert((interfaces@[w].name)@ != n@);
                    }
                    if w > index {
                        assert((interfaces@[index as int].name)@ != n@);
                    }
                    assert(w == index);
                },
                None => {
                    assert(0 <= index < interfaces@.len() && spec_usable_interface(
                        interfaces@[index as int],
                    ) && (forall|j: int|
                        0 <= j < index ==> !spec_usable_interface(#[trigger] interfaces@[j])));
                    let w = spec_resolved_index(interfaces@, interface_name);
                    if w < index {
                        assert(!spec_usable_interface(interfaces@[w]));
                    }
                    if w > index {
                        assert(!spec_usable_interface(interfaces@[index as int]));
                    }
                    assert(w == index);
                },
            }
        }
        let iface = &interfaces[index];
        let source_ip = match get_interface_ipv4(iface) {
            Ok(addr) => addr,
            Err(e) => {
                return Err(e);
            },
        };
        let source_mac: [u8; 6] = match iface.mac {
            Some(mac) => mac,
            None => [0, 0, 0, 0, 0, 0],
        };
        Ok(
            SynScanner {
                target: target_v4,
                source_ip,
                source_mac,
                interface_index: index,
                timeout_ms,
            },
        )
    }

    /// The technique this scanner implements.
    pub fn scan_type(&self) -> (r: ScanType)
        ensures
            r is Syn,
    {
        ScanType::Syn
    }

    /// Raw socket access requires elevated privileges.
    pub fn requires_privileges(&self) -> (r: bool)
        ensures
            r,
    {
        true
    }

    /// The target address.
    pub fn target(&self) -> (r: IpAddress)
        ensures
            r matches IpAddress::V4(o) && o@ == self.spec_target(),
    {
        IpAddress::V4(self.target)
    }

    /// The per-probe timeout in milliseconds.
    pub fn timeout_ms(&self) -> (r: u64)
        ensures
            r == self.spec_timeout_ms(),
    {
        self.timeout_ms
    }

    /// The index of the resolved interface in the list construction saw.
    pub fn interface_index(&self) -> (r: usize)
        ensures
            r == self.spec_interface_index(),
    {
        self.interface_index
    }

    /// Build the raw SYN probe frame for a port: the verified layout with
    /// a random ephemeral source port, a random sequence number and a
    /// random IP identification.
    pub fn build_probe(&self, port: Port) -> (r: Vec<u8>)
        ensures
            exists|sp: u16, sq: u32, ident: u16|
                49152 <= sp < 65535 && r@ == #[trigger] syn_frame(
                    self.spec_source_mac(),
                    self.spec_source_ip(),
                    self.spec_target(),
                    sp,
                    port@,
                    sq,
                    ident,
                ),
    {
        let source_port = rand_source_port();
        let seq_no = random_u32();
        let ident = random_u16();
        let frame = build_syn_frame(
            &self.source_mac,
            &self.source_ip,
            &self.target,
            source_port,
            port.as_u16(),
            seq_no,
            ident,
        );
        proof {
            assert(49152 <= source_port < 65535 && frame@ == syn_frame(
                self.spec_source_mac(),
                self.spec_source_ip(),
                self.spec_target(),
                source_port,
                port@,
                seq_no,
                ident,
            ));
        }
        frame
    }

    /// Classify a captured frame against this scanner's target and the
    /// scanned port: open on SYN+ACK, closed on RST, and anything that
    /// does not match the probe is discarded.
    pub fn classify_capture(&self, frame: &[u8], port: Port) -> (r: Option<PortStatus>)
        ensures
            r == spec_classify_frame(frame@, self.spec_target(), port@),
    {
        crate::packet::parse_response(frame, &self.target, port.as_u16())
    }

    /// Assemble the per-port result once probing settled on a status; a
    /// probe that failed or saw nothing within the timeout degrades to
    /// filtered rather than aborting the job, and a SYN scan grabs no
    /// banner.
    pub fn scan_port_result(&self, port: Port, status: Option<PortStatus>) -> (r: PortResult)
        ensures
            r.port == port,
            r.status == (if status is Some {
                status.unwrap()
            } else {
                PortStatus::Filtered
            }),
            r.service@ == spec_service_text(port@),
            r.banner is None,
            r.response_time_ms is None,
    {
        let st = match status {
            Some(s) => s,
            None => PortStatus::Filtered,
        };
        PortResult::new(port, st, get_service_description(port.as_u16()))
    }
}

/// Whether raw socket failure text names a permissions problem; such a
/// failure maps to the dedicated privilege error so the caller can say
/// that elevated privileges are required.
pub fn classify_raw_socket_error(msg: &str) -> (r: ScanError)
    ensures
        (crate::text::spec_contains_seq(msg@, "permission"@) || crate::text::spec_contains_seq(
            msg@,
            "operation not permitted"@,
        )) <==> r is PermissionDenied,
        !(crate::text::spec_contains_seq(msg@, "permission"@) || crate::text::spec_contains_seq(
            msg@,
            "operation not permitted"@,
        )) ==> (r matches ScanError::RawSocketError(m) && m@ == msg@),
{
    if crate::text::str_contains(msg, "permission") || crate::text::str_contains(
        msg,
        "operation not permitted",
    ) {
        ScanError::PermissionDenied("Raw socket access requires elevated privileges".to_owned())
    } else {
        ScanError::RawSocketError(msg.to_owned())
    }
}

} // verus!
