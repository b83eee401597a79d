//! Tests for the three probing strategies, the packet codec, the rate
//! limiter and the concurrency gate.

use scuttle::checksum::checksum16;
use scuttle::error::ScanError;
use scuttle::net::IpAddress;
use scuttle::orchestrator::{aggregate_results, ConcurrencyGate};
use scuttle::packet::parse_response;
use scuttle::port::Port;
use scuttle::rate_limiter::RateLimiter;
use scuttle::report::build_report;
use scuttle::result::{PortStatus, ScanType};
use scuttle::syn::{find_interface, get_interface_ipv4, InterfaceInfo, SynScanner};
use scuttle::tcp::{classify_connect_error, ConnectOutcome, TcpConnectScanner};
use scuttle::udp::{get_probe_for_port, udp_probe_step, UdpDecision, UdpProbeEvent, UdpScanner};

fn localhost() -> IpAddress {
    IpAddress::V4([127, 0, 0, 1])
}

#[test]
fn tcp_test_scanner_creation() {
    let scanner = TcpConnectScanner::new(localhost(), 1000, false);
    assert_eq!(scanner.target(), localhost());
    assert!(!scanner.requires_privileges());
    assert_eq!(scanner.scan_type(), ScanType::Connect);
    assert_eq!(scanner.timeout_ms(), 1000);
}

#[test]
fn test_connect_error_classification() {
    let port = Port::new(80).unwrap();
    assert!(matches!(
        classify_connect_error("connection refused", "127.0.0.1", port),
        ScanError::ConnectionRefused
    ));
    assert!(matches!(
        classify_connect_error("host unreachable", "127.0.0.1", port),
        ScanError::HostUnreachable
    ));
    assert!(matches!(
        classify_connect_error("network unreachable", "127.0.0.1", port),
        ScanError::NetworkUnreachable(_)
    ));
    assert!(matches!(
        classify_connect_error("broken pipe", "127.0.0.1", port),
        ScanError::ConnectionFailed { port: 80, .. }
    ));
}

#[test]
fn test_connect_results_never_ambiguous() {
    let scanner = TcpConnectScanner::new(localhost(), 1000, false);
    let errors = [
        ScanError::ConnectionRefused,
        ScanError::Timeout,
        ScanError::HostUnreachable,
        ScanError::NetworkUnreachable("n".to_string()),
        ScanError::Cancelled,
    ];
    for e in errors {
        let r = scanner.scan_port_result(
            Port::new(81).unwrap(),
            ConnectOutcome::Failed(e),
            None,
            0,
        );
        assert_ne!(r.status, PortStatus::OpenFiltered);
        assert_ne!(r.status, PortStatus::Open);
    }
}

#[test]
fn test_localhost_connect_scenario() {
    // Scanning ports 22, 80 and 9999, where 22 has a listener, 80 times
    // out and 9999 refuses: the report shows 22 open and 9999 closed, or
    // drops 9999 when closed filtering is on.
    let scanner = TcpConnectScanner::new(localhost(), 1000, false);
    let raw = vec![
        scanner.scan_port_result(Port::new(9999).unwrap(), ConnectOutcome::Failed(ScanError::ConnectionRefused), None, 0),
        scanner.scan_port_result(Port::new(22).unwrap(), ConnectOutcome::Connected, None, 3),
        scanner.scan_port_result(Port::new(80).unwrap(), ConnectOutcome::Failed(ScanError::Timeout), None, 0),
    ];

    let report = build_report("localhost", "127.0.0.1", ScanType::Connect, raw.clone(), true, 42);
    let ports: Vec<(u16, PortStatus)> = report
        .results
        .iter()
        .map(|r| (r.port.as_u16(), r.status))
        .collect();
    assert_eq!(
        ports,
        vec![
            (22, PortStatus::Open),
            (80, PortStatus::Filtered),
            (9999, PortStatus::Closed)
        ]
    );
    assert_eq!(report.ports_scanned, 3);
    assert_eq!(report.open_ports, 1);
    assert_eq!(report.closed_ports, 1);
    assert_eq!(report.filtered_ports, 1);
    assert_eq!(report.scan_type, "TCP Connect");

    let filtered = build_report("localhost", "127.0.0.1", ScanType::Connect, raw, false, 42);
    let ports: Vec<u16> = filtered.results.iter().map(|r| r.port.as_u16()).collect();
    assert_eq!(ports, vec![22, 80]);
}

#[test]
fn test_probe_selection() {
    assert_eq!(get_probe_for_port(53).len(), 12); // DNS probe
    assert_eq!(get_probe_for_port(12345), vec![0x00]); // Unknown port
}

#[test]
fn test_probe_table() {
    assert_eq!(get_probe_for_port(161).len(), 17);
    assert_eq!(get_probe_for_port(123).len(), 12);
    assert_eq!(get_probe_for_port(69).len(), 16);
    assert_eq!(get_probe_for_port(137).len(), 50);
    assert_eq!(&get_probe_for_port(161)[7..13], b"public");
}

#[test]
fn udp_test_scanner_creation() {
    let scanner = UdpScanner::new(localhost(), 1000);
    assert_eq!(scanner.target(), localhost());
    assert!(scanner.requires_privileges());
    assert_eq!(scanner.scan_type(), ScanType::Udp);
    assert_eq!(scanner.retries(), 2);
}

#[test]
fn test_udp_retries_time_out_ambiguous() {
    // Two attempts, both silent: the first retries, the second settles on
    // the deliberately ambiguous open-or-filtered status.
    assert_eq!(udp_probe_step(0, 2, UdpProbeEvent::TimedOut), UdpDecision::Retry);
    assert_eq!(
        udp_probe_step(1, 2, UdpProbeEvent::TimedOut),
        UdpDecision::Final(PortStatus::OpenFiltered)
    );
}

#[test]
fn test_udp_step_outcomes() {
    assert_eq!(
        udp_probe_step(0, 2, UdpProbeEvent::Response(8)),
        UdpDecision::Final(PortStatus::Open)
    );
    assert_eq!(
        udp_probe_step(0, 2, UdpProbeEvent::IcmpUnreachable),
        UdpDecision::Final(PortStatus::Closed)
    );
    assert_eq!(
        udp_probe_step(1, 2, UdpProbeEvent::SendFailed),
        UdpDecision::Final(PortStatus::Filtered)
    );
    let scanner = UdpScanner::new(localhost(), 1000);
    let r = scanner.scan_port_result(Port::new(53).unwrap(), PortStatus::OpenFiltered);
    assert_eq!(r.status, PortStatus::OpenFiltered);
    assert_eq!(r.service, "dns");
}

fn fake_interfaces() -> Vec<InterfaceInfo> {
    vec![
        InterfaceInfo {
            name: "lo".to_string(),
            is_up: true,
            is_loopback: true,
            mac: None,
            ipv4_addrs: vec![[127, 0, 0, 1]],
        },
        InterfaceInfo {
            name: "eth0".to_string(),
            is_up: true,
            is_loopback: false,
            mac: Some([2, 0, 0, 0, 0, 1]),
            ipv4_addrs: vec![[192, 168, 1, 10]],
        },
    ]
}

#[test]
fn test_find_interface() {
    let interfaces = fake_interfaces();
    let auto = find_interface(&interfaces, None).unwrap();
    assert_eq!(interfaces[auto].name, "eth0");

    let by_name = find_interface(&interfaces, Some("lo")).unwrap();
    assert_eq!(interfaces[by_name].name, "lo");

    assert!(matches!(
        find_interface(&interfaces, Some("wlan9")),
        Err(ScanError::InterfaceNotFound(_))
    ));

    let source = get_interface_ipv4(&interfaces[auto]).unwrap();
    assert_eq!(source, [192, 168, 1, 10]);
    assert!(matches!(
        get_interface_ipv4(&interfaces[0]),
        Err(ScanError::InvalidConfig(_))
    ));
}

#[test]
fn test_syn_scanner_bad_interface_fails_fast() {
    // A non-existent interface name is a fatal interface-not-found error
    // at construction, before any packet could be sent.
    let interfaces = fake_interfaces();
    let r = SynScanner::new(
        IpAddress::V4([192, 168, 1, 20]),
        Some("does-not-exist"),
        1000,
        &interfaces,
    );
    assert!(matches!(r, Err(ScanError::InterfaceNotFound(_))));

    let v6 = SynScanner::new(IpAddress::V6([0; 16]), None, 1000, &interfaces);
    assert!(matches!(v6, Err(ScanError::InvalidConfig(_))));

    assert!(SynScanner::new(IpAddress::V4([192, 168, 1, 20]), None, 1000, &interfaces).is_ok());
}

#[test]
fn test_syn_probe_frame_layout() {
    let interfaces = fake_interfaces();
    let scanner =
        SynScanner::new(IpAddress::V4([192, 168, 1, 20]), Some("eth0"), 1000, &interfaces)
            .unwrap();
    assert_eq!(scanner.scan_type(), ScanType::Syn);
    assert!(scanner.requires_privileges());

    let frame = scanner.build_probe(Port::new(443).unwrap());
    assert_eq!(frame.len(), 54);
    // Link layer: broadcast destination, source, IPv4 ethertype.
    assert_eq!(&frame[0..6], &[0xff; 6]);
    assert_eq!(&frame[6..12], &[2, 0, 0, 0, 0, 1]);
    assert_eq!(&frame[12..14], &[0x08, 0x00]);
    // IPv4: version 4, header length 5, total length 40, DF, TTL 64, TCP.
    assert_eq!(frame[14], 0x45);
    assert_eq!(&frame[16..18], &[0x00, 0x28]);
    assert_eq!(frame[20], 0x40);
    assert_eq!(frame[22], 64);
    assert_eq!(frame[23], 6);
    assert_eq!(&frame[26..30], &[192, 168, 1, 10]);
    assert_eq!(&frame[30..34], &[192, 168, 1, 20]);
    // The header checksum verifies: the complement sum over the header,
    // checksum included, folds to zero.
    assert_eq!(checksum16(&frame[14..34]), 0);
    // TCP: random ephemeral source port, destination 443, SYN only.
    let src_port = u16::from_be_bytes([frame[34], frame[35]]);
    assert!((49152..65535).contains(&src_port));
    assert_eq!(&frame[36..38], &[0x01, 0xbb]);
    assert_eq!(frame[46], 0x50);
    assert_eq!(frame[47], 0x02);
    assert_eq!(&frame[48..50], &[0xff, 0xff]);
    assert_eq!(&frame[52..54], &[0x00, 0x00]);
}

#[test]
fn test_checksum_known_vector() {
    // The classic worked example of the IPv4 header checksum.
    let header: [u8; 20] = [
        0x45, 0x00, 0x00, 0x3c, 0x1c, 0x46, 0x40, 0x00, 0x40, 0x06, 0x00, 0x00, 0xac, 0x10, 0x0a,
        0x63, 0xac, 0x10, 0x0a, 0x0c,
    ];
    assert_eq!(checksum16(&header), 0xb1e6);
    assert_eq!(checksum16(&[]), 0xffff);
}

fn response_frame(src_ip: [u8; 4], src_port: u16, flags: u8) -> Vec<u8> {
    let mut frame = vec![0u8; 54];
    frame[23] = 6;
    frame[26..30].copy_from_slice(&src_ip);
    frame[14] = 0x45;
    frame[34..36].copy_from_slice(&src_port.to_be_bytes());
    frame[47] = flags;
    frame
}

#[test]
fn test_parse_response_classification() {
    let target = [192, 168, 1, 20];
    // SYN+ACK from the scanned port: open.
    assert_eq!(
        parse_response(&response_frame(target, 443, 0x12), &target, 443),
        Some(PortStatus::Open)
    );
    // RST: closed.
    assert_eq!(
        parse_response(&response_frame(target, 443, 0x04), &target, 443),
        Some(PortStatus::Closed)
    );
    // Wrong source address: discarded.
    assert_eq!(
        parse_response(&response_frame([10, 0, 0, 1], 443, 0x12), &target, 443),
        None
    );
    // Wrong source port: discarded.
    assert_eq!(
        parse_response(&response_frame(target, 80, 0x12), &target, 443),
        None
    );
    // Too short: discarded.
    assert_eq!(parse_response(&[0u8; 40], &target, 443), None);

    let interfaces = fake_interfaces();
    let scanner =
        SynScanner::new(IpAddress::V4(target), Some("eth0"), 1000, &interfaces).unwrap();
    assert_eq!(
        scanner.classify_capture(&response_frame(target, 443, 0x12), Port::new(443).unwrap()),
        Some(PortStatus::Open)
    );
    let r = scanner.scan_port_result(Port::new(443).unwrap(), None);
    assert_eq!(r.status, PortStatus::Filtered);
}

#[test]
fn test_rate_limiter_creation() {
    let mut limiter = RateLimiter::new(100);
    // Should be able to acquire immediately
    assert!(limiter.try_acquire(0));
}

#[test]
fn test_rate_limiter_bound() {
    // At 5 per second, the first second admits the burst (5) plus what
    // refills; counting grants over a 2-second window never exceeds
    // rate * seconds + burst.
    let mut limiter = RateLimiter::new(5);
    let mut granted = 0u64;
    for ms in 0..2000u64 {
        if limiter.try_acquire(ms * 1_000_000) {
            granted += 1;
        }
    }
    assert!(granted <= 5 * 2 + 5);
    assert!(granted >= 5);
}

#[test]
fn test_rate_limiter_wait() {
    let mut limiter = RateLimiter::new(1000);
    // With a high rate a token is available at once.
    assert_eq!(limiter.nanos_until_ready(0), 0);
    assert!(limiter.try_acquire(0));
}

#[test]
fn test_rate_limiter_burst() {
    let mut limiter = RateLimiter::with_burst(1, 3);
    assert!(limiter.try_acquire(0));
    assert!(limiter.try_acquire(0));
    assert!(limiter.try_acquire(0));
    assert!(!limiter.try_acquire(0));
    assert!(limiter.nanos_until_ready(0) > 0);
    // A second later one token has refilled.
    assert!(limiter.try_acquire(1_000_000_000));
}

#[test]
fn test_concurrency_gate_cap() {
    // With a cap of 2, a third probe cannot start until one finishes.
    let mut gate = ConcurrencyGate::new(2);
    assert!(gate.try_start());
    assert!(gate.try_start());
    assert!(!gate.try_start());
    gate.finish();
    assert!(gate.try_start());
    assert!(!gate.try_start());
}

#[test]
fn test_aggregate_keeps_open_filtered_for_udp() {
    // The ambiguous status is reported, not resolved away.
    let raw = vec![make_result(53, PortStatus::OpenFiltered)];
    let out = aggregate_results(raw, false);
    assert_eq!(out.len(), 1);
    assert_eq!(out[0].status, PortStatus::OpenFiltered);
}

fn make_result(port: u16, status: PortStatus) -> scuttle::result::PortResult {
    scuttle::result::PortResult::new(Port::new(port).unwrap(), status, "svc")
}

