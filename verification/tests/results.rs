//! Tests for result types, service lookup, aggregation and the report.

use scuttle::orchestrator::{aggregate_results, ScanJobConfig};
use scuttle::port::Port;
use scuttle::report::{FlatRecord, RecordError, ScanRecord};
use scuttle::result::{OutputFormat, PortResult, PortStatus, ScanType};
use scuttle::scan_id::{ScanId, ScanIdError};
use scuttle::services::{get_service_description, get_service_name};

#[test]
fn test_port_status_display() {
    assert_eq!(PortStatus::Open.as_str(), "open");
    assert_eq!(PortStatus::Closed.as_str(), "closed");
    assert_eq!(PortStatus::Filtered.as_str(), "filtered");
    assert_eq!(PortStatus::OpenFiltered.as_str(), "open|filtered");
}

#[test]
fn test_port_status_parse_round_trip() {
    for status in [
        PortStatus::Open,
        PortStatus::Closed,
        PortStatus::Filtered,
        PortStatus::OpenFiltered,
    ] {
        assert_eq!(PortStatus::parse(status.as_str()), Some(status));
    }
    assert_eq!(PortStatus::parse("bogus"), None);
}

#[test]
fn test_scan_type_from_str() {
    assert_eq!("connect".parse::<ScanType>().unwrap(), ScanType::Connect);
    assert_eq!("syn".parse::<ScanType>().unwrap(), ScanType::Syn);
    assert_eq!("udp".parse::<ScanType>().unwrap(), ScanType::Udp);
}

#[test]
fn test_scan_type_keywords() {
    assert_eq!("TCP".parse::<ScanType>().unwrap(), ScanType::Connect);
    assert_eq!("Stealth".parse::<ScanType>().unwrap(), ScanType::Syn);
    assert!("bogus".parse::<ScanType>().is_err());
    assert_eq!(ScanType::default(), ScanType::Connect);
    assert_eq!(ScanType::Syn.as_str(), "SYN Stealth");
    assert_eq!(OutputFormat::default(), OutputFormat::Plain);
}

#[test]
fn test_port_result() {
    let port = Port::new(80).unwrap();
    let result = PortResult::new(port, PortStatus::Open, "http")
        .with_banner(Some("Apache/2.4".to_string()))
        .with_response_time(15);

    assert!(result.is_open());
    assert_eq!(result.banner, Some("Apache/2.4".to_string()));
    assert_eq!(result.response_time_ms, Some(15));
}

#[test]
fn test_common_ports() {
    assert_eq!(get_service_name(22), Some("ssh"));
    assert_eq!(get_service_name(80), Some("http"));
    assert_eq!(get_service_name(443), Some("https"));
    assert_eq!(get_service_name(3306), Some("mysql"));
}

#[test]
fn test_unknown_port() {
    assert_eq!(get_service_name(12345), None);
    assert_eq!(get_service_description(12345), "unknown");
}

#[test]
fn test_scan_job_config() {
    let config = ScanJobConfig::new(vec![Port::new(80).unwrap(), Port::new(443).unwrap()])
        .with_concurrency(100)
        .with_verbose()
        .with_rate_limit(1000);

    assert_eq!(config.ports.len(), 2);
    assert_eq!(config.concurrency, 100);
    assert!(config.verbose);
    assert_eq!(config.rate_limit, 1000);
}

#[test]
fn test_scan_job_config_defaults() {
    let config = ScanJobConfig::default();
    assert_eq!(config.concurrency, 500);
    assert!(!config.verbose);
    assert!(!config.show_closed);
    assert_eq!(config.rate_limit, 0);
    let config = config.with_closed();
    assert!(config.show_closed);
}

#[test]
fn test_scan_record_creation() {
    let record = ScanRecord::new("192.168.1.1", "192.168.1.1", ScanType::Connect);
    assert_eq!(record.target, "192.168.1.1");
    assert_eq!(record.open_ports, 0);
}

#[test]
fn test_scan_record_finalize() {
    let record = ScanRecord::new("example.com", "93.184.216.34", ScanType::Connect);
    let results = vec![
        PortResult::new(Port::new(80).unwrap(), PortStatus::Open, "http"),
        PortResult::new(Port::new(443).unwrap(), PortStatus::Open, "https"),
        PortResult::new(Port::new(22).unwrap(), PortStatus::Closed, "ssh"),
    ];

    let finalized = record.finalize(results, 1500);
    assert_eq!(finalized.ports_scanned, 3);
    assert_eq!(finalized.open_ports, 2);
    assert_eq!(finalized.closed_ports, 1);
}

#[test]
fn test_aggregate_sorts_and_filters() {
    let results = vec![
        PortResult::new(Port::new(443).unwrap(), PortStatus::Open, "https"),
        PortResult::new(Port::new(22).unwrap(), PortStatus::Closed, "ssh"),
        PortResult::new(Port::new(80).unwrap(), PortStatus::Filtered, "http"),
    ];
    let open_only = aggregate_results(results.clone(), false);
    let ports: Vec<u16> = open_only.iter().map(|r| r.port.as_u16()).collect();
    assert_eq!(ports, vec![80, 443]);

    let all = aggregate_results(results, true);
    let ports: Vec<u16> = all.iter().map(|r| r.port.as_u16()).collect();
    assert_eq!(ports, vec![22, 80, 443]);
}

#[test]
fn test_flat_record_round_trip() {
    let results = vec![
        PortResult::new(Port::new(22).unwrap(), PortStatus::Open, "ssh")
            .with_banner(Some("SSH-2.0".to_string()))
            .with_response_time(12),
        PortResult::new(Port::new(9999).unwrap(), PortStatus::Closed, "unknown"),
    ];
    let record =
        ScanRecord::new("localhost", "127.0.0.1", ScanType::Connect).finalize(results, 250);
    let flat = record.to_flat();
    assert_eq!(flat.results.len(), 2);
    assert_eq!(flat.results[0].status, "open");

    let parsed = flat
        .parse(record.id, record.started_at_ms, record.completed_at_ms)
        .unwrap();
    assert_eq!(parsed.ports_scanned, record.ports_scanned);
    assert_eq!(parsed.open_ports, record.open_ports);
    assert_eq!(parsed.closed_ports, record.closed_ports);
    assert_eq!(parsed.filtered_ports, record.filtered_ports);
    assert_eq!(parsed.duration_ms, record.duration_ms);
    assert_eq!(parsed.results, record.results);
    assert_eq!(parsed.target, record.target);
}

#[test]
fn test_flat_record_rejects_bad_rows() {
    let record = ScanRecord::new("h", "127.0.0.1", ScanType::Udp).finalize(
        vec![PortResult::new(
            Port::new(53).unwrap(),
            PortStatus::OpenFiltered,
            "dns",
        )],
        10,
    );
    let mut flat: FlatRecord = record.to_flat();
    assert_eq!(flat.results[0].status, "open|filtered");

    flat.results[0].status = "sideways".to_string();
    let id = ScanId::new();
    assert!(matches!(
        flat.parse(id, 0, 0),
        Err(RecordError::InvalidStatus(_))
    ));

    flat.results[0].status = "open".to_string();
    flat.results[0].port = 0;
    assert!(matches!(flat.parse(id, 0, 0), Err(RecordError::InvalidPort(0))));
}

#[test]
fn test_scan_id_generation() {
    let id1 = ScanId::new();
    let id2 = ScanId::new();
    assert_ne!(id1, id2);
}

#[test]
fn test_scan_id_display() {
    let id = ScanId::new();
    let s = id.hyphenated();
    assert_eq!(s.len(), 36);
}

#[test]
fn test_scan_id_short() {
    let id = ScanId::new();
    let short = id.short();
    assert_eq!(short.len(), 8);
}

#[test]
fn test_scan_id_roundtrip() {
    let id = ScanId::new();
    let s = id.hyphenated();
    let parsed: ScanId = s.parse().unwrap();
    assert_eq!(id, parsed);
}

#[test]
fn test_scan_id_parse_errors() {
    assert!(matches!(
        "12345678".parse::<ScanId>(),
        Err(ScanIdError::ShortFormNotSupported)
    ));
    assert!(matches!(
        "not-an-id".parse::<ScanId>(),
        Err(ScanIdError::InvalidFormat(_))
    ));
    assert!(matches!(
        "12345678-9abc-def0-0123-456789abcdeg".parse::<ScanId>(),
        Err(ScanIdError::InvalidFormat(_))
    ));
    let upper: ScanId = "12345678-9ABC-DEF0-0123-456789ABCDEF".parse().unwrap();
    assert_eq!(upper.hyphenated(), "12345678-9abc-def0-0123-456789abcdef");
}

#[test]
fn test_scan_id_bytes() {
    let bytes: [u8; 16] = [
        0x12, 0x34, 0x56, 0x78, 0x9a, 0xbc, 0xde, 0xf0, 0x01, 0x23, 0x45, 0x67, 0x89, 0xab, 0xcd,
        0xef,
    ];
    let id = ScanId::from_bytes(bytes);
    assert_eq!(id.as_bytes(), &bytes);
    assert_eq!(id.hyphenated(), "12345678-9abc-def0-0123-456789abcdef");
    assert_eq!(id.short(), "12345678");
}
