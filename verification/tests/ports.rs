//! Tests for port types, specifications and the two parsers.

use scuttle::parse::parse_ports;
use scuttle::port::{Port, PortError, PortRange, PortSpec};

#[test]
fn test_port_validation() {
    assert!(Port::new(0).is_none());
    assert!(Port::new(1).is_some());
    assert!(Port::new(80).is_some());
    assert!(Port::new(65535).is_some());
}

#[test]
fn test_port_properties() {
    let port80 = Port::new(80).unwrap();
    assert!(port80.is_privileged());
    assert!(!port80.is_ephemeral());

    let port50000 = Port::new(50000).unwrap();
    assert!(!port50000.is_privileged());
    assert!(port50000.is_ephemeral());
}

#[test]
fn test_port_range() {
    let start = Port::new(1).unwrap();
    let end = Port::new(100).unwrap();
    let range = PortRange::new(start, end).unwrap();
    assert_eq!(range.len(), 100);
}

#[test]
fn test_port_range_rejects_backwards() {
    let start = Port::new(100).unwrap();
    let end = Port::new(1).unwrap();
    assert!(matches!(
        PortRange::new(start, end),
        Err(PortError::InvalidRange(100, 1))
    ));
}

#[test]
fn test_port_range_iter() {
    let range = PortRange::new(Port::new(10).unwrap(), Port::new(13).unwrap()).unwrap();
    let ports: Vec<u16> = range.iter().iter().map(|p| p.as_u16()).collect();
    assert_eq!(ports, vec![10, 11, 12, 13]);
    assert!(!range.is_empty());
}

#[test]
fn test_port_spec_parsing() {
    let spec: PortSpec = "80".parse().unwrap();
    assert_eq!(spec.count(), 1);

    let spec: PortSpec = "80,443".parse().unwrap();
    assert_eq!(spec.count(), 2);

    let spec: PortSpec = "1-100".parse().unwrap();
    assert_eq!(spec.count(), 100);

    let spec: PortSpec = "22,80,443,8000-8010".parse().unwrap();
    assert_eq!(spec.count(), 14);
}

#[test]
fn test_port_spec_dedup() {
    let spec: PortSpec = "80,80,443,80".parse().unwrap();
    assert_eq!(spec.count(), 2);
}

#[test]
fn test_port_spec_to_ports_sorted() {
    let spec: PortSpec = "443,22,80,20-23".parse().unwrap();
    let ports: Vec<u16> = spec.to_ports().iter().map(|p| p.as_u16()).collect();
    assert_eq!(ports, vec![20, 21, 22, 23, 80, 443]);
}

#[test]
fn test_port_spec_errors() {
    assert!(matches!("".parse::<PortSpec>(), Err(PortError::Empty)));
    assert!(matches!("   ".parse::<PortSpec>(), Err(PortError::Empty)));
    assert!(matches!(
        "0".parse::<PortSpec>(),
        Err(PortError::OutOfRange(0))
    ));
    assert!(matches!(
        "5-3".parse::<PortSpec>(),
        Err(PortError::InvalidRange(5, 3))
    ));
    assert!(matches!(
        "abc".parse::<PortSpec>(),
        Err(PortError::InvalidFormat(_))
    ));
    assert!(matches!(
        "1-2-3".parse::<PortSpec>(),
        Err(PortError::InvalidFormat(_))
    ));
    assert!(matches!(
        "70000".parse::<PortSpec>(),
        Err(PortError::InvalidFormat(_))
    ));
}

#[test]
fn test_port_spec_builders() {
    let mut spec = PortSpec::new();
    assert!(spec.is_empty());
    spec.add_port(Port::new(80).unwrap());
    spec.add_range(PortRange::new(Port::new(10).unwrap(), Port::new(12).unwrap()).unwrap());
    assert!(!spec.is_empty());
    let ports: Vec<u16> = spec.to_ports().iter().map(|p| p.as_u16()).collect();
    assert_eq!(ports, vec![10, 11, 12, 80]);
}

#[test]
fn test_top_100_profile() {
    let spec = PortSpec::top_100();
    assert_eq!(spec.count(), 100);
    let ports = spec.to_ports();
    assert_eq!(ports[0].as_u16(), 7);
    assert_eq!(ports[99].as_u16(), 49157);
}

#[test]
fn test_full_profile() {
    let spec = PortSpec::full();
    assert_eq!(spec.count(), 65535);
}

#[test]
fn test_parse_single_port() {
    assert_eq!(parse_ports("80").unwrap(), vec![80]);
}

#[test]
fn test_parse_comma_separated() {
    assert_eq!(parse_ports("80,443,8080").unwrap(), vec![80, 443, 8080]);
}

#[test]
fn test_parse_range() {
    assert_eq!(parse_ports("1-5").unwrap(), vec![1, 2, 3, 4, 5]);
}

#[test]
fn test_parse_mixed() {
    assert_eq!(
        parse_ports("22,80,100-102").unwrap(),
        vec![22, 80, 100, 101, 102]
    );
}

#[test]
fn test_parse_deduplication() {
    assert_eq!(parse_ports("80,80,443").unwrap(), vec![80, 443]);
}

#[test]
fn test_parse_invalid_range() {
    assert!(parse_ports("100-50").is_err());
}

#[test]
fn test_parse_invalid_port() {
    assert!(parse_ports("abc").is_err());
}

#[test]
fn test_parse_whitespace_tolerated() {
    assert_eq!(parse_ports(" 80 , 443 ").unwrap(), vec![80, 443]);
    assert_eq!(parse_ports("1 - 3").unwrap(), vec![1, 2, 3]);
}

#[test]
fn test_parse_rejects_zero() {
    assert!(parse_ports("0").is_err());
    assert!(parse_ports("0-5").is_err());
    assert!(parse_ports("22,0").is_err());
}
