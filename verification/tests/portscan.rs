use rtoolkit::portscan::{parse_port_range, PortRange, PortScanError, PortScanOpts, ScanTarget};

#[test]
fn test_parse_single_port() {
    let r = parse_port_range("80").unwrap();
    assert_eq!(r, PortRange { start: 80, end: 80 });
}

#[test]
fn test_parse_range() {
    let r = parse_port_range("80-100").unwrap();
    assert_eq!(r, PortRange { start: 80, end: 100 });
}

#[test]
fn test_parse_trims_whitespace() {
    let r = parse_port_range("  80 - 100  ").unwrap();
    assert_eq!(r, PortRange { start: 80, end: 100 });
    let r = parse_port_range("\t443\n").unwrap();
    assert_eq!(r, PortRange { start: 443, end: 443 });
}

#[test]
fn test_parse_zero_endpoint_rejected() {
    match parse_port_range("0-10") {
        Err(PortScanError::InvalidPortRange(s)) => assert_eq!(s, "0-10"),
        other => panic!("expected InvalidPortRange, got {:?}", other),
    }
    match parse_port_range("0") {
        Err(PortScanError::InvalidPortRange(s)) => assert_eq!(s, "0"),
        other => panic!("expected InvalidPortRange, got {:?}", other),
    }
}

#[test]
fn test_parse_inverted_range_rejected() {
    match parse_port_range("100-50") {
        Err(PortScanError::InvalidPortRange(s)) => assert_eq!(s, "100-50"),
        other => panic!("expected InvalidPortRange, got {:?}", other),
    }
}

#[test]
fn test_parse_non_numeric_rejected() {
    match parse_port_range("abc") {
        Err(PortScanError::InvalidPort(s)) => assert_eq!(s, "abc"),
        other => panic!("expected InvalidPort, got {:?}", other),
    }
}

#[test]
fn test_parse_missing_endpoint_rejected() {
    match parse_port_range("80-") {
        Err(PortScanError::InvalidPort(s)) => assert_eq!(s, ""),
        other => panic!("expected InvalidPort, got {:?}", other),
    }
}

#[test]
fn test_parse_oversized_port_rejected() {
    assert!(matches!(
        parse_port_range("70000"),
        Err(PortScanError::InvalidPort(_))
    ));
    assert!(matches!(
        parse_port_range("1-65536"),
        Err(PortScanError::InvalidPort(_))
    ));
}

#[test]
fn test_parse_extreme_range() {
    let r = parse_port_range("1-65535").unwrap();
    assert_eq!(r, PortRange { start: 1, end: 65535 });
}

#[test]
fn test_parse_two_dashes_rejected() {
    match parse_port_range("80-100-200") {
        Err(PortScanError::InvalidPort(s)) => assert_eq!(s, "80-100-200"),
        other => panic!("expected InvalidPort, got {:?}", other),
    }
}

#[test]
fn test_range_size() {
    assert_eq!(PortRange { start: 80, end: 80 }.size(), 1);
    assert_eq!(PortRange { start: 80, end: 100 }.size(), 21);
    assert_eq!(PortRange { start: 1, end: 65535 }.size(), 65535);
}

#[test]
fn test_target_defaults() {
    let opts = PortScanOpts {
        target: None,
        port: None,
        concurrency: None,
        time_out: None,
        output: None,
    };
    let t = ScanTarget::from_opts(opts).unwrap();
    assert_eq!(t.host, "127.0.0.1");
    assert_eq!(t.range, PortRange { start: 80, end: 80 });
    assert_eq!(t.concurrency, 100);
    assert_eq!(t.timeout_ms, 1000);
}

#[test]
fn test_target_explicit_values() {
    let opts = PortScanOpts {
        target: Some(String::from("example.test")),
        port: Some(String::from("20-25")),
        concurrency: Some(7),
        time_out: Some(250),
        output: Some(String::from("json")),
    };
    let t = ScanTarget::from_opts(opts).unwrap();
    assert_eq!(t.host, "example.test");
    assert_eq!(t.range, PortRange { start: 20, end: 25 });
    assert_eq!(t.concurrency, 7);
    assert_eq!(t.timeout_ms, 250);
}

#[test]
fn test_target_bad_port_spec() {
    let opts = PortScanOpts {
        target: None,
        port: Some(String::from("nope")),
        concurrency: None,
        time_out: None,
        output: None,
    };
    match ScanTarget::from_opts(opts) {
        Err(PortScanError::InvalidPort(s)) => assert_eq!(s, "nope"),
        other => panic!("expected InvalidPort, got {:?}", other),
    }
}
