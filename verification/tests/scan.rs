use rtoolkit::portscan::{PortRange, PortScanError};
use rtoolkit::scan::{scan_outcomes, Outcome, PermitPool, ProbeResult, ScanState};

#[test]
fn test_permit_pool_bound() {
    let mut pool = PermitPool::new(2);
    assert_eq!(pool.available(), 2);
    assert!(pool.try_acquire());
    assert!(pool.try_acquire());
    assert!(!pool.try_acquire());
    assert_eq!(pool.available(), 0);
    assert!(pool.in_flight <= pool.capacity);
    pool.release();
    assert!(pool.try_acquire());
    assert!(!pool.try_acquire());
    assert!(pool.in_flight <= pool.capacity);
}

#[test]
fn test_permit_pool_single() {
    let mut pool = PermitPool::new(1);
    for _ in 0..5 {
        assert!(pool.try_acquire());
        assert!(!pool.try_acquire());
        assert!(pool.in_flight <= pool.capacity);
        pool.release();
    }
    assert_eq!(pool.available(), 1);
}

#[test]
fn test_state_counts_results() {
    let range = PortRange { start: 10, end: 12 };
    let mut st = ScanState::new(range);
    assert!(st.summary().is_none());
    assert!(st
        .record(&ProbeResult { port: 11, outcome: Outcome::Closed })
        .is_none());
    assert!(st
        .record(&ProbeResult { port: 10, outcome: Outcome::Open })
        .is_none());
    assert!(st.summary().is_none());
    assert!(st
        .record(&ProbeResult { port: 12, outcome: Outcome::Closed })
        .is_none());
    let s = st.summary().unwrap();
    assert_eq!(s.total, 3);
    assert_eq!(s.open_ports, vec![10u16]);
    assert_eq!(s.closed_count, 2);
    assert_eq!(s.open_ports.len() + s.closed_count, s.total);
}

#[test]
fn test_state_abort_yields_no_summary() {
    let range = PortRange { start: 10, end: 11 };
    let mut st = ScanState::new(range);
    assert!(st
        .record(&ProbeResult { port: 10, outcome: Outcome::Open })
        .is_none());
    let e = st.record(&ProbeResult {
        port: 11,
        outcome: Outcome::Error(String::from("spawn failed")),
    });
    match e {
        Some(PortScanError::JoinError(m)) => assert_eq!(m, "spawn failed"),
        other => panic!("expected JoinError, got {:?}", other),
    }
    assert!(st.summary().is_none());
}

#[test]
fn test_scan_open_listener() {
    let range = PortRange { start: 8080, end: 8080 };
    let results = vec![ProbeResult { port: 8080, outcome: Outcome::Open }];
    let s = scan_outcomes(range, &results).unwrap();
    assert_eq!(s.total, 1);
    assert_eq!(s.open_ports, vec![8080u16]);
    assert_eq!(s.closed_count, 0);
}

#[test]
fn test_scan_ten_closed_ports() {
    let range = PortRange { start: 40000, end: 40009 };
    let mut results = Vec::new();
    for p in 40000u16..40010u16 {
        results.push(ProbeResult { port: p, outcome: Outcome::Closed });
    }
    let s = scan_outcomes(range, &results).unwrap();
    assert_eq!(s.total, 10);
    assert_eq!(s.open_ports.len(), 0);
    assert_eq!(s.closed_count, 10);
}

#[test]
fn test_scan_arrival_order_kept() {
    let range = PortRange { start: 20, end: 23 };
    let results = vec![
        ProbeResult { port: 22, outcome: Outcome::Open },
        ProbeResult { port: 20, outcome: Outcome::Closed },
        ProbeResult { port: 23, outcome: Outcome::Open },
        ProbeResult { port: 21, outcome: Outcome::Open },
    ];
    let s = scan_outcomes(range, &results).unwrap();
    assert_eq!(s.open_ports, vec![22u16, 23, 21]);
    assert_eq!(s.closed_count, 1);
    assert_eq!(s.total, 4);
}

#[test]
fn test_scan_fail_fast() {
    let range = PortRange { start: 1, end: 5 };
    let results = vec![
        ProbeResult { port: 1, outcome: Outcome::Open },
        ProbeResult { port: 2, outcome: Outcome::Open },
        ProbeResult { port: 3, outcome: Outcome::Error(String::from("boom")) },
        ProbeResult { port: 4, outcome: Outcome::Open },
        ProbeResult { port: 5, outcome: Outcome::Closed },
    ];
    match scan_outcomes(range, &results) {
        Err(PortScanError::JoinError(m)) => assert_eq!(m, "boom"),
        other => panic!("expected JoinError, got {:?}", other),
    }
}
