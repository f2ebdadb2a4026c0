use network_monitor::config::{Config, NetworkTarget};
use network_monitor::monitor::MonitorRequest;
use network_monitor::status::{reconcile_statuses, TargetStatus};
use network_monitor::sweep::StatusSweep;

fn target(name: &str, address: &str, port: Option<u16>) -> NetworkTarget {
    NetworkTarget {
        name: String::from(name),
        address: String::from(address),
        port,
        timeout_ms: None,
        retry_count: None,
    }
}

#[test]
fn new_status_is_unknown() {
    let s = TargetStatus::new(&target("A", "10.0.0.1", Some(80)));
    assert_eq!(s.name, "A");
    assert_eq!(s.address, "10.0.0.1");
    assert_eq!(s.port, Some(80));
    assert_eq!(s.last_check, None);
    assert_eq!(s.ping_result, None);
    assert_eq!(s.port_result, None);
    assert!(!s.is_ok());
}

#[test]
fn online_requires_ping_and_declared_port() {
    let mut s = TargetStatus::new(&target("A", "10.0.0.1", None));
    s.record_ping(Ok(5), 1);
    assert!(s.is_ok());
    s.record_ping(Err(String::from("down")), 2);
    assert!(!s.is_ok());

    let mut p = TargetStatus::new(&target("B", "10.0.0.2", Some(443)));
    p.record_ping(Ok(5), 1);
    assert!(!p.is_ok());
    p.record_port(Ok(()), 2);
    assert!(p.is_ok());
    p.record_port(Err(String::from("refused")), 3);
    assert!(!p.is_ok());
}

#[test]
fn reconcile_keeps_renames_and_orders_statuses() {
    let mut statuses = vec![
        TargetStatus::new(&target("A", "10.0.0.1", None)),
        TargetStatus::new(&target("B", "10.0.0.2", None)),
    ];
    statuses[0].record_ping(Ok(9), 7);
    // B is removed, C is added, and the order now follows the target list.
    let targets = vec![target("C", "10.0.0.3", None), target("A", "10.0.0.1", None)];
    reconcile_statuses(&mut statuses, &targets);
    assert_eq!(statuses.len(), 2);
    assert_eq!(statuses[0].name, "C");
    assert_eq!(statuses[0].ping_result, None);
    assert_eq!(statuses[1].name, "A");
    assert_eq!(statuses[1].ping_result, Some(Ok(9)));
    assert_eq!(statuses[1].last_check, Some(7));
}

#[test]
fn sweep_probes_each_target_once_and_checks_declared_ports() {
    let cfg = Config {
        default_target: String::from("10.0.0.1"),
        check_interval_sec: 60,
        ping_timeout_ms: 800,
        retry_count: 3,
        targets: vec![target("A", "10.0.0.1", None), target("B", "10.0.0.2", Some(22))],
        recovery_actions: Vec::new(),
        log_file: None,
        notification_enabled: false,
        notification_command: None,
    };
    let mut sweep = StatusSweep::new(cfg);
    match sweep.next_request() {
        Some(MonitorRequest::Probe { address, timeout_ms }) => {
            assert_eq!(address, "10.0.0.1");
            assert_eq!(timeout_ms, 800);
        },
        other => panic!("expected probe of A, got {:?}", other),
    }
    sweep.on_probe_result(Ok(3), 1);
    match sweep.next_request() {
        Some(MonitorRequest::Probe { address, .. }) => assert_eq!(address, "10.0.0.2"),
        other => panic!("expected probe of B, got {:?}", other),
    }
    sweep.on_probe_result(Err(String::from("down")), 2);
    match sweep.next_request() {
        Some(MonitorRequest::CheckPort { address, port, .. }) => {
            assert_eq!(address, "10.0.0.2");
            assert_eq!(port, 22);
        },
        other => panic!("expected port check of B, got {:?}", other),
    }
    sweep.on_port_result(Err(String::from("refused")), 3);
    assert!(sweep.finished());
    assert!(sweep.next_request().is_none());
    let statuses = sweep.into_statuses();
    assert_eq!(statuses.len(), 2);
    assert!(statuses[0].is_ok());
    assert!(!statuses[1].is_ok());
    assert_eq!(statuses[1].port_result, Some(Err(String::from("refused"))));
}

#[test]
fn sweep_with_no_targets_is_done_at_once() {
    let cfg = Config {
        default_target: String::from("10.0.0.1"),
        check_interval_sec: 60,
        ping_timeout_ms: 800,
        retry_count: 3,
        targets: Vec::new(),
        recovery_actions: Vec::new(),
        log_file: None,
        notification_enabled: false,
        notification_command: None,
    };
    let sweep = StatusSweep::new(cfg);
    assert!(sweep.finished());
    assert!(sweep.next_request().is_none());
}
