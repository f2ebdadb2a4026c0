use network_monitor::config::{Config, NetworkTarget, RecoveryAction};
use network_monitor::monitor::{
    MonitorError, MonitorMachine, MonitorPhase, MonitorRequest, MonitoringGuard,
};
use network_monitor::recovery::RecoveryOutcome;

fn target(name: &str, address: &str, port: Option<u16>, retry: Option<u8>) -> NetworkTarget {
    NetworkTarget {
        name: String::from(name),
        address: String::from(address),
        port,
        timeout_ms: None,
        retry_count: retry,
    }
}

fn base_config(targets: Vec<NetworkTarget>, plan: Vec<RecoveryAction>) -> Config {
    Config {
        default_target: String::from("198.51.100.1"),
        check_interval_sec: 60,
        ping_timeout_ms: 1000,
        retry_count: 3,
        targets,
        recovery_actions: plan,
        log_file: None,
        notification_enabled: false,
        notification_command: None,
    }
}

#[test]
fn second_start_is_rejected_without_stopping_the_first() {
    let mut guard = MonitoringGuard::new();
    let cfg = base_config(vec![target("A", "1.1.1.1", None, Some(1))], Vec::new());
    let first = MonitorMachine::start(&mut guard, cfg.clone());
    assert!(first.is_ok());
    let second = MonitorMachine::start(&mut guard, cfg.clone());
    assert_eq!(second.err(), Some(MonitorError::AlreadyRunning));
    // The first loop is unaffected and still drives requests.
    let mut m = first.unwrap();
    assert!(m.next_request().is_some());
    m.on_probe_result(Ok(5), 1);
    // After the first loop ends and releases the guard, a new start works.
    m.shutdown(&mut guard);
    let third = MonitorMachine::start(&mut guard, cfg);
    assert!(third.is_ok());
}

#[test]
fn reachable_target_cycle_records_online_and_skips_recovery() {
    let mut guard = MonitoringGuard::new();
    let cfg = base_config(
        vec![target("A", "192.0.2.7", None, Some(3))],
        vec![RecoveryAction {
            name: String::from("R1"),
            command: String::from("cmd"),
            wait_after_ms: None,
        }],
    );
    let mut m = MonitorMachine::start(&mut guard, cfg).unwrap();
    match m.next_request() {
        Some(MonitorRequest::Probe { address, timeout_ms }) => {
            assert_eq!(address, "192.0.2.7");
            assert_eq!(timeout_ms, 1000);
        },
        other => panic!("expected probe, got {:?}", other),
    }
    m.on_probe_result(Ok(12), 42);
    // One reachable target: the cycle ends sleeping, recovery is not invoked.
    assert_eq!(m.phase, MonitorPhase::Sleeping);
    assert!(m.recovery.is_none());
    assert!(m.statuses[0].is_ok());
    assert_eq!(m.statuses[0].ping_result, Some(Ok(12)));
    assert_eq!(m.statuses[0].last_check, Some(42));
    match m.next_request() {
        Some(MonitorRequest::Wait { duration_ms }) => assert_eq!(duration_ms, 60_000),
        other => panic!("expected cadence wait, got {:?}", other),
    }
}

#[test]
fn retries_back_off_and_stop_at_first_success() {
    let mut guard = MonitoringGuard::new();
    let cfg = base_config(vec![target("A", "192.0.2.7", None, Some(3))], Vec::new());
    let mut m = MonitorMachine::start(&mut guard, cfg).unwrap();
    m.on_probe_result(Err(String::from("timeout")), 1);
    assert_eq!(m.phase, MonitorPhase::BackingOff);
    match m.next_request() {
        Some(MonitorRequest::Wait { duration_ms }) => assert_eq!(duration_ms, 500),
        other => panic!("expected backoff wait, got {:?}", other),
    }
    m.on_backoff_done();
    assert_eq!(m.phase, MonitorPhase::Probing);
    m.on_probe_result(Ok(8), 2);
    // Success on the second attempt: the target is done, two attempts logged.
    assert_eq!(m.session.attempts, 2);
    assert!(m.session.succeeded);
    assert_eq!(m.session.log.len(), 2);
    assert_eq!(m.phase, MonitorPhase::Sleeping);
    assert!(m.statuses[0].is_ok());
}

#[test]
fn all_targets_down_triggers_recovery_and_loop_resumes() {
    let mut guard = MonitoringGuard::new();
    let cfg = base_config(
        vec![
            target("A", "192.0.2.1", None, Some(1)),
            target("B", "192.0.2.2", None, Some(1)),
        ],
        vec![RecoveryAction {
            name: String::from("R1"),
            command: String::from("restart"),
            wait_after_ms: Some(0),
        }],
    );
    let mut m = MonitorMachine::start(&mut guard, cfg).unwrap();
    m.on_probe_result(Err(String::from("down")), 1);
    assert_eq!(m.phase, MonitorPhase::Probing);
    m.on_probe_result(Err(String::from("down")), 2);
    // Every budget exhausted without success: recovery starts.
    assert_eq!(m.phase, MonitorPhase::Recovering);
    match m.next_request() {
        Some(MonitorRequest::RunCommand { command }) => assert_eq!(command, "restart"),
        other => panic!("expected command, got {:?}", other),
    }
    m.on_recovery_command(true, String::new());
    match m.next_request() {
        Some(MonitorRequest::Wait { duration_ms }) => assert_eq!(duration_ms, 0),
        other => panic!("expected post-action wait, got {:?}", other),
    }
    m.on_recovery_wait_done();
    match m.next_request() {
        Some(MonitorRequest::Probe { address, timeout_ms }) => {
            assert_eq!(address, "198.51.100.1");
            assert_eq!(timeout_ms, 1000);
        },
        other => panic!("expected verification probe, got {:?}", other),
    }
    // The default target is still unreachable: the plan is exhausted, and
    // the loop resumes polling rather than failing.
    m.on_recovery_verify(false);
    assert_eq!(m.phase, MonitorPhase::Sleeping);
    assert_eq!(m.last_recovery, Some(RecoveryOutcome::Exhausted));
    m.on_sleep_done(false);
    assert_eq!(m.phase, MonitorPhase::Probing);
    assert_eq!(m.target_idx, 0);
}

#[test]
fn one_reachable_target_suppresses_recovery() {
    let mut guard = MonitoringGuard::new();
    let cfg = base_config(
        vec![
            target("A", "192.0.2.1", None, Some(1)),
            target("B", "192.0.2.2", None, Some(1)),
        ],
        vec![RecoveryAction {
            name: String::from("R1"),
            command: String::from("restart"),
            wait_after_ms: None,
        }],
    );
    let mut m = MonitorMachine::start(&mut guard, cfg).unwrap();
    m.on_probe_result(Err(String::from("down")), 1);
    m.on_probe_result(Ok(3), 2);
    assert_eq!(m.phase, MonitorPhase::Sleeping);
    assert!(m.recovery.is_none());
    assert!(m.last_recovery.is_none());
}

#[test]
fn port_failure_shows_offline_but_does_not_trigger_recovery() {
    let mut guard = MonitoringGuard::new();
    let cfg = base_config(
        vec![target("A", "192.0.2.1", Some(443), Some(1))],
        vec![RecoveryAction {
            name: String::from("R1"),
            command: String::from("restart"),
            wait_after_ms: None,
        }],
    );
    let mut m = MonitorMachine::start(&mut guard, cfg).unwrap();
    m.on_probe_result(Ok(4), 1);
    assert_eq!(m.phase, MonitorPhase::PortChecking);
    match m.next_request() {
        Some(MonitorRequest::CheckPort { address, port, timeout_ms }) => {
            assert_eq!(address, "192.0.2.1");
            assert_eq!(port, 443);
            assert_eq!(timeout_ms, 1000);
        },
        other => panic!("expected port check, got {:?}", other),
    }
    m.on_port_result(Err(String::from("refused")), 2);
    // The port failure shows in the status but only probe outcomes count
    // toward the aggregate trigger.
    assert!(!m.statuses[0].is_ok());
    assert_eq!(m.phase, MonitorPhase::Sleeping);
    assert!(m.recovery.is_none());
}

#[test]
fn cancellation_stops_the_loop_and_frees_the_guard() {
    let mut guard = MonitoringGuard::new();
    let cfg = base_config(vec![target("A", "192.0.2.1", None, Some(1))], Vec::new());
    let mut m = MonitorMachine::start(&mut guard, cfg.clone()).unwrap();
    m.on_probe_result(Ok(1), 1);
    assert_eq!(m.phase, MonitorPhase::Sleeping);
    m.on_sleep_done(true);
    assert_eq!(m.phase, MonitorPhase::Stopped);
    assert!(m.next_request().is_none());
    m.shutdown(&mut guard);
    assert!(MonitorMachine::start(&mut guard, cfg).is_ok());
}

#[test]
fn zero_budget_target_counts_as_failed_without_probing() {
    let mut guard = MonitoringGuard::new();
    let cfg = base_config(
        vec![target("A", "192.0.2.1", None, Some(0))],
        vec![RecoveryAction {
            name: String::from("R1"),
            command: String::from("restart"),
            wait_after_ms: None,
        }],
    );
    let m = MonitorMachine::start(&mut guard, cfg).unwrap();
    // The only target has no attempt budget: the cycle is already over and
    // its vacuous failure triggers recovery at once.
    assert_eq!(m.phase, MonitorPhase::Recovering);
    assert_eq!(m.cycle_results, vec![false]);
    assert_eq!(m.statuses[0].ping_result, None);
}

#[test]
fn cadence_wait_saturates_on_huge_intervals() {
    let mut guard = MonitoringGuard::new();
    let mut cfg = base_config(vec![target("A", "192.0.2.1", None, Some(1))], Vec::new());
    cfg.check_interval_sec = u64::MAX;
    let mut m = MonitorMachine::start(&mut guard, cfg).unwrap();
    m.on_probe_result(Ok(1), 1);
    match m.next_request() {
        Some(MonitorRequest::Wait { duration_ms }) => assert_eq!(duration_ms, u64::MAX),
        other => panic!("expected saturated wait, got {:?}", other),
    }
}
