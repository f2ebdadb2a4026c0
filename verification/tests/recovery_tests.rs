use network_monitor::config::{Config, NetworkTarget, RecoveryAction};
use network_monitor::recovery::{RecoveryOutcome, RecoveryRun, RecoveryStep};

fn action(name: &str, command: &str, wait_after_ms: Option<u64>) -> RecoveryAction {
    RecoveryAction { name: String::from(name), command: String::from(command), wait_after_ms }
}

fn config_with_plan(plan: Vec<RecoveryAction>, notify: Option<&str>) -> Config {
    Config {
        default_target: String::from("192.0.2.1"),
        check_interval_sec: 60,
        ping_timeout_ms: 900,
        retry_count: 3,
        targets: vec![NetworkTarget {
            name: String::from("A"),
            address: String::from("192.0.2.1"),
            port: None,
            timeout_ms: None,
            retry_count: None,
        }],
        recovery_actions: plan,
        log_file: None,
        notification_enabled: notify.is_some(),
        notification_command: notify.map(String::from),
    }
}

#[test]
fn failing_action_halts_the_plan() {
    let cfg = config_with_plan(
        vec![action("A", "cmd-a", None), action("B", "cmd-b", None), action("C", "cmd-c", None)],
        None,
    );
    let mut run = RecoveryRun::start(&cfg);
    match run.next_step() {
        RecoveryStep::Execute { name, command } => {
            assert_eq!(name, "A");
            assert_eq!(command, "cmd-a");
        },
        other => panic!("expected execute, got {:?}", other),
    }
    run.on_command_result(false, String::from("exit 1"));
    assert!(run.finished());
    match run.next_step() {
        RecoveryStep::Done { outcome } => {
            assert_eq!(
                outcome,
                RecoveryOutcome::Failed {
                    action: String::from("A"),
                    reason: String::from("exit 1"),
                },
            );
        },
        other => panic!("expected done, got {:?}", other),
    }
    assert_eq!(run.executed, vec![String::from("A")]);
}

#[test]
fn recovery_halts_at_first_verified_action() {
    let cfg = config_with_plan(
        vec![
            action("A", "cmd-a", Some(100)),
            action("B", "cmd-b", None),
            action("C", "cmd-c", None),
        ],
        None,
    );
    let mut run = RecoveryRun::start(&cfg);
    // A's command succeeds, but verification still fails.
    run.on_command_result(true, String::new());
    match run.next_step() {
        RecoveryStep::Wait { duration_ms } => assert_eq!(duration_ms, 100),
        other => panic!("expected wait, got {:?}", other),
    }
    run.on_wait_done();
    match run.next_step() {
        RecoveryStep::Verify { address, timeout_ms } => {
            assert_eq!(address, "192.0.2.1");
            assert_eq!(timeout_ms, 900);
        },
        other => panic!("expected verify, got {:?}", other),
    }
    run.on_verify_result(false);
    // B's command succeeds and verification succeeds: C is never attempted.
    match run.next_step() {
        RecoveryStep::Execute { name, .. } => assert_eq!(name, "B"),
        other => panic!("expected execute B, got {:?}", other),
    }
    run.on_command_result(true, String::new());
    match run.next_step() {
        RecoveryStep::Verify { .. } => {},
        other => panic!("expected verify, got {:?}", other),
    }
    run.on_verify_result(true);
    assert!(run.finished());
    match run.next_step() {
        RecoveryStep::Done { outcome } => assert_eq!(outcome, RecoveryOutcome::Recovered),
        other => panic!("expected done, got {:?}", other),
    }
    assert_eq!(run.executed, vec![String::from("A"), String::from("B")]);
}

#[test]
fn exhausted_plan_is_not_an_error() {
    let cfg = config_with_plan(vec![action("R1", "cmd-r1", Some(0))], None);
    let mut run = RecoveryRun::start(&cfg);
    run.on_command_result(true, String::new());
    match run.next_step() {
        RecoveryStep::Wait { duration_ms } => assert_eq!(duration_ms, 0),
        other => panic!("expected wait, got {:?}", other),
    }
    run.on_wait_done();
    run.on_verify_result(false);
    assert!(run.finished());
    match run.next_step() {
        RecoveryStep::Done { outcome } => assert_eq!(outcome, RecoveryOutcome::Exhausted),
        other => panic!("expected done, got {:?}", other),
    }
    assert_eq!(run.executed, vec![String::from("R1")]);
}

#[test]
fn empty_plan_finishes_at_once() {
    let cfg = config_with_plan(Vec::new(), None);
    let run = RecoveryRun::start(&cfg);
    assert!(run.finished());
    match run.next_step() {
        RecoveryStep::Done { outcome } => assert_eq!(outcome, RecoveryOutcome::Exhausted),
        other => panic!("expected done, got {:?}", other),
    }
    assert!(run.executed.is_empty());
}

#[test]
fn notification_runs_after_recovery_and_is_best_effort() {
    let cfg = config_with_plan(vec![action("A", "cmd-a", None)], Some("notify-cmd"));
    let mut run = RecoveryRun::start(&cfg);
    run.on_command_result(true, String::new());
    run.on_verify_result(true);
    match run.next_step() {
        RecoveryStep::Notify { command } => assert_eq!(command, "notify-cmd"),
        other => panic!("expected notify, got {:?}", other),
    }
    // Even a failed notification leaves the run recovered.
    run.on_notify_result(false);
    assert!(run.finished());
    match run.next_step() {
        RecoveryStep::Done { outcome } => assert_eq!(outcome, RecoveryOutcome::Recovered),
        other => panic!("expected done, got {:?}", other),
    }
}

#[test]
fn disabled_notification_is_skipped() {
    let mut cfg = config_with_plan(vec![action("A", "cmd-a", None)], Some("notify-cmd"));
    cfg.notification_enabled = false;
    let mut run = RecoveryRun::start(&cfg);
    run.on_command_result(true, String::new());
    run.on_verify_result(true);
    assert!(run.finished());
    match run.next_step() {
        RecoveryStep::Done { outcome } => assert_eq!(outcome, RecoveryOutcome::Recovered),
        other => panic!("expected done, got {:?}", other),
    }
}
