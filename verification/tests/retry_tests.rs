use network_monitor::retry::{RetrySession, RETRY_BACKOFF_MS};

#[test]
fn backoff_constant_is_half_a_second() {
    assert_eq!(RETRY_BACKOFF_MS, 500);
}

#[test]
fn all_attempts_fail_makes_exactly_budget_attempts() {
    let mut s = RetrySession::new(3);
    let mut made = 0;
    while !s.done() {
        let attempt = s.next_attempt();
        made += 1;
        assert_eq!(attempt as u32, made);
        s.record_attempt(Err(String::from("unreachable")));
    }
    assert_eq!(made, 3);
    assert_eq!(s.attempts, 3);
    assert!(!s.succeeded);
    assert_eq!(s.log.len(), 3);
    for (i, rec) in s.log.iter().enumerate() {
        assert_eq!(rec.attempt as usize, i + 1);
        assert!(rec.outcome.is_err());
    }
}

#[test]
fn success_on_second_attempt_stops_early() {
    let mut s = RetrySession::new(5);
    s.record_attempt(Err(String::from("timeout")));
    assert!(!s.done());
    s.record_attempt(Ok(12));
    assert!(s.done());
    assert!(s.succeeded);
    assert_eq!(s.attempts, 2);
    assert_eq!(s.log.len(), 2);
    assert!(s.log[0].outcome.is_err());
    assert_eq!(s.log[1].outcome, Ok(12));
    assert_eq!(s.log[1].attempt, 2);
}

#[test]
fn success_on_first_attempt_logs_one_record() {
    let mut s = RetrySession::new(3);
    s.record_attempt(Ok(7));
    assert!(s.done());
    assert!(s.succeeded);
    assert_eq!(s.log.len(), 1);
    assert_eq!(s.log[0].attempt, 1);
}

#[test]
fn zero_budget_session_is_done_immediately() {
    let s = RetrySession::new(0);
    assert!(s.done());
    assert!(!s.succeeded);
    assert_eq!(s.log.len(), 0);
}

#[test]
fn failure_on_final_attempt_ends_failed() {
    let mut s = RetrySession::new(1);
    assert!(!s.done());
    s.record_attempt(Err(String::from("no route")));
    assert!(s.done());
    assert!(!s.succeeded);
    assert_eq!(s.log.len(), 1);
}
