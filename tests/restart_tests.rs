use eyes::restart::{
    is_failure, RestartPolicy, RetryAction, RunOutcome, MAX_CONSECUTIVE_FAILURES,
};

#[test]
fn backoff_doubles_from_one_second() {
    let mut p = RestartPolicy::new();
    assert_eq!(p.record_failure(), RetryAction::Backoff(1));
    assert_eq!(p.record_failure(), RetryAction::Backoff(2));
    assert_eq!(p.record_failure(), RetryAction::Backoff(4));
    assert_eq!(p.record_failure(), RetryAction::Backoff(8));
    assert_eq!(p.delay_secs, 16);
}

#[test]
fn backoff_delay_is_capped() {
    let mut p = RestartPolicy { delay_secs: 32, consecutive_failures: 0 };
    assert_eq!(p.record_failure(), RetryAction::Backoff(32));
    assert_eq!(p.delay_secs, 60);
    assert_eq!(p.record_failure(), RetryAction::Backoff(60));
    assert_eq!(p.delay_secs, 60);
}

#[test]
fn healthy_run_resets_delay() {
    let mut p = RestartPolicy::new();
    p.record_failure();
    p.record_failure();
    assert_eq!(p.record_outcome(RunOutcome::StopRequested), RetryAction::RetryNow);
    assert_eq!(p.delay_secs, 1);
    assert_eq!(p.consecutive_failures, 0);
    assert_eq!(p.record_failure(), RetryAction::Backoff(1));
}

#[test]
fn degraded_mode_after_max_failures() {
    let mut p = RestartPolicy::new();
    let mut degraded = 0;
    for _ in 0..MAX_CONSECUTIVE_FAILURES {
        if let RetryAction::Degraded(secs) = p.record_outcome(RunOutcome::Exited) {
            assert_eq!(secs, 60);
            degraded += 1;
        }
    }
    assert_eq!(degraded, 1);
    assert_eq!(p, RestartPolicy::new());
    assert_eq!(p.record_outcome(RunOutcome::SpawnFailed), RetryAction::Backoff(1));
}

#[test]
fn stop_and_closed_channel_are_not_failures() {
    assert!(is_failure(RunOutcome::SpawnFailed));
    assert!(is_failure(RunOutcome::Exited));
    assert!(is_failure(RunOutcome::ReadFailed));
    assert!(!is_failure(RunOutcome::StopRequested));
    assert!(!is_failure(RunOutcome::ChannelClosed));
    let mut p = RestartPolicy::new();
    p.record_failure();
    assert_eq!(p.record_outcome(RunOutcome::ChannelClosed), RetryAction::RetryNow);
    assert_eq!(p.consecutive_failures, 0);
}
