use eyes::error::CollectorError;
use eyes::restart::{RestartPolicy, RetryAction, RunOutcome};
use eyes::supervisor::{CollectorState, Lifecycle, LoopStep, StartStep, StopStep};

#[test]
fn stop_on_stopped_collector_is_a_no_op() {
    let l = Lifecycle::new();
    assert!(!l.is_running());
    assert_eq!(l.begin_stop(), StopStep::AlreadyStopped);
}

#[test]
fn second_start_is_a_no_op() {
    let mut l = Lifecycle::new();
    assert_eq!(l.begin_start(), StartStep::Probe);
    assert!(l.finish_start(Ok(())).is_ok());
    assert!(l.is_running());
    assert_eq!(l.begin_start(), StartStep::AlreadyRunning);
    assert_eq!(l.workers, 1);
}

#[test]
fn failed_probe_leaves_nothing_running() {
    let mut l = Lifecycle::new();
    let r = l.finish_start(Err(CollectorError::SubprocessSpawn("missing".to_string())));
    assert!(matches!(r, Err(CollectorError::SubprocessSpawn(_))));
    assert!(!l.is_running());
    assert_eq!(l.workers, 0);
}

#[test]
fn stop_joins_and_reports_panicked_worker() {
    let mut l = Lifecycle::new();
    l.finish_start(Ok(())).unwrap();
    assert_eq!(l.begin_stop(), StopStep::Join);
    assert!(l.finish_stop(true).is_ok());
    assert_eq!(l.state, CollectorState::Stopped);

    l.finish_start(Ok(())).unwrap();
    let r = l.finish_stop(false);
    assert!(matches!(r, Err(CollectorError::SubprocessTerminated(_))));
    assert!(!l.is_running());
}

#[test]
fn loop_decisions_follow_policy() {
    let mut l = Lifecycle::new();
    l.finish_start(Ok(())).unwrap();
    let mut p = RestartPolicy::new();
    let step = l.after_attempt(&mut p, RunOutcome::Exited, false);
    assert_eq!(step, LoopStep::Continue(RetryAction::Backoff(1)));
    assert_eq!(l.state, CollectorState::Restarting(1));
    for _ in 0..3 {
        l.after_attempt(&mut p, RunOutcome::ReadFailed, false);
    }
    let step = l.after_attempt(&mut p, RunOutcome::SpawnFailed, false);
    assert_eq!(step, LoopStep::Continue(RetryAction::Degraded(60)));
    assert_eq!(l.state, CollectorState::Degraded);
    let step = l.after_attempt(&mut p, RunOutcome::StopRequested, true);
    assert_eq!(step, LoopStep::Exit);
    assert_eq!(p.consecutive_failures, 0);
}
