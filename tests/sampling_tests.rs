use eyes::sampling::{SamplingController, MAX_SAMPLE_INTERVAL_MS};

#[test]
fn pressure_grows_interval_by_half() {
    let mut c = SamplingController::new(5000);
    c.adapt(true);
    assert_eq!(c.current_interval_ms(), 7500);
    c.adapt(true);
    assert_eq!(c.current_interval_ms(), 11250);
}

#[test]
fn sustained_pressure_reaches_cap_and_stays() {
    let mut c = SamplingController::new(5000);
    let mut steps = 0;
    while c.current_interval_ms() < MAX_SAMPLE_INTERVAL_MS {
        let before = c.current_interval_ms();
        c.adapt(true);
        assert!(c.current_interval_ms() > before);
        assert!(c.current_interval_ms() <= MAX_SAMPLE_INTERVAL_MS);
        steps += 1;
    }
    assert_eq!(steps, 7);
    c.adapt(true);
    assert_eq!(c.current_interval_ms(), 60_000);
}

#[test]
fn calm_returns_to_base_gradually() {
    let mut c = SamplingController::new(5000);
    for _ in 0..10 {
        c.adapt(true);
    }
    assert_eq!(c.current_interval_ms(), 60_000);
    c.adapt(false);
    assert_eq!(c.current_interval_ms(), 54_000);
    for _ in 0..100 {
        c.adapt(false);
        assert!(c.current_interval_ms() >= 5000);
    }
    assert_eq!(c.current_interval_ms(), 5000);
}

#[test]
fn small_intervals_still_move() {
    let mut c = SamplingController::new(1);
    c.adapt(true);
    assert_eq!(c.current_interval_ms(), 2);
    c.adapt(false);
    assert_eq!(c.current_interval_ms(), 1);
    c.adapt(false);
    assert_eq!(c.current_interval_ms(), 1);
}

#[test]
fn base_above_cap_is_its_own_bound() {
    let mut c = SamplingController::new(120_000);
    c.adapt(true);
    assert_eq!(c.current_interval_ms(), 120_000);
    c.adapt(false);
    assert_eq!(c.current_interval_ms(), 120_000);
}

#[test]
fn interval_seconds_for_tools() {
    assert_eq!(eyes::sampling::interval_secs(5000), 5);
    assert_eq!(eyes::sampling::interval_secs(999), 1);
    assert_eq!(eyes::sampling::interval_secs(0), 1);
    assert_eq!(eyes::sampling::interval_secs(7500), 7);
}
