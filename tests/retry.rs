use jeff::retry::Retry;

/// Runs the schedule against an endpoint that fails `failures` times and then
/// answers; returns the attempt that succeeded (if any), the attempts made and
/// the seconds waited.
fn run(max_retries: u8, failures: u32) -> (Option<u8>, u8, u64) {
    let mut r = Retry::new(max_retries);
    let mut waited: u64 = 0;
    let mut failed: u32 = 0;
    while r.start_attempt() {
        if failed == failures {
            return (Some(r.attempt), r.attempt, waited);
        }
        failed += 1;
        if let Some(secs) = r.after_failure() {
            waited += secs;
        }
    }
    (None, r.attempt, waited)
}

#[test]
fn success_after_k_failures_waits_doubling_backoff() {
    assert_eq!(run(5, 0), (Some(1), 1, 0));
    assert_eq!(run(5, 1), (Some(2), 2, 1));
    assert_eq!(run(5, 3), (Some(4), 4, 1 + 2 + 4));
    assert_eq!(run(5, 4), (Some(5), 5, 1 + 2 + 4 + 8));
}

#[test]
fn exhausting_retries_never_exceeds_max_attempts() {
    assert_eq!(run(3, 3), (None, 3, 1 + 2));
    assert_eq!(run(3, 100), (None, 3, 1 + 2));
    assert_eq!(run(1, 1), (None, 1, 0));
}

#[test]
fn zero_retries_makes_no_attempt() {
    let mut r = Retry::new(0);
    assert!(!r.start_attempt());
    assert_eq!(r.attempt, 0);
}

#[test]
fn no_backoff_after_last_attempt() {
    let mut r = Retry::new(2);
    assert!(r.start_attempt());
    assert_eq!(r.after_failure(), Some(1));
    assert!(r.start_attempt());
    assert_eq!(r.after_failure(), None);
    assert!(!r.start_attempt());
}

#[test]
fn backoff_saturates_for_long_schedules() {
    let mut r = Retry::new(255);
    let mut last = 0;
    while r.start_attempt() {
        if let Some(secs) = r.after_failure() {
            last = secs;
        }
    }
    assert_eq!(r.attempt, 255);
    assert_eq!(last, u64::MAX);
}
