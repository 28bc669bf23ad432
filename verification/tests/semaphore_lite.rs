use paperlog::signal::{SemaphoreLite, SignalState};
use std::time::{Duration, Instant};

#[test]
fn test_wait_timeout_returns() {
    let sem = SemaphoreLite::new();

    let start = Instant::now();
    sem.wait_timeout(50);
    let elapsed = start.elapsed();

    // Ensure we returned after the timeout (allow some leeway)
    assert!(elapsed >= Duration::from_millis(45));
}

#[test]
fn test_signal_before_wait() {
    let sem = SemaphoreLite::new();

    sem.signal();
    let start = Instant::now();
    sem.wait();
    let elapsed = start.elapsed();

    // If signal happened before wait, wait should return immediately (very small)
    assert!(elapsed < Duration::from_millis(10));
}

#[test]
fn test_wait_timeout_before_signal_propagation() {
    // a caller that waits with a timeout before any signal arrives gets
    // control back once the timeout passes, not later
    let sem = SemaphoreLite::new();
    let start = Instant::now();
    sem.wait_timeout(50);
    let elapsed = start.elapsed();
    assert!(elapsed >= Duration::from_millis(45));
    assert!(elapsed < Duration::from_millis(5000));
}

#[test]
fn test_signal_consumed_once_then_timeout() {
    // the latch fires once per signal: a second wait does not pass
    let sem = SemaphoreLite::new();
    sem.signal();
    sem.wait();
    let start = Instant::now();
    sem.wait_timeout(50);
    let elapsed = start.elapsed();
    assert!(elapsed >= Duration::from_millis(45));
}

#[test]
fn test_signal_state_one_signal_wakes_one() {
    // with two waiters taking their turns at the latch, a single signal
    // lets exactly the first proceed; the second finds the flag clear
    let mut latch = SignalState::new();
    latch.signal_step();
    let first = latch.try_consume();
    let second = latch.try_consume();
    assert!(first);
    assert!(!second);
}

#[test]
fn test_signal_state_starts_clear() {
    let mut latch = SignalState::new();
    assert!(!latch.flag);
    assert!(!latch.try_consume());
}
