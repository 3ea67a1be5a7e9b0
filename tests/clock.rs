use cpu_fingerprint::clock::{Clock, SyntheticClock, TickSource};
use cpu_fingerprint::session::{open_clock, SetupFault};

#[test]
fn shared_clock_starts_at_zero_and_counts_increments() {
    let driver = Clock::new();
    let mut reader = driver.handle();
    assert_eq!(reader.read(), 0);
    assert_eq!(driver.increment(), 1);
    assert_eq!(driver.increment(), 2);
    assert_eq!(reader.read(), 2);
    assert_eq!(reader.read(), 2);
}

#[test]
fn successive_reads_never_decrease() {
    let driver = Clock::new();
    let mut reader = driver.handle();
    let mut last = reader.read();
    for round in 0..200u64 {
        for _ in 0..(round % 7) {
            driver.increment();
        }
        let now = reader.read();
        assert!(now >= last);
        last = now;
    }
    assert_eq!(last, (0..200u64).map(|r| r % 7).sum::<u64>());
}

#[test]
fn handles_share_one_counter() {
    let driver = Clock::new();
    let mut a = driver.handle();
    let mut b = a.handle();
    driver.increment();
    driver.increment();
    driver.increment();
    assert_eq!(a.read(), 3);
    assert_eq!(b.read(), 3);
}

#[test]
fn synthetic_clock_returns_step_times_call_count() {
    let mut clock = SyntheticClock::new(1000);
    assert_eq!(clock.step(), 1000);
    assert_eq!(clock.read(), 1000);
    assert_eq!(clock.read(), 2000);
    assert_eq!(clock.read(), 3000);
}

#[test]
fn synthetic_clock_saturates_instead_of_wrapping() {
    let mut clock = SyntheticClock::new(u64::MAX / 2 + 1);
    let first = clock.read();
    let second = clock.read();
    let third = clock.read();
    assert_eq!(first, u64::MAX / 2 + 1);
    assert_eq!(second, u64::MAX);
    assert_eq!(third, u64::MAX);
}

#[test]
fn quiescent_synthetic_clock_stands_still() {
    let mut clock = SyntheticClock::new(0);
    assert_eq!(clock.read(), 0);
    assert_eq!(clock.read(), 0);
}

#[test]
fn opening_a_clock_without_shared_memory_fails() {
    assert!(matches!(open_clock(false), Err(SetupFault::SharedMemoryUnsupported)));
    let mut clock = open_clock(true).unwrap();
    assert_eq!(clock.read(), 0);
}
