use sync_bench::counter::{increment, Counter};
use sync_bench::worker::Worker;

#[test]
fn increment_adds_one() {
    assert_eq!(increment(0), 1);
    assert_eq!(increment(41), 42);
    assert_eq!(increment(u64::MAX - 1), u64::MAX);
}

#[test]
fn counter_starts_at_zero_and_accumulates() {
    let mut c = Counter::new();
    assert_eq!(c.snapshot(), 0);
    c.increment_by(5);
    c.increment_by(0);
    c.increment_by(7);
    assert_eq!(c.snapshot(), 12);
}

#[test]
fn counter_can_start_anywhere() {
    let mut c = Counter::starting_at(40);
    c.increment_by(2);
    assert_eq!(c.snapshot(), 42);
}

#[test]
fn try_increment_refuses_what_does_not_fit() {
    let mut c = Counter::starting_at(u64::MAX - 3);
    assert!(c.try_increment_by(3));
    assert_eq!(c.snapshot(), u64::MAX);
    assert!(!c.try_increment_by(1));
    assert_eq!(c.snapshot(), u64::MAX);
    assert!(c.try_increment_by(0));
}

#[test]
fn try_run_applies_a_whole_batch_or_nothing() {
    let mut c = Counter::starting_at(u64::MAX - 100);
    assert!(!c.try_run(&Worker::new(0, 101)));
    assert_eq!(c.snapshot(), u64::MAX - 100);
    assert!(c.try_run(&Worker::new(0, 100)));
    assert_eq!(c.snapshot(), u64::MAX);
    assert!(c.try_run(&Worker::new(1, 0)));
}
