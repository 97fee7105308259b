use sync_bench::lock::{AccessError, Admission, GuardedCounter, Request};
use sync_bench::worker::Worker;

#[test]
fn a_new_admission_is_vacant() {
    let g = Admission::new();
    assert_eq!(g, Admission { writer: None, readers: 0, writer_waiting: false });
    assert!(!g.is_held_by(0));
}

#[test]
fn one_writer_at_a_time() {
    let mut g = Admission::new();
    assert!(g.try_write(1));
    assert!(g.is_held_by(1));
    assert!(!g.try_write(2));
    assert!(!g.try_write(1));
    assert!(g.writer_waiting);
    assert!(!g.release_write(2));
    assert!(g.is_held_by(1));
    assert!(g.release_write(1));
    assert!(g.try_write(2));
    assert_eq!(g, Admission { writer: Some(2), readers: 0, writer_waiting: false });
}

#[test]
fn readers_share_and_keep_writers_out() {
    let mut g = Admission::new();
    assert!(g.try_read());
    assert!(g.try_read());
    assert_eq!(g.readers, 2);
    assert!(!g.try_write(7));
    assert!(g.release_read());
    assert!(!g.try_write(7));
    assert!(g.release_read());
    assert!(!g.release_read());
    assert!(g.try_write(7));
    assert!(!g.try_read());
}

#[test]
fn a_waiting_writer_stops_new_readers() {
    let mut g = Admission::new();
    assert!(g.try_read());
    assert!(!g.try_write(3));
    assert!(!g.try_read());
    assert_eq!(g, Admission { writer: None, readers: 1, writer_waiting: true });
    assert!(g.release_read());
    assert!(!g.try_read());
    assert!(g.try_write(3));
    assert!(g.release_write(3));
    assert!(g.try_read());
}

#[test]
fn apply_does_what_the_single_calls_do() {
    let mut g = Admission::new();
    assert!(g.apply(Request::TryRead));
    assert!(!g.apply(Request::TryWrite(1)));
    assert!(!g.apply(Request::ReleaseWrite(1)));
    assert!(g.apply(Request::ReleaseRead));
    assert!(!g.apply(Request::ReleaseRead));
    assert!(g.apply(Request::TryWrite(1)));
    assert!(!g.apply(Request::TryRead));
    assert!(g.apply(Request::ReleaseWrite(1)));
    assert_eq!(g, Admission::new());
}

#[test]
fn a_lock_that_is_never_released_admits_nobody() {
    let mut g = Admission::new();
    assert!(g.try_write(0));
    for worker in 1..50 {
        assert!(!g.try_write(worker));
        assert!(!g.try_read());
        assert!(!g.release_write(worker));
        assert!(!g.release_read());
    }
    assert!(g.is_held_by(0));
}

#[test]
fn guarded_counter_changes_only_for_the_holder() {
    let mut c = GuardedCounter::new();
    assert_eq!(c.snapshot(), Ok(0));
    assert_eq!(c.increment_by(1, 5), Err(AccessError::NotHolder));
    assert!(c.admission.try_write(1));
    assert_eq!(c.increment_by(2, 5), Err(AccessError::NotHolder));
    assert_eq!(c.increment_by(1, 5), Ok(()));
    assert_eq!(c.snapshot(), Err(AccessError::WriteInFlight));
    assert!(c.admission.release_write(1));
    assert_eq!(c.snapshot(), Ok(5));
}

#[test]
fn guarded_counter_refuses_what_does_not_fit() {
    let mut c = GuardedCounter::new();
    assert!(c.admission.try_write(1));
    assert_eq!(c.increment_by(1, u64::MAX), Ok(()));
    assert_eq!(c.increment_by(1, 1), Err(AccessError::Overflow));
    assert!(c.admission.release_write(1));
    assert_eq!(c.snapshot(), Ok(u64::MAX));
}

#[test]
fn a_writer_can_turn_into_a_reader() {
    let mut g = Admission::new();
    assert!(!g.downgrade(1));
    assert!(g.try_write(1));
    assert!(!g.downgrade(2));
    assert!(g.downgrade(1));
    assert_eq!(g, Admission { writer: None, readers: 1, writer_waiting: false });
    assert!(g.try_read());
    assert!(!g.try_write(2));
    assert!(g.release_read());
    assert!(g.release_read());
    assert!(g.try_write(2));
    assert!(g.apply(Request::Downgrade(2)));
    assert!(!g.apply(Request::Downgrade(2)));
    assert_eq!(g.readers, 1);
}

#[test]
fn a_batch_under_the_write_lock_is_read_back_after_the_downgrade() {
    let mut c = GuardedCounter::new();
    for id in 0..3 {
        let worker = Worker::new(id, 100);
        assert!(c.admission.try_write(id));
        let before = id * 100;
        assert_eq!(c.run_batch(&worker), Ok(()));
        assert!(c.admission.downgrade(id));
        assert_eq!(c.snapshot(), Ok(before + 100));
        assert!(c.admission.release_read());
    }
    assert_eq!(c.snapshot(), Ok(300));
}

#[test]
fn a_batch_is_refused_without_the_lock_or_without_room() {
    let mut c = GuardedCounter::new();
    let worker = Worker::new(4, 100);
    assert_eq!(c.run_batch(&worker), Err(AccessError::NotHolder));
    assert!(c.admission.try_write(4));
    assert_eq!(c.increment_by(4, u64::MAX - 99), Ok(()));
    assert_eq!(c.run_batch(&worker), Err(AccessError::Overflow));
    assert_eq!(c.run_batch(&Worker::new(4, 99)), Ok(()));
    assert!(c.admission.release_write(4));
    assert_eq!(c.snapshot(), Ok(u64::MAX));
}
