use sync_bench::counter::Counter;
use sync_bench::worker::Worker;

#[test]
fn worker_keeps_its_parameters() {
    let w = Worker::new(3, 100);
    assert_eq!(w.worker_id, 3);
    assert_eq!(w.repetitions, 100);
}

#[test]
fn worker_run_adds_its_repetitions() {
    let mut c = Counter::starting_at(7);
    Worker::new(0, 100).run(&mut c);
    assert_eq!(c.snapshot(), 107);
    Worker::new(1, 0).run(&mut c);
    assert_eq!(c.snapshot(), 107);
}

#[test]
fn worker_partial_is_its_repetitions() {
    assert_eq!(Worker::new(0, 0).partial(), 0);
    assert_eq!(Worker::new(9, 100).partial(), 100);
    assert_eq!(Worker::new(9, 10000).partial(), 10000);
}

#[test]
fn worker_is_unfinished_until_its_last_repetition() {
    let w = Worker::new(0, 3);
    assert!(w.unfinished(0));
    assert!(w.unfinished(2));
    assert!(!w.unfinished(3));
    assert!(!w.unfinished(4));
    assert!(!Worker::new(0, 0).unfinished(0));
}
