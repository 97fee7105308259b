use sync_bench::coordinator::{Action, Coordinator, Event};
use sync_bench::counter::Counter;
use sync_bench::harness::{Config, Outcome, Report, Strategy};
use sync_bench::lock::GuardedCounter;
use sync_bench::race::{replay_racy, RacyStep};

/// Performs what the coordinator asks for on one thread: every worker that is
/// spawned takes the lock, adds its repetitions one by one, gives the lock
/// back and signals.
fn run_locked(strategy: Strategy, workers: u64, repetitions: u64) -> Report {
    let mut coordinator = Coordinator::new(Config::new(strategy, workers, repetitions, 100)).unwrap();
    let mut shared = GuardedCounter::new();
    let mut signals: Vec<u64> = Vec::new();
    let mut action = coordinator.step(Event::Start);
    loop {
        let event = match action {
            Action::Begin => Event::Start,
            Action::Spawn(worker) => {
                assert!(shared.admission.try_write(worker.worker_id));
                for _ in 0..worker.repetitions {
                    assert_eq!(shared.increment_by(worker.worker_id, 1), Ok(()));
                }
                assert!(shared.admission.release_write(worker.worker_id));
                signals.push(worker.worker_id);
                Event::Spawned
            }
            Action::Await(_) => match signals.pop() {
                Some(_) => Event::Completed { partial: 0, waited_ms: 0 },
                None => Event::TimedOut,
            },
            Action::ReadCounter => Event::Observed(shared.snapshot().unwrap()),
            Action::Emit(report) => return report,
        };
        action = coordinator.step(event);
    }
}

#[test]
fn exclusive_lock_end_to_end() {
    let report = run_locked(Strategy::ExclusiveLock, 100, 10000);
    assert_eq!(
        report,
        Report { observed_total: 1_000_000, expected_total: 1_000_000, outcome: Outcome::Match }
    );
}

#[test]
fn reader_writer_lock_end_to_end() {
    let report = run_locked(Strategy::ReadWriteLock, 100, 100);
    assert_eq!(report, Report { observed_total: 10000, expected_total: 10000, outcome: Outcome::Match });
}

#[test]
fn sequential_join_end_to_end() {
    let report = run_locked(Strategy::SequentialJoin, 100, 10000);
    assert_eq!(
        report,
        Report { observed_total: 1_000_000, expected_total: 1_000_000, outcome: Outcome::Match }
    );
}

#[test]
fn locked_runs_match_for_small_grids() {
    for workers in 0..6 {
        for repetitions in 0..6 {
            let report = run_locked(Strategy::ExclusiveLock, workers, repetitions);
            assert_eq!(report.observed_total, workers * repetitions);
            assert_eq!(report.expected_total, workers * repetitions);
            assert_eq!(report.outcome, Outcome::Match);
        }
    }
}

#[test]
fn channel_rendezvous_end_to_end() {
    let mut coordinator =
        Coordinator::new(Config::new(Strategy::ChannelRendezvous, 100, 10000, 100)).unwrap();
    let mut sent: Vec<u64> = Vec::new();
    let mut action = coordinator.step(Event::Start);
    let report = loop {
        let event = match action {
            Action::Begin => Event::Start,
            Action::Spawn(worker) => {
                sent.push(worker.partial());
                Event::Spawned
            }
            Action::Await(_) => match sent.pop() {
                Some(partial) => Event::Completed { partial: partial, waited_ms: 0 },
                None => Event::TimedOut,
            },
            Action::ReadCounter => unreachable!(),
            Action::Emit(report) => break report,
        };
        action = coordinator.step(event);
    };
    assert!(sent.is_empty());
    assert_eq!(coordinator.completed, 100);
    assert_eq!(
        report,
        Report { observed_total: 1_000_000, expected_total: 1_000_000, outcome: Outcome::Match }
    );
}

#[test]
fn unsynchronized_end_to_end_with_a_racy_schedule() {
    // every worker loads before any worker stores, in each of ten rounds
    let workers: usize = 4;
    let mut steps = Vec::new();
    for _ in 0..10 {
        for w in 0..workers {
            steps.push(RacyStep::Load(w));
        }
        for w in 0..workers {
            steps.push(RacyStep::Store(w));
        }
    }
    let observed = replay_racy(workers, &steps);
    assert_eq!(observed, 10);
    let mut coordinator = Coordinator::new(Config::new(Strategy::Unsynchronized, 4, 10, 100)).unwrap();
    coordinator.step(Event::Start);
    for _ in 0..4 {
        coordinator.step(Event::Spawned);
    }
    for _ in 0..4 {
        coordinator.step(Event::Completed { partial: 0, waited_ms: 0 });
    }
    coordinator.step(Event::Observed(observed));
    assert_eq!(
        coordinator.report(),
        Some(Report { observed_total: 10, expected_total: 40, outcome: Outcome::Mismatch })
    );
}

#[test]
fn deadlock_end_to_end() {
    let mut coordinator = Coordinator::new(Config::new(Strategy::Deadlock, 2, 1, 100)).unwrap();
    let mut shared = GuardedCounter::new();
    let mut counter_of_holder = Counter::new();
    let mut waits = 0;
    let mut action = coordinator.step(Event::Start);
    let report = loop {
        let event = match action {
            Action::Begin => Event::Start,
            Action::Spawn(worker) => {
                // the first worker takes the lock and keeps it; the second never gets in
                if shared.admission.try_write(worker.worker_id) {
                    assert_eq!(shared.increment_by(worker.worker_id, 1), Ok(()));
                    counter_of_holder.increment_by(1);
                }
                Event::Spawned
            }
            Action::Await(ms) => {
                assert_eq!(ms, 100);
                waits += 1;
                Event::TimedOut
            }
            Action::ReadCounter => unreachable!(),
            Action::Emit(report) => break report,
        };
        action = coordinator.step(event);
    };
    assert_eq!(waits, 1);
    assert!(shared.admission.is_held_by(0));
    assert_eq!(counter_of_holder.snapshot(), 1);
    assert_eq!(
        report,
        Report { observed_total: 0, expected_total: 2, outcome: Outcome::DeadlockSuspected }
    );
}
