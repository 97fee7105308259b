use sync_bench::harness::{judge, run_serialized, Config, Outcome, Report, Strategy};

#[test]
fn config_keeps_its_fields() {
    let c = Config::new(Strategy::ReadWriteLock, 4, 25, 100);
    assert_eq!(c.strategy, Strategy::ReadWriteLock);
    assert_eq!(c.worker_count, 4);
    assert_eq!(c.repetitions_per_worker, 25);
    assert_eq!(c.wait_timeout_ms, 100);
}

#[test]
fn expected_total_is_the_product() {
    assert_eq!(Config::new(Strategy::ExclusiveLock, 100, 10000, 100).expected_total(), Some(1_000_000));
    assert_eq!(Config::new(Strategy::ExclusiveLock, 0, 10000, 100).expected_total(), Some(0));
    assert_eq!(Config::new(Strategy::ExclusiveLock, 7, 0, 100).expected_total(), Some(0));
    assert_eq!(Config::new(Strategy::ExclusiveLock, 1 << 32, 1 << 31, 100).expected_total(), Some(1 << 63));
}

#[test]
fn expected_total_that_does_not_fit_is_none() {
    assert_eq!(Config::new(Strategy::ExclusiveLock, 1 << 32, 1 << 32, 100).expected_total(), None);
    assert_eq!(Config::new(Strategy::Unsynchronized, u64::MAX, 2, 100).expected_total(), None);
}

#[test]
fn judge_matches_only_equal_totals() {
    assert_eq!(
        judge(1_000_000, 1_000_000),
        Report { observed_total: 1_000_000, expected_total: 1_000_000, outcome: Outcome::Match }
    );
    assert_eq!(
        judge(999_999, 1_000_000),
        Report { observed_total: 999_999, expected_total: 1_000_000, outcome: Outcome::Mismatch }
    );
    assert_eq!(judge(1, 0).outcome, Outcome::Mismatch);
    assert_eq!(judge(0, 0).outcome, Outcome::Match);
}

#[test]
fn strategies_that_preserve_the_total() {
    assert!(Strategy::ExclusiveLock.is_total_preserving());
    assert!(Strategy::ReadWriteLock.is_total_preserving());
    assert!(Strategy::ChannelRendezvous.is_total_preserving());
    assert!(Strategy::SequentialJoin.is_total_preserving());
    assert!(!Strategy::Unsynchronized.is_total_preserving());
    assert!(!Strategy::Deadlock.is_total_preserving());
}

#[test]
fn serialized_run_of_a_hundred_workers_matches() {
    let config = Config::new(Strategy::SequentialJoin, 100, 10000, 100);
    let r = run_serialized(&config).unwrap();
    assert_eq!(
        r,
        Report { observed_total: 1_000_000, expected_total: 1_000_000, outcome: Outcome::Match }
    );
}

#[test]
fn serialized_run_without_work_matches_at_zero() {
    let none = run_serialized(&Config::new(Strategy::SequentialJoin, 0, 50, 100)).unwrap();
    assert_eq!(none, Report { observed_total: 0, expected_total: 0, outcome: Outcome::Match });
    let idle = run_serialized(&Config::new(Strategy::SequentialJoin, 50, 0, 100)).unwrap();
    assert_eq!(idle, Report { observed_total: 0, expected_total: 0, outcome: Outcome::Match });
}

#[test]
fn serialized_run_refuses_a_total_that_does_not_fit() {
    assert_eq!(run_serialized(&Config::new(Strategy::SequentialJoin, u64::MAX, 2, 100)), None);
}
