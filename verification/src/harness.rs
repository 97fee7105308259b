//! Configuration, outcome and report of one harness run.

use crate::counter::Counter;
use crate::worker::Worker;
use vstd::prelude::*;

verus! {

/// The discipline under which workers reach the shared total.
#[derive(Clone, Copy, Debug, PartialEq, Eq, Structural)]
pub enum Strategy {
    /// Plain load, add, store with no guard: updates may be lost.
    Unsynchronized,
    /// Every read-modify-write happens under mutual exclusion.
    ExclusiveLock,
    /// Writes are exclusive; reads share access among themselves.
    ReadWriteLock,
    /// No shared cell: each worker sends one partial result to the coordinator.
    ChannelRendezvous,
    /// Each worker is awaited before the next one is started.
    SequentialJoin,
    /// A worker keeps the lock for good, so no completion is ever signalled.
    Deadlock,
}

impl Strategy {
    /// Whether the discipline lets every increment land exactly once.
    pub open spec fn preserves_total(self) -> bool {
        self == Strategy::ExclusiveLock || self == Strategy::ReadWriteLock || self
            == Strategy::ChannelRendezvous || self == Strategy::SequentialJoin
    }

    pub fn is_total_preserving(self) -> (b: bool)
        ensures
            b == self.preserves_total(),
    {
        match self {
            Strategy::ExclusiveLock
            | Strategy::ReadWriteLock
            | Strategy::ChannelRendezvous
            | Strategy::SequentialJoin => true,
            Strategy::Unsynchronized | Strategy::Deadlock => false,
        }
    }
}

/// How a run ended.
#[derive(Clone, Copy, Debug, PartialEq, Eq, Structural)]
pub enum Outcome {
    /// The observed total is the expected one.
    Match,
    /// All workers completed and the total they arrived at differs from the
    /// expected one.
    Mismatch,
    /// The bounded wait ran out before every completion signal was seen.
    DeadlockSuspected,
    /// A worker ended without completing its repetitions.
    WorkerPanic,
}

/// What the harness reports, once per run.
#[derive(Clone, Copy, Debug, PartialEq, Eq, Structural)]
pub struct Report {
    /// The total that was read or folded. A folded sum that does not fit the
    /// machine word is reported as the largest word, and as a mismatch.
    pub observed_total: u64,
    pub expected_total: u64,
    pub outcome: Outcome,
}

/// The input of one run.
#[derive(Clone, Copy, Debug, PartialEq, Eq, Structural)]
pub struct Config {
    pub strategy: Strategy,
    pub worker_count: u64,
    pub repetitions_per_worker: u64,
    pub wait_timeout_ms: u64,
}

impl Config {
    pub fn new(
        strategy: Strategy,
        worker_count: u64,
        repetitions_per_worker: u64,
        wait_timeout_ms: u64,
    ) -> (c: Config)
        ensures
            c == (Config { strategy, worker_count, repetitions_per_worker, wait_timeout_ms }),
    {
        Config { strategy, worker_count, repetitions_per_worker, wait_timeout_ms }
    }

    /// The total that a run without lost updates arrives at.
    pub open spec fn expected(&self) -> nat {
        (self.worker_count * self.repetitions_per_worker) as nat
    }

    /// Whether the expected total fits the machine word of the counter.
    pub open spec fn fits(&self) -> bool {
        self.expected() <= u64::MAX
    }

    /// The expected total, or `None` where it does not fit the machine word.
    pub fn expected_total(&self) -> (total: Option<u64>)
        ensures
            total.is_some() <==> self.fits(),
            total.is_some() ==> total.unwrap() == self.expected(),
    {
        self.worker_count.checked_mul(self.repetitions_per_worker)
    }
}

/// Compares the observed total of a run in which every worker completed with
/// the expected one.
pub open spec fn verdict(observed: u64, expected: u64) -> Outcome {
    if observed == expected {
        Outcome::Match
    } else {
        Outcome::Mismatch
    }
}

/// The report of a run in which every worker completed.
pub fn judge(observed_total: u64, expected_total: u64) -> (r: Report)
    ensures
        r == (Report {
            observed_total,
            expected_total,
            outcome: verdict(observed_total, expected_total),
        }),
{
    let outcome = if observed_total == expected_total {
        Outcome::Match
    } else {
        Outcome::Mismatch
    };
    Report { observed_total, expected_total, outcome }
}

/// Runs the workers of a sequential-join configuration one after the other
/// on one counter, each to completion before the next begins, then reads the
/// counter and judges it. This is the whole of the sequential-join
/// discipline, and it is for that strategy only: a run under any other
/// strategy goes through the coordinator. `None` when the expected total does
/// not fit the machine word; then nothing is run.
pub fn run_serialized(config: &Config) -> (r: Option<Report>)
    requires
        config.strategy == Strategy::SequentialJoin,
    ensures
        r.is_some() <==> config.fits(),
        r.is_some() ==> r.unwrap() == (Report {
            observed_total: config.expected() as u64,
            expected_total: config.expected() as u64,
            outcome: Outcome::Match,
        }),
{
    let expected = match config.expected_total() {
        Some(total) => total,
        None => {
            return None;
        },
    };
    let mut counter = Counter::new();
    let mut id: u64 = 0;
    while id < config.worker_count
        invariant
            id <= config.worker_count,
            config.fits(),
            counter@ == id * config.repetitions_per_worker,
        decreases config.worker_count - id,
    {
        proof {
            lemma_batches_fit(
                id as nat,
                config.worker_count as nat,
                config.repetitions_per_worker as nat,
            );
        }
        let worker = Worker::new(id, config.repetitions_per_worker);
        worker.run(&mut counter);
        id = id + 1;
    }
    Some(judge(counter.snapshot(), expected))
}

/// With `done` of `count` batches of size `each` applied, one more batch
/// stays within the total of all of them.
pub proof fn lemma_batches_fit(done: nat, count: nat, each: nat)
    requires
        done < count,
    ensures
        done * each + each == (done + 1) * each,
        (done + 1) * each <= count * each,
{
    assert(done * each + each == (done + 1) * each) by (nonlinear_arith);
    assert((done + 1) * each <= count * each) by (nonlinear_arith)
        requires
            done + 1 <= count,
    ;
}

} // verus!
