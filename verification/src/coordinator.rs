//! The coordinator as a state machine: from the state and the event that the
//! surrounding program observed to the next state and the action that it is
//! to perform next. The machine never blocks and never spawns; it decides.

use crate::harness::{judge, verdict, Config, Outcome, Report, Strategy};
use crate::worker::Worker;
use vstd::prelude::*;

verus! {

/// Where a run stands.
#[derive(Clone, Copy, Debug, PartialEq, Eq, Structural)]
pub enum Phase {
    /// Configured, nothing started.
    Idle,
    /// Workers are being created.
    Spawning,
    /// Blocked on completion signals.
    AwaitingCompletion,
    /// Every signal was seen; the observed total is being obtained.
    Aggregating,
    /// The run is over and this is its one report.
    Reported(Report),
}

/// What the surrounding program observed.
#[derive(Clone, Copy, Debug, PartialEq, Eq, Structural)]
pub enum Event {
    /// The run is to begin.
    Start,
    /// The worker that was asked for has been created.
    Spawned,
    /// One worker signalled completion, `waited_ms` milliseconds into the
    /// wait that was asked for. Under channel rendezvous `partial` is the
    /// partial result it sent; under the other strategies it is ignored.
    Completed { partial: u64, waited_ms: u64 },
    /// The wait that was asked for ran out with no signal.
    TimedOut,
    /// A worker ended without completing its repetitions.
    WorkerFailed,
    /// Reading the shared counter gave this value.
    Observed(u64),
}

/// What the surrounding program is to do next.
#[derive(Clone, Copy, Debug, PartialEq, Eq, Structural)]
pub enum Action {
    /// Nothing is running: hand in `Event::Start`.
    Begin,
    /// Create this worker, then hand in `Event::Spawned`.
    Spawn(Worker),
    /// Wait for one completion signal, for at most this many milliseconds:
    /// what is left of the run's one timeout. Then hand in
    /// `Event::Completed`, `Event::TimedOut` or `Event::WorkerFailed`.
    Await(u64),
    /// Read the shared counter and hand in `Event::Observed`.
    ReadCounter,
    /// The run is over: hand out this report.
    Emit(Report),
}

/// The coordinator's state.
#[derive(Clone, Copy, Debug, PartialEq, Eq, Structural)]
pub struct Coordinator {
    pub config: Config,
    /// `worker_count * repetitions_per_worker`.
    pub expected: u64,
    pub phase: Phase,
    /// Workers created so far.
    pub spawned: u64,
    /// Completion signals seen so far.
    pub completed: u64,
    /// Running sum of the partial results received, held at the largest
    /// machine word once it would exceed it.
    pub received: u64,
    /// Whether the sum of the partial results has left the machine word.
    pub overflowed: bool,
    /// Milliseconds spent waiting for signals so far, all waits together.
    pub waited_ms: u64,
}

/// `n`, held at the largest machine word.
pub open spec fn capped(n: nat) -> u64 {
    if n > u64::MAX {
        u64::MAX
    } else {
        n as u64
    }
}

impl Coordinator {
    /// The state of a run that has not begun.
    pub open spec fn idle(config: Config) -> Coordinator {
        Coordinator {
            config,
            expected: config.expected() as u64,
            phase: Phase::Idle,
            spawned: 0,
            completed: 0,
            received: 0,
            overflowed: false,
            waited_ms: 0,
        }
    }

    /// What is left of the timeout: all waits of a run together never take
    /// longer than the configured timeout.
    pub open spec fn wait_left(self) -> u64 {
        if self.waited_ms >= self.config.wait_timeout_ms {
            0
        } else {
            (self.config.wait_timeout_ms - self.waited_ms) as u64
        }
    }

    /// The time spent waiting once a wait of `waited_ms` has ended: a wait
    /// counts for no more than was left.
    pub open spec fn waited_after(self, waited_ms: u64) -> u64 {
        if waited_ms >= self.wait_left() {
            (self.waited_ms + self.wait_left()) as u64
        } else {
            (self.waited_ms + waited_ms) as u64
        }
    }

    /// The states that a run can be in. Among other things: a run is judged
    /// as a match or a mismatch only after every worker has signalled.
    pub open spec fn wf(self) -> bool {
        let sequential = self.config.strategy == Strategy::SequentialJoin;
        &&& self.config.fits()
        &&& self.expected == self.config.expected()
        &&& self.completed <= self.spawned <= self.config.worker_count
        &&& self.config.strategy != Strategy::ChannelRendezvous ==> self.received == 0
            && !self.overflowed
        &&& self.overflowed ==> self.received == u64::MAX
        &&& self.waited_ms <= self.config.wait_timeout_ms
        &&& match self.phase {
            Phase::Idle => self.spawned == 0 && self.received == 0,
            Phase::Spawning => self.spawned < self.config.worker_count && (sequential
                ==> self.completed == self.spawned) && (!sequential ==> self.completed == 0),
            Phase::AwaitingCompletion => self.completed < self.spawned && (sequential
                ==> self.spawned == self.completed + 1) && (!sequential ==> self.spawned
                == self.config.worker_count),
            Phase::Aggregating => self.completed == self.config.worker_count
                && self.config.strategy != Strategy::ChannelRendezvous,
            Phase::Reported(r) => r.expected_total == self.expected && (r.outcome
                == Outcome::Match || r.outcome == Outcome::Mismatch ==> self.completed
                == self.config.worker_count),
        }
    }

    /// The run ends with `outcome`; what was received so far is reported as
    /// observed.
    pub open spec fn finish(self, outcome: Outcome) -> Coordinator {
        Coordinator {
            phase: Phase::Reported(
                Report { observed_total: self.received, expected_total: self.expected, outcome },
            ),
            ..self
        }
    }

    /// Every signal was seen. Under channel rendezvous the folded sum is the
    /// observed total and the run is judged at once, as a mismatch whenever
    /// the sum has left the machine word; otherwise the shared counter has
    /// yet to be read.
    pub open spec fn aggregate(self) -> Coordinator {
        if self.config.strategy == Strategy::ChannelRendezvous {
            self.finish(
                if self.overflowed {
                    Outcome::Mismatch
                } else {
                    verdict(self.received, self.expected)
                },
            )
        } else {
            Coordinator { phase: Phase::Aggregating, ..self }
        }
    }

    /// One more worker exists. Under sequential join it is awaited before the
    /// next one is created; otherwise waiting begins with the last worker.
    pub open spec fn spawn_one(self) -> Coordinator {
        if self.spawned >= self.config.worker_count {
            self
        } else {
            let spawned = (self.spawned + 1) as u64;
            let wait = self.config.strategy == Strategy::SequentialJoin || spawned
                == self.config.worker_count;
            Coordinator {
                spawned,
                phase: if wait {
                    Phase::AwaitingCompletion
                } else {
                    Phase::Spawning
                },
                ..self
            }
        }
    }

    /// One more worker completed, with `partial` as its message, after a
    /// wait of `waited_ms`.
    pub open spec fn complete_one(self, partial: u64, waited_ms: u64) -> Coordinator {
        if self.completed >= self.spawned {
            self
        } else {
            let channel = self.config.strategy == Strategy::ChannelRendezvous;
            let counted = Coordinator {
                completed: (self.completed + 1) as u64,
                received: if channel {
                    capped(self.received as nat + partial as nat)
                } else {
                    self.received
                },
                overflowed: if channel {
                    self.overflowed || self.received + partial > u64::MAX
                } else {
                    self.overflowed
                },
                waited_ms: self.waited_after(waited_ms),
                ..self
            };
            if counted.completed < counted.spawned {
                counted
            } else if counted.spawned >= self.config.worker_count {
                counted.aggregate()
            } else {
                Coordinator { phase: Phase::Spawning, ..counted }
            }
        }
    }

    /// The transition function. An event that does not belong to the phase
    /// leaves the state as it is; a reported run stays reported.
    pub open spec fn next(self, event: Event) -> Coordinator {
        match self.phase {
            Phase::Idle => match event {
                Event::Start => if self.config.worker_count == 0 {
                    self.aggregate()
                } else {
                    Coordinator { phase: Phase::Spawning, ..self }
                },
                _ => self,
            },
            Phase::Spawning => match event {
                Event::Spawned => self.spawn_one(),
                _ => self,
            },
            Phase::AwaitingCompletion => match event {
                Event::Completed { partial, waited_ms } => self.complete_one(partial, waited_ms),
                Event::TimedOut => self.finish(Outcome::DeadlockSuspected),
                Event::WorkerFailed => self.finish(Outcome::WorkerPanic),
                _ => self,
            },
            Phase::Aggregating => match event {
                Event::Observed(total) => Coordinator {
                    phase: Phase::Reported(
                        Report {
                            observed_total: total,
                            expected_total: self.expected,
                            outcome: verdict(total, self.expected),
                        },
                    ),
                    ..self
                },
                _ => self,
            },
            Phase::Reported(_) => self,
        }
    }

    /// What the surrounding program is to do in this state.
    pub open spec fn pending(self) -> Action {
        match self.phase {
            Phase::Idle => Action::Begin,
            Phase::Spawning => Action::Spawn(
                Worker {
                    worker_id: self.spawned,
                    repetitions: self.config.repetitions_per_worker,
                },
            ),
            Phase::AwaitingCompletion => Action::Await(self.wait_left()),
            Phase::Aggregating => Action::ReadCounter,
            Phase::Reported(r) => Action::Emit(r),
        }
    }

    /// The state after all events, taken in order.
    pub open spec fn run(self, events: Seq<Event>) -> Coordinator
        decreases events.len(),
    {
        if events.len() == 0 {
            self
        } else {
            self.next(events.first()).run(events.drop_first())
        }
    }

    /// A coordinator for `config`, idle. `None` when the expected total does
    /// not fit the machine word.
    pub fn new(config: Config) -> (c: Option<Coordinator>)
        ensures
            c.is_some() <==> config.fits(),
            c.is_some() ==> c.unwrap() == Coordinator::idle(config) && c.unwrap().wf(),
    {
        match config.expected_total() {
            Some(expected) => Some(
                Coordinator {
                    config,
                    expected,
                    phase: Phase::Idle,
                    spawned: 0,
                    completed: 0,
                    received: 0,
                    overflowed: false,
                    waited_ms: 0,
                },
            ),
            None => None,
        }
    }

    /// The action that belongs to the current state.
    pub fn pending_action(&self) -> (action: Action)
        ensures
            action == self.pending(),
    {
        match self.phase {
            Phase::Idle => Action::Begin,
            Phase::Spawning => Action::Spawn(
                Worker::new(self.spawned, self.config.repetitions_per_worker),
            ),
            Phase::AwaitingCompletion => Action::Await(self.remaining_wait()),
            Phase::Aggregating => Action::ReadCounter,
            Phase::Reported(r) => Action::Emit(r),
        }
    }

    /// What is left of the timeout, in milliseconds.
    pub fn remaining_wait(&self) -> (left: u64)
        ensures
            left == self.wait_left(),
    {
        if self.waited_ms >= self.config.wait_timeout_ms {
            0
        } else {
            self.config.wait_timeout_ms - self.waited_ms
        }
    }

    /// The report, once the run is over.
    pub fn report(&self) -> (r: Option<Report>)
        ensures
            r == (match self.phase {
                Phase::Reported(report) => Some(report),
                _ => None,
            }),
    {
        match self.phase {
            Phase::Reported(report) => Some(report),
            _ => None,
        }
    }

    fn set_finished(&mut self, outcome: Outcome)
        ensures
            *final(self) == old(self).finish(outcome),
    {
        self.phase = Phase::Reported(
            Report { observed_total: self.received, expected_total: self.expected, outcome },
        );
    }

    fn set_aggregated(&mut self)
        ensures
            *final(self) == old(self).aggregate(),
    {
        if self.config.strategy == Strategy::ChannelRendezvous {
            if self.overflowed {
                self.set_finished(Outcome::Mismatch);
            } else {
                let r = judge(self.received, self.expected);
                self.set_finished(r.outcome);
            }
        } else {
            self.phase = Phase::Aggregating;
        }
    }

    fn set_spawned(&mut self)
        ensures
            *final(self) == old(self).spawn_one(),
    {
        if self.spawned < self.config.worker_count {
            self.spawned = self.spawned + 1;
            if self.config.strategy == Strategy::SequentialJoin || self.spawned
                == self.config.worker_count {
                self.phase = Phase::AwaitingCompletion;
            } else {
                self.phase = Phase::Spawning;
            }
        }
    }

    fn set_completed(&mut self, partial: u64, waited_ms: u64)
        ensures
            *final(self) == old(self).complete_one(partial, waited_ms),
    {
        if self.completed < self.spawned {
            let left = self.remaining_wait();
            self.waited_ms = if waited_ms >= left {
                self.waited_ms + left
            } else {
                self.waited_ms + waited_ms
            };
            self.completed = self.completed + 1;
            if self.config.strategy == Strategy::ChannelRendezvous {
                match self.received.checked_add(partial) {
                    Some(sum) => {
                        self.received = sum;
                    },
                    None => {
                        self.received = u64::MAX;
                        self.overflowed = true;
                    },
                }
            }
            if self.completed < self.spawned {
            } else if self.spawned >= self.config.worker_count {
                self.set_aggregated();
            } else {
                self.phase = Phase::Spawning;
            }
        }
    }

    /// Takes one event in and says what to do next.
    pub fn step(&mut self, event: Event) -> (action: Action)
        ensures
            *final(self) == old(self).next(event),
            action == final(self).pending(),
    {
        match self.phase {
            Phase::Idle => match event {
                Event::Start => {
                    if self.config.worker_count == 0 {
                        self.set_aggregated();
                    } else {
                        self.phase = Phase::Spawning;
                    }
                },
                _ => {},
            },
            Phase::Spawning => match event {
                Event::Spawned => {
                    self.set_spawned();
                },
                _ => {},
            },
            Phase::AwaitingCompletion => match event {
                Event::Completed { partial, waited_ms } => {
                    self.set_completed(partial, waited_ms);
                },
                Event::TimedOut => {
                    self.set_finished(Outcome::DeadlockSuspected);
                },
                Event::WorkerFailed => {
                    self.set_finished(Outcome::WorkerPanic);
                },
                _ => {},
            },
            Phase::Aggregating => match event {
                Event::Observed(total) => {
                    self.phase = Phase::Reported(judge(total, self.expected));
                },
                _ => {},
            },
            Phase::Reported(_) => {},
        }
        self.pending_action()
    }
}

} // verus!
