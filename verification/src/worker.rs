//! A worker: a fixed batch of single increments.

use crate::counter::{increment, Counter};
use vstd::prelude::*;

verus! {

/// The parameters a coordinator hands to one worker.
#[derive(Clone, Copy, Debug, PartialEq, Eq, Structural)]
pub struct Worker {
    pub worker_id: u64,
    pub repetitions: u64,
}

impl Worker {
    pub fn new(worker_id: u64, repetitions: u64) -> (w: Worker)
        ensures
            w == (Worker { worker_id, repetitions }),
    {
        Worker { worker_id, repetitions }
    }

    /// Whether a worker that has done `done` of its increments has more to
    /// do. Whoever performs the increments one by one outside this library
    /// asks here when to stop.
    pub fn unfinished(&self, done: u64) -> (more: bool)
        ensures
            more == (done < self.repetitions),
    {
        done < self.repetitions
    }

    /// Applies `repetitions` single increments to `counter`, one call each.
    /// The caller holds whatever access the active strategy demands for the
    /// whole batch.
    pub fn run(&self, counter: &mut Counter)
        requires
            old(counter)@ + self.repetitions <= u64::MAX,
        ensures
            final(counter)@ == old(counter)@ + self.repetitions,
    {
        let ghost start: nat = counter@;
        let mut done: u64 = 0;
        while done < self.repetitions
            invariant
                done <= self.repetitions,
                start + self.repetitions <= u64::MAX,
                counter@ == start + done,
            decreases self.repetitions - done,
        {
            counter.increment_by(1);
            done = done + 1;
        }
    }

    /// Counts the batch on an accumulator that nobody else can reach and
    /// returns it: the one message this worker sends over a channel.
    pub fn partial(&self) -> (sum: u64)
        ensures
            sum == self.repetitions,
    {
        let mut local: u64 = 0;
        while local < self.repetitions
            invariant
                local <= self.repetitions,
            decreases self.repetitions - local,
        {
            local = increment(local);
        }
        local
    }
}

} // verus!
