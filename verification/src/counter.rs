//! The shared accumulator and the single-step increment that workers apply.

use crate::worker::Worker;
use vstd::prelude::*;

verus! {

/// A single integer total. It enforces no access discipline of its own: how it
/// is reached concurrently is decided entirely by the active strategy.
pub struct Counter {
    value: u64,
}

impl View for Counter {
    type V = nat;

    closed spec fn view(&self) -> nat {
        self.value as nat
    }
}

impl Counter {
    /// A counter that holds zero.
    pub fn new() -> (c: Counter)
        ensures
            c@ == 0,
    {
        Counter { value: 0 }
    }

    /// A counter that holds `value`.
    pub fn starting_at(value: u64) -> (c: Counter)
        ensures
            c@ == value,
    {
        Counter { value }
    }

    /// Every total fits the machine word that stores it.
    pub proof fn lemma_bounded(&self)
        ensures
            self@ <= u64::MAX,
    {
    }

    /// Adds `n` to the total.
    pub fn increment_by(&mut self, n: u64)
        requires
            old(self)@ + n <= u64::MAX,
        ensures
            final(self)@ == old(self)@ + n,
    {
        self.value = self.value + n;
    }

    /// Adds `n` to the total unless the sum would leave the machine word, in
    /// which case the counter is left as it was and `false` is returned.
    pub fn try_increment_by(&mut self, n: u64) -> (done: bool)
        ensures
            done <==> old(self)@ + n <= u64::MAX,
            done ==> final(self)@ == old(self)@ + n,
            !done ==> final(self)@ == old(self)@,
    {
        match self.value.checked_add(n) {
            Some(v) => {
                self.value = v;
                true
            },
            None => false,
        }
    }

    /// Applies the whole batch of `worker`, one increment at a time, unless
    /// the total would leave the machine word, in which case nothing is done
    /// and `false` is returned.
    pub fn try_run(&mut self, worker: &Worker) -> (done: bool)
        ensures
            done <==> old(self)@ + worker.repetitions <= u64::MAX,
            done ==> final(self)@ == old(self)@ + worker.repetitions,
            !done ==> final(self)@ == old(self)@,
    {
        if self.value > u64::MAX - worker.repetitions {
            false
        } else {
            worker.run(self);
            true
        }
    }

    /// The current total.
    pub fn snapshot(&self) -> (v: u64)
        ensures
            v == self@,
    {
        self.value
    }
}

/// The successor of `count`: one increment applied to a plain value.
pub fn increment(count: u64) -> (next: u64)
    requires
        count < u64::MAX,
    ensures
        next == count + 1,
{
    count + 1
}

} // verus!
