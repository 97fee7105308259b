//! Admission to the shared total: who may be inside, and a counter that can
//! only be reached through that admission. The lock state decides; whoever is
//! refused waits outside and asks again.

use crate::counter::Counter;
use crate::worker::Worker;
use vstd::prelude::*;

verus! {

/// Who is inside. With writers only this is the exclusive lock; with readers
/// too it is the reader-writer lock.
#[derive(Clone, Copy, Debug, PartialEq, Eq, Structural)]
pub struct Admission {
    /// The worker that holds exclusive access, if any.
    pub writer: Option<u64>,
    /// How many hold shared access.
    pub readers: u64,
    /// Whether a writer was refused since the last writer got in. While it
    /// is set no new reader gets in, so that readers cannot keep a writer
    /// out for ever.
    pub writer_waiting: bool,
}

impl Admission {
    /// A writer is never inside together with readers.
    pub open spec fn wf(self) -> bool {
        self.writer.is_some() ==> self.readers == 0
    }

    /// Nobody inside, nobody waiting.
    pub open spec fn vacant() -> Admission {
        Admission { writer: None, readers: 0, writer_waiting: false }
    }

    /// Whether `worker` holds exclusive access.
    pub open spec fn held_by(self, worker: u64) -> bool {
        self.writer == Some(worker)
    }

    pub fn new() -> (g: Admission)
        ensures
            g == Admission::vacant(),
            g.wf(),
    {
        Admission { writer: None, readers: 0, writer_waiting: false }
    }

    /// Whether `worker` holds exclusive access.
    pub fn is_held_by(&self, worker: u64) -> (held: bool)
        ensures
            held == self.held_by(worker),
    {
        match self.writer {
            Some(w) => w == worker,
            None => false,
        }
    }

    /// `worker` asks for exclusive access. It gets in exactly when nobody is
    /// inside; a writer that is refused is remembered as waiting.
    pub fn try_write(&mut self, worker: u64) -> (entered: bool)
        ensures
            entered <==> old(self).writer.is_none() && old(self).readers == 0,
            entered ==> *final(self) == (Admission {
                writer: Some(worker),
                readers: 0,
                writer_waiting: false,
            }),
            !entered ==> *final(self) == (Admission { writer_waiting: true, ..*old(self) }),
            old(self).wf() ==> final(self).wf(),
    {
        if self.writer.is_none() && self.readers == 0 {
            self.writer = Some(worker);
            self.writer_waiting = false;
            true
        } else {
            self.writer_waiting = true;
            false
        }
    }

    /// `worker` gives exclusive access back. Nothing changes unless it is the
    /// one that holds it.
    pub fn release_write(&mut self, worker: u64) -> (released: bool)
        ensures
            released <==> old(self).held_by(worker),
            released ==> *final(self) == (Admission { writer: None, ..*old(self) }),
            !released ==> *final(self) == *old(self),
            old(self).wf() ==> final(self).wf(),
    {
        if self.is_held_by(worker) {
            self.writer = None;
            true
        } else {
            false
        }
    }

    /// `worker` turns its exclusive access into shared access without
    /// letting anybody in between. Nothing changes unless it is the one that
    /// holds exclusive access (and the count of readers fits).
    pub fn downgrade(&mut self, worker: u64) -> (done: bool)
        ensures
            done <==> old(self).held_by(worker) && old(self).readers < u64::MAX,
            done ==> *final(self) == (Admission {
                writer: None,
                readers: (old(self).readers + 1) as u64,
                ..*old(self)
            }),
            !done ==> *final(self) == *old(self),
            old(self).wf() ==> final(self).wf(),
    {
        if self.is_held_by(worker) && self.readers < u64::MAX {
            self.writer = None;
            self.readers = self.readers + 1;
            true
        } else {
            false
        }
    }

    /// Somebody asks for shared access. They get in exactly when no writer
    /// is inside and no writer is waiting (and the count of readers fits).
    pub fn try_read(&mut self) -> (entered: bool)
        ensures
            entered <==> old(self).writer.is_none() && !old(self).writer_waiting && old(
                self,
            ).readers < u64::MAX,
            entered ==> *final(self) == (Admission {
                readers: (old(self).readers + 1) as u64,
                ..*old(self)
            }),
            !entered ==> *final(self) == *old(self),
            old(self).wf() ==> final(self).wf(),
    {
        if self.writer.is_none() && !self.writer_waiting && self.readers < u64::MAX {
            self.readers = self.readers + 1;
            true
        } else {
            false
        }
    }

    /// One reader gives shared access back. Nothing changes when there is
    /// none.
    pub fn release_read(&mut self) -> (released: bool)
        ensures
            released <==> old(self).readers > 0,
            released ==> *final(self) == (Admission {
                readers: (old(self).readers - 1) as u64,
                ..*old(self)
            }),
            !released ==> *final(self) == *old(self),
            old(self).wf() ==> final(self).wf(),
    {
        if self.readers > 0 {
            self.readers = self.readers - 1;
            true
        } else {
            false
        }
    }
}

/// One request for access.
#[derive(Clone, Copy, Debug, PartialEq, Eq, Structural)]
pub enum Request {
    /// This worker asks for exclusive access.
    TryWrite(u64),
    /// This worker gives exclusive access back.
    ReleaseWrite(u64),
    /// This worker turns its exclusive access into shared access.
    Downgrade(u64),
    /// Somebody asks for shared access.
    TryRead,
    /// A reader gives shared access back.
    ReleaseRead,
}

impl Admission {
    /// Whether the request is granted in this state.
    pub open spec fn grants(self, op: Request) -> bool {
        match op {
            Request::TryWrite(_) => self.writer.is_none() && self.readers == 0,
            Request::ReleaseWrite(worker) => self.held_by(worker),
            Request::Downgrade(worker) => self.held_by(worker) && self.readers < u64::MAX,
            Request::TryRead => self.writer.is_none() && !self.writer_waiting && self.readers
                < u64::MAX,
            Request::ReleaseRead => self.readers > 0,
        }
    }

    /// The state after the request.
    pub open spec fn after(self, op: Request) -> Admission {
        match op {
            Request::TryWrite(worker) => if self.grants(op) {
                Admission { writer: Some(worker), readers: 0, writer_waiting: false }
            } else {
                Admission { writer_waiting: true, ..self }
            },
            Request::ReleaseWrite(_) => if self.grants(op) {
                Admission { writer: None, ..self }
            } else {
                self
            },
            Request::Downgrade(_) => if self.grants(op) {
                Admission { writer: None, readers: (self.readers + 1) as u64, ..self }
            } else {
                self
            },
            Request::TryRead => if self.grants(op) {
                Admission { readers: (self.readers + 1) as u64, ..self }
            } else {
                self
            },
            Request::ReleaseRead => if self.grants(op) {
                Admission { readers: (self.readers - 1) as u64, ..self }
            } else {
                self
            },
        }
    }

    /// The state after all requests, taken in order.
    pub open spec fn after_all(self, ops: Seq<Request>) -> Admission
        decreases ops.len(),
    {
        if ops.len() == 0 {
            self
        } else {
            self.after_all(ops.drop_last()).after(ops.last())
        }
    }

    /// Handles one request and says whether it was granted.
    pub fn apply(&mut self, op: Request) -> (granted: bool)
        ensures
            granted == old(self).grants(op),
            *final(self) == old(self).after(op),
            old(self).wf() ==> final(self).wf(),
    {
        match op {
            Request::TryWrite(worker) => self.try_write(worker),
            Request::ReleaseWrite(worker) => self.release_write(worker),
            Request::Downgrade(worker) => self.downgrade(worker),
            Request::TryRead => self.try_read(),
            Request::ReleaseRead => self.release_read(),
        }
    }
}

/// Mutual exclusion: whatever is asked of a lock that started vacant, a
/// writer is never inside together with a reader, and there is never more
/// than one writer, for there is room for one only.
pub proof fn lemma_exclusion(ops: Seq<Request>)
    ensures
        Admission::vacant().after_all(ops).wf(),
    decreases ops.len(),
{
    if ops.len() > 0 {
        lemma_exclusion(ops.drop_last());
    }
}

/// A lock that is never given back is held for ever: as long as its holder
/// neither releases nor downgrades it, the holder stays inside, so every
/// later request for shared or exclusive access is refused.
pub proof fn lemma_held_until_released(g: Admission, holder: u64, ops: Seq<Request>)
    requires
        g.held_by(holder),
        forall|i: int|
            0 <= i < ops.len() ==> ops[i] != Request::ReleaseWrite(holder) && ops[i]
                != Request::Downgrade(holder),
    ensures
        g.after_all(ops).held_by(holder),
        forall|worker: u64| !g.after_all(ops).grants(Request::TryWrite(worker)),
        !g.after_all(ops).grants(Request::TryRead),
    decreases ops.len(),
{
    if ops.len() > 0 {
        let front = ops.drop_last();
        assert forall|i: int| 0 <= i < front.len() implies front[i] != Request::ReleaseWrite(
            holder,
        ) && front[i] != Request::Downgrade(holder) by {
            assert(front[i] == ops[i]);
        }
        lemma_held_until_released(g, holder, front);
        assert(ops.last() == ops[ops.len() - 1]);
    }
}

/// Readers cannot starve a writer: from the moment a writer was refused
/// until a writer gets in, no reader is let in, so the readers inside can
/// only leave, and once they have left the writer's next request is granted.
pub proof fn lemma_writer_not_starved(g: Admission, ops: Seq<Request>)
    requires
        g.wf(),
        g.writer.is_none(),
        g.writer_waiting,
        forall|i: int| 0 <= i < ops.len() ==> !(ops[i] is TryWrite),
    ensures
        g.after_all(ops).writer.is_none(),
        g.after_all(ops).writer_waiting,
        g.after_all(ops).readers <= g.readers,
        g.after_all(ops).readers == 0 ==> forall|worker: u64|
            g.after_all(ops).grants(Request::TryWrite(worker)),
    decreases ops.len(),
{
    if ops.len() > 0 {
        let front = ops.drop_last();
        assert forall|i: int| 0 <= i < front.len() implies !(front[i] is TryWrite) by {
            assert(front[i] == ops[i]);
        }
        lemma_writer_not_starved(g, front);
        assert(ops.last() == ops[ops.len() - 1]);
    }
}

/// Why an access to a guarded counter was refused.
#[derive(Clone, Copy, Debug, PartialEq, Eq, Structural)]
pub enum AccessError {
    /// The worker does not hold exclusive access.
    NotHolder,
    /// A write is in flight, so the total cannot be read.
    WriteInFlight,
    /// The new total would not fit the machine word.
    Overflow,
}

/// A counter behind its admission: it changes only at the hands of the worker that
/// holds exclusive access, and is read only while no write is in flight.
pub struct GuardedCounter {
    pub admission: Admission,
    pub counter: Counter,
}

impl GuardedCounter {
    /// A counter at zero with nobody inside.
    pub fn new() -> (g: GuardedCounter)
        ensures
            g.admission == Admission::vacant(),
            g.counter@ == 0,
    {
        GuardedCounter { admission: Admission::new(), counter: Counter::new() }
    }

    /// `worker` adds `n` to the total. The total changes exactly when the
    /// worker holds exclusive access and the sum fits; who is inside never changes.
    pub fn increment_by(&mut self, worker: u64, n: u64) -> (r: Result<(), AccessError>)
        ensures
            final(self).admission == old(self).admission,
            match r {
                Ok(_) => old(self).admission.held_by(worker) && final(self).counter@ == old(
                    self,
                ).counter@ + n,
                Err(e) => final(self).counter@ == old(self).counter@ && e == (if !old(
                    self,
                ).admission.held_by(worker) {
                    AccessError::NotHolder
                } else {
                    AccessError::Overflow
                }),
            },
            r.is_ok() <==> old(self).admission.held_by(worker) && old(self).counter@ + n <= u64::MAX,
    {
        if !self.admission.is_held_by(worker) {
            Err(AccessError::NotHolder)
        } else if self.counter.try_increment_by(n) {
            Ok(())
        } else {
            Err(AccessError::Overflow)
        }
    }

    /// `worker` performs its whole batch of single increments. The total
    /// changes exactly when the worker holds exclusive access and the batch
    /// fits; who is inside never changes.
    pub fn run_batch(&mut self, worker: &Worker) -> (r: Result<(), AccessError>)
        ensures
            final(self).admission == old(self).admission,
            match r {
                Ok(_) => final(self).counter@ == old(self).counter@ + worker.repetitions,
                Err(e) => final(self).counter@ == old(self).counter@ && e == (if !old(
                    self,
                ).admission.held_by(worker.worker_id) {
                    AccessError::NotHolder
                } else {
                    AccessError::Overflow
                }),
            },
            r.is_ok() <==> old(self).admission.held_by(worker.worker_id) && old(self).counter@
                + worker.repetitions <= u64::MAX,
    {
        proof {
            self.counter.lemma_bounded();
        }
        if !self.admission.is_held_by(worker.worker_id) {
            Err(AccessError::NotHolder)
        } else if self.counter.snapshot() > u64::MAX - worker.repetitions {
            Err(AccessError::Overflow)
        } else {
            worker.run(&mut self.counter);
            Ok(())
        }
    }

    /// The total, unless a write is in flight.
    pub fn snapshot(&self) -> (r: Result<u64, AccessError>)
        ensures
            r == (if self.admission.writer.is_some() {
                Err::<u64, AccessError>(AccessError::WriteInFlight)
            } else {
                Ok::<u64, AccessError>(self.counter@ as u64)
            }),
    {
        proof {
            self.counter.lemma_bounded();
        }
        if self.admission.writer.is_some() {
            Err(AccessError::WriteInFlight)
        } else {
            Ok(self.counter.snapshot())
        }
    }
}

} // verus!
