//! Executions under a lock: a trace of accesses to the shared total, each of
//! which happens as a whole. Under mutual exclusion every concurrent run is
//! equivalent to one such trace, whatever the order in which workers got in.

use vstd::prelude::*;

verus! {

/// One access to the shared total.
#[derive(Clone, Copy, Debug, PartialEq, Eq, Structural)]
pub enum Access {
    /// `worker` added `amount` while holding exclusive access.
    Commit { worker: u64, amount: u64 },
    /// Somebody read the total while holding shared access.
    Snapshot,
}

/// What one access adds to the total.
pub open spec fn gain(a: Access) -> nat {
    match a {
        Access::Commit { worker, amount } => amount as nat,
        Access::Snapshot => 0,
    }
}

/// What one access adds to the share of `worker`.
pub open spec fn gain_of(a: Access, worker: nat) -> nat {
    match a {
        Access::Commit { worker: w, amount } => if w == worker {
            amount as nat
        } else {
            0
        },
        Access::Snapshot => 0,
    }
}

/// The total after every access of the trace has happened.
pub open spec fn committed(trace: Seq<Access>) -> nat
    decreases trace.len(),
{
    if trace.len() == 0 {
        0
    } else {
        committed(trace.drop_last()) + gain(trace.last())
    }
}

/// The part of the total that `worker` added.
pub open spec fn contributed(trace: Seq<Access>, worker: nat) -> nat
    decreases trace.len(),
{
    if trace.len() == 0 {
        0
    } else {
        contributed(trace.drop_last(), worker) + gain_of(trace.last(), worker)
    }
}

/// The values that the snapshots of the trace saw, in order.
pub open spec fn observed(trace: Seq<Access>) -> Seq<nat>
    decreases trace.len(),
{
    if trace.len() == 0 {
        Seq::empty()
    } else if trace.last() == Access::Snapshot {
        observed(trace.drop_last()).push(committed(trace.drop_last()))
    } else {
        observed(trace.drop_last())
    }
}

/// Whether every commit of the trace comes from one of the first `workers`
/// workers.
pub open spec fn only_workers_below(trace: Seq<Access>, workers: nat) -> bool {
    forall|i: int|
        0 <= i < trace.len() ==> match #[trigger] trace[i] {
            Access::Commit { worker, amount } => worker < workers,
            Access::Snapshot => true,
        }
}

/// What the first `workers` workers added together.
pub open spec fn contributed_below(trace: Seq<Access>, workers: nat) -> nat
    decreases workers,
{
    if workers == 0 {
        0
    } else {
        contributed_below(trace, (workers - 1) as nat) + contributed(trace, (workers - 1) as nat)
    }
}

/// The result of replaying a trace.
pub struct Replay {
    /// The total after the last access.
    pub total: u64,
    /// What each snapshot saw, in order.
    pub snapshots: Vec<u64>,
}

/// Replays the trace on a fresh total. `None` when the total leaves the
/// machine word at some commit.
pub fn replay(trace: &Vec<Access>) -> (r: Option<Replay>)
    ensures
        r.is_some() <==> committed(trace@) <= u64::MAX,
        r.is_some() ==> {
            let out = r.unwrap();
            &&& out.total == committed(trace@)
            &&& out.snapshots@.len() == observed(trace@).len()
            &&& forall|i: int|
                0 <= i < out.snapshots@.len() ==> out.snapshots@[i] == observed(trace@)[i]
        },
{
    let mut total: u64 = 0;
    let mut snapshots: Vec<u64> = Vec::new();
    let mut i: usize = 0;
    while i < trace.len()
        invariant
            i <= trace.len(),
            total == committed(trace@.take(i as int)),
            snapshots@.len() == observed(trace@.take(i as int)).len(),
            forall|k: int|
                0 <= k < snapshots@.len() ==> snapshots@[k] == observed(trace@.take(i as int))[k],
        decreases trace.len() - i,
    {
        proof {
            assert(trace@.take(i + 1).drop_last() =~= trace@.take(i as int));
            lemma_committed_monotone(trace@, i + 1, trace@.len() as int);
            assert(trace@.take(trace@.len() as int) =~= trace@);
        }
        match trace[i] {
            Access::Commit { worker, amount } => {
                match total.checked_add(amount) {
                    Some(next) => {
                        total = next;
                    },
                    None => {
                        return None;
                    },
                }
            },
            Access::Snapshot => {
                snapshots.push(total);
            },
        }
        i = i + 1;
    }
    proof {
        assert(trace@.take(i as int) =~= trace@);
    }
    Some(Replay { total, snapshots })
}

/// The total never goes down: what is committed after `j` accesses is at
/// least what was committed after `i <= j` of them.
pub proof fn lemma_committed_monotone(trace: Seq<Access>, i: int, j: int)
    requires
        0 <= i <= j <= trace.len(),
    ensures
        committed(trace.take(i)) <= committed(trace.take(j)),
    decreases j - i,
{
    if i < j {
        assert(trace.take(j).drop_last() =~= trace.take(j - 1));
        lemma_committed_monotone(trace, i, j - 1);
    }
}

/// Every value that a snapshot saw is the total after some number of the
/// trace's accesses: a snapshot sees committed totals only.
pub proof fn lemma_snapshot_sees_committed(trace: Seq<Access>, s: int) -> (at: int)
    requires
        0 <= s < observed(trace).len(),
    ensures
        0 <= at <= trace.len(),
        observed(trace)[s] == committed(trace.take(at)),
    decreases trace.len(),
{
    let front = trace.drop_last();
    if trace.last() == Access::Snapshot && s == observed(front).len() {
        assert(trace.take(trace.len() - 1) =~= front);
        trace.len() - 1
    } else {
        let at = lemma_snapshot_sees_committed(front, s);
        assert(front.take(at) =~= trace.take(at));
        at
    }
}

/// No torn reads: no snapshot sees a value strictly between two consecutive
/// committed totals, that is between the total after `k` accesses and the
/// total after `k + 1` of them.
pub proof fn lemma_no_torn_read(trace: Seq<Access>, s: int, k: int)
    requires
        0 <= s < observed(trace).len(),
        0 <= k < trace.len(),
    ensures
        !(committed(trace.take(k)) < observed(trace)[s] < committed(trace.take(k + 1))),
{
    let at = lemma_snapshot_sees_committed(trace, s);
    if at <= k {
        lemma_committed_monotone(trace, at, k);
    } else {
        lemma_committed_monotone(trace, k + 1, at);
    }
}

/// One more access adds its gain to the joint share of the first `workers`
/// workers if it is a commit of one of them, and nothing otherwise.
pub proof fn lemma_below_push(trace: Seq<Access>, a: Access, workers: nat)
    ensures
        contributed_below(trace.push(a), workers) == contributed_below(trace, workers) + (match a {
            Access::Commit { worker, amount } => if worker < workers {
                amount as nat
            } else {
                0
            },
            Access::Snapshot => 0,
        }),
    decreases workers,
{
    if workers > 0 {
        lemma_below_push(trace, a, (workers - 1) as nat);
        assert(trace.push(a).drop_last() =~= trace);
    }
}

/// The total is the sum of the shares of the workers that took part.
pub proof fn lemma_total_is_sum_of_shares(trace: Seq<Access>, workers: nat)
    requires
        only_workers_below(trace, workers),
    ensures
        committed(trace) == contributed_below(trace, workers),
    decreases trace.len(),
{
    if trace.len() == 0 {
        lemma_below_empty(trace, workers);
    } else {
        let front = trace.drop_last();
        assert(only_workers_below(front, workers)) by {
            assert forall|i: int| 0 <= i < front.len() implies match #[trigger] front[i] {
                Access::Commit { worker, amount } => worker < workers,
                Access::Snapshot => true,
            } by {
                assert(front[i] == trace[i]);
            }
        }
        lemma_total_is_sum_of_shares(front, workers);
        lemma_below_push(front, trace.last(), workers);
        assert(front.push(trace.last()) =~= trace);
        assert(trace[trace.len() - 1] == trace.last());
    }
}

/// Nobody has added anything in the empty trace.
pub proof fn lemma_below_empty(trace: Seq<Access>, workers: nat)
    requires
        trace.len() == 0,
    ensures
        contributed_below(trace, workers) == 0,
    decreases workers,
{
    if workers > 0 {
        lemma_below_empty(trace, (workers - 1) as nat);
    }
}

/// When each of the first `workers` workers has added `each`, together they
/// have added `workers * each`.
pub proof fn lemma_equal_shares(trace: Seq<Access>, workers: nat, each: nat)
    requires
        forall|w: nat| w < workers ==> contributed(trace, w) == each,
    ensures
        contributed_below(trace, workers) == workers * each,
    decreases workers,
{
    if workers > 0 {
        let rest = (workers - 1) as nat;
        lemma_equal_shares(trace, rest, each);
        assert(contributed(trace, rest) == each);
        assert(rest * each + each == workers * each) by (nonlinear_arith)
            requires
                rest + 1 == workers,
        ;
    } else {
        assert(workers * each == 0) by (nonlinear_arith)
            requires
                workers == 0,
        ;
    }
}

/// Under a lock no update is lost: in every trace in which each of `workers`
/// workers commits `each` increments in all, in whatever pieces and in
/// whatever order, and nobody else commits, the total is `workers * each`.
pub proof fn lemma_locked_total(trace: Seq<Access>, workers: nat, each: nat)
    requires
        only_workers_below(trace, workers),
        forall|w: nat| w < workers ==> contributed(trace, w) == each,
    ensures
        committed(trace) == workers * each,
{
    lemma_total_is_sum_of_shares(trace, workers);
    lemma_equal_shares(trace, workers, each);
}

/// Whether every commit of the trace adds exactly `batch`: each worker holds
/// exclusive access for its whole batch and commits it as one.
pub open spec fn whole_batches(trace: Seq<Access>, batch: nat) -> bool {
    forall|i: int|
        0 <= i < trace.len() ==> match #[trigger] trace[i] {
            Access::Commit { worker, amount } => amount == batch,
            Access::Snapshot => true,
        }
}

/// How many of the accesses are commits.
pub open spec fn commits(trace: Seq<Access>) -> nat
    decreases trace.len(),
{
    if trace.len() == 0 {
        0
    } else {
        commits(trace.drop_last()) + (if trace.last() is Commit {
            1nat
        } else {
            0nat
        })
    }
}

/// When every commit is a whole batch, the total is the number of commits
/// times the batch.
pub proof fn lemma_whole_batches_total(trace: Seq<Access>, batch: nat)
    requires
        whole_batches(trace, batch),
    ensures
        committed(trace) == commits(trace) * batch,
    decreases trace.len(),
{
    if trace.len() == 0 {
        assert(commits(trace) * batch == 0) by (nonlinear_arith)
            requires
                commits(trace) == 0,
        ;
    } else {
        let front = trace.drop_last();
        assert forall|i: int| 0 <= i < front.len() implies match #[trigger] front[i] {
            Access::Commit { worker, amount } => amount == batch,
            Access::Snapshot => true,
        } by {
            assert(front[i] == trace[i]);
        }
        lemma_whole_batches_total(front, batch);
        assert(trace[trace.len() - 1] == trace.last());
        let n = commits(front);
        assert((n + 1) * batch == n * batch + batch) by (nonlinear_arith);
    }
}

/// A worker's share only grows: after the first `k` accesses it is at most
/// what it is after all of them.
pub proof fn lemma_share_monotone(trace: Seq<Access>, k: int, worker: nat)
    requires
        0 <= k <= trace.len(),
    ensures
        contributed(trace.take(k), worker) <= contributed(trace, worker),
    decreases trace.len() - k,
{
    if k < trace.len() {
        assert(trace.take(k + 1).drop_last() =~= trace.take(k));
        lemma_share_monotone(trace, k + 1, worker);
    } else {
        assert(trace.take(k) =~= trace);
    }
}

/// When none of the first `workers` workers has added more than `each`,
/// together they have added at most `workers * each`.
pub proof fn lemma_bounded_shares(trace: Seq<Access>, workers: nat, each: nat)
    requires
        forall|w: nat| w < workers ==> contributed(trace, w) <= each,
    ensures
        contributed_below(trace, workers) <= workers * each,
    decreases workers,
{
    if workers > 0 {
        let rest = (workers - 1) as nat;
        lemma_bounded_shares(trace, rest, each);
        assert(contributed(trace, rest) <= each);
        assert(rest * each + each == workers * each) by (nonlinear_arith)
            requires
                rest + 1 == workers,
        ;
    } else {
        assert(workers * each == 0) by (nonlinear_arith)
            requires
                workers == 0,
        ;
    }
}

/// Between writers the total is whole: in a run in which each worker commits
/// its batch as one and at most once, the total after any number of accesses
/// is a multiple of the batch, namely the number of batches committed so
/// far, and at most the total of all workers.
pub proof fn lemma_between_writers(trace: Seq<Access>, workers: nat, batch: nat, k: int)
    requires
        only_workers_below(trace, workers),
        whole_batches(trace, batch),
        forall|w: nat| w < workers ==> contributed(trace, w) <= batch,
        0 <= k <= trace.len(),
    ensures
        committed(trace.take(k)) == commits(trace.take(k)) * batch,
        committed(trace.take(k)) <= workers * batch,
{
    let prefix = trace.take(k);
    assert forall|i: int| 0 <= i < prefix.len() implies match #[trigger] prefix[i] {
        Access::Commit { worker, amount } => amount == batch && worker < workers,
        Access::Snapshot => true,
    } by {
        assert(prefix[i] == trace[i]);
    }
    assert(whole_batches(prefix, batch));
    assert(only_workers_below(prefix, workers));
    lemma_whole_batches_total(prefix, batch);
    assert forall|w: nat| w < workers implies contributed(prefix, w) <= batch by {
        lemma_share_monotone(trace, k, w);
    }
    lemma_total_is_sum_of_shares(prefix, workers);
    lemma_bounded_shares(prefix, workers, batch);
}

/// What a snapshot sees in such a run is a whole number of batches, and at
/// most the total of all workers.
pub proof fn lemma_snapshot_sees_whole_batches(
    trace: Seq<Access>,
    workers: nat,
    batch: nat,
    s: int,
) -> (batches: nat)
    requires
        only_workers_below(trace, workers),
        whole_batches(trace, batch),
        forall|w: nat| w < workers ==> contributed(trace, w) <= batch,
        0 <= s < observed(trace).len(),
    ensures
        observed(trace)[s] == batches * batch,
        observed(trace)[s] <= workers * batch,
{
    let at = lemma_snapshot_sees_committed(trace, s);
    lemma_between_writers(trace, workers, batch, at);
    commits(trace.take(at))
}

} // verus!
