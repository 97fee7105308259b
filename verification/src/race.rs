//! Executions without any guard: every increment is a load into the
//! worker's own register and, some time later, a store of that register plus
//! one. Other workers may run in between, and then updates are lost.

use vstd::prelude::*;

verus! {

/// One half of an unguarded increment.
#[derive(Clone, Copy, Debug, PartialEq, Eq, Structural)]
pub enum RacyStep {
    /// The worker copies the shared total into its register.
    Load(usize),
    /// The worker writes its register plus one to the shared total.
    Store(usize),
}

/// The shared total and the register of each worker.
pub struct RacyState {
    pub cell: nat,
    pub registers: Seq<nat>,
}

/// The state before the first step: everything is zero.
pub open spec fn racy_start(workers: nat) -> RacyState {
    RacyState { cell: 0, registers: Seq::new(workers, |w: int| 0nat) }
}

/// The effect of one step. A step of a worker that does not exist changes
/// nothing.
pub open spec fn racy_step(s: RacyState, step: RacyStep) -> RacyState {
    match step {
        RacyStep::Load(w) => if w < s.registers.len() {
            RacyState { cell: s.cell, registers: s.registers.update(w as int, s.cell) }
        } else {
            s
        },
        RacyStep::Store(w) => if w < s.registers.len() {
            RacyState { cell: s.registers[w as int] + 1, registers: s.registers }
        } else {
            s
        },
    }
}

/// The state after all steps, taken in order, from state `s`.
pub open spec fn racy_from(s: RacyState, steps: Seq<RacyStep>) -> RacyState
    decreases steps.len(),
{
    if steps.len() == 0 {
        s
    } else {
        racy_step(racy_from(s, steps.drop_last()), steps.last())
    }
}

/// The state after all steps of the schedule, from the start.
pub open spec fn racy_run(workers: nat, steps: Seq<RacyStep>) -> RacyState {
    racy_from(racy_start(workers), steps)
}

/// How many of the steps are stores of an existing worker.
pub open spec fn stores(workers: nat, steps: Seq<RacyStep>) -> nat
    decreases steps.len(),
{
    if steps.len() == 0 {
        0
    } else {
        stores(workers, steps.drop_last()) + (match steps.last() {
            RacyStep::Store(w) => if w < workers {
                1nat
            } else {
                0nat
            },
            RacyStep::Load(w) => 0nat,
        })
    }
}

/// Updates are lost, never invented: the total and every register stay at or
/// below the number of stores so far, which is at most the number of steps.
pub proof fn lemma_racy_bounded(workers: nat, steps: Seq<RacyStep>)
    ensures
        racy_run(workers, steps).registers.len() == workers,
        racy_run(workers, steps).cell <= stores(workers, steps) <= steps.len(),
        forall|w: int|
            0 <= w < workers ==> #[trigger] racy_run(workers, steps).registers[w] <= stores(
                workers,
                steps,
            ),
    decreases steps.len(),
{
    if steps.len() > 0 {
        lemma_racy_bounded(workers, steps.drop_last());
    }
}

/// An increment that nobody interrupts adds exactly one.
pub proof fn lemma_uninterrupted_increment(s: RacyState, w: usize)
    requires
        w < s.registers.len(),
    ensures
        racy_step(racy_step(s, RacyStep::Load(w)), RacyStep::Store(w)).cell == s.cell + 1,
{
}

/// The lost update: when two different workers both load before either of
/// them stores, two increments raise the total by one only.
pub proof fn lemma_lost_update(s: RacyState, a: usize, b: usize)
    requires
        a < s.registers.len(),
        b < s.registers.len(),
        a != b,
    ensures
        racy_step(
            racy_step(racy_step(racy_step(s, RacyStep::Load(a)), RacyStep::Load(b)), RacyStep::Store(a)),
            RacyStep::Store(b),
        ).cell == s.cell + 1,
{
}

/// Every one of the first `n` workers loads, in the order of their numbers.
pub open spec fn all_load(n: nat) -> Seq<RacyStep>
    decreases n,
{
    if n == 0 {
        Seq::empty()
    } else {
        all_load((n - 1) as nat).push(RacyStep::Load((n - 1) as usize))
    }
}

/// Every one of the first `n` workers stores, in the order of their numbers.
pub open spec fn all_store(n: nat) -> Seq<RacyStep>
    decreases n,
{
    if n == 0 {
        Seq::empty()
    } else {
        all_store((n - 1) as nat).push(RacyStep::Store((n - 1) as usize))
    }
}

/// One increment of each of `n` workers, with every load before any store.
pub open spec fn colliding_round(n: nat) -> Seq<RacyStep> {
    all_load(n) + all_store(n)
}

/// One increment of each of `n` workers, none of them interrupted.
pub open spec fn orderly_round(n: nat) -> Seq<RacyStep>
    decreases n,
{
    if n == 0 {
        Seq::empty()
    } else {
        orderly_round((n - 1) as nat) + seq![
            RacyStep::Load((n - 1) as usize),
            RacyStep::Store((n - 1) as usize),
        ]
    }
}

/// The round, `times` times over.
pub open spec fn repeated(round: Seq<RacyStep>, times: nat) -> Seq<RacyStep>
    decreases times,
{
    if times == 0 {
        Seq::empty()
    } else {
        repeated(round, (times - 1) as nat) + round
    }
}

/// Running one schedule after another is running their concatenation.
pub proof fn lemma_from_concat(s: RacyState, a: Seq<RacyStep>, b: Seq<RacyStep>)
    ensures
        racy_from(s, a + b) == racy_from(racy_from(s, a), b),
    decreases b.len(),
{
    if b.len() == 0 {
        assert(a + b =~= a);
    } else {
        assert((a + b).drop_last() =~= a + b.drop_last());
        assert((a + b).last() == b.last());
        lemma_from_concat(s, a, b.drop_last());
    }
}

/// After the first `n` workers have loaded, each of them holds the total in
/// its register, and the total is as it was.
pub proof fn lemma_all_load(s: RacyState, n: nat)
    requires
        n <= s.registers.len() <= usize::MAX,
    ensures
        racy_from(s, all_load(n)).cell == s.cell,
        racy_from(s, all_load(n)).registers.len() == s.registers.len(),
        forall|w: int| 0 <= w < n ==> racy_from(s, all_load(n)).registers[w] == s.cell,
    decreases n,
{
    if n > 0 {
        let front = all_load((n - 1) as nat);
        lemma_all_load(s, (n - 1) as nat);
        assert(all_load(n).drop_last() =~= front);
        assert(all_load(n).last() == RacyStep::Load((n - 1) as usize));
    }
}

/// When the first `n >= 1` workers all hold `seen` in their registers and
/// then all store, the total is `seen + 1`: all but one update are lost.
pub proof fn lemma_all_store(s: RacyState, n: nat, seen: nat)
    requires
        1 <= n <= s.registers.len() <= usize::MAX,
        forall|w: int| 0 <= w < n ==> s.registers[w] == seen,
    ensures
        racy_from(s, all_store(n)).cell == seen + 1,
        racy_from(s, all_store(n)).registers == s.registers,
    decreases n,
{
    let front = all_store((n - 1) as nat);
    assert(all_store(n).drop_last() =~= front);
    assert(all_store(n).last() == RacyStep::Store((n - 1) as usize));
    if n > 1 {
        lemma_all_store(s, (n - 1) as nat, seen);
    } else {
        assert(racy_from(s, front) == s);
    }
}

/// A colliding round of all workers adds one to the total, however many
/// workers there are.
pub proof fn lemma_colliding_round(s: RacyState, n: nat)
    requires
        1 <= n == s.registers.len() <= usize::MAX,
    ensures
        racy_from(s, colliding_round(n)).cell == s.cell + 1,
        racy_from(s, colliding_round(n)).registers.len() == n,
{
    lemma_from_concat(s, all_load(n), all_store(n));
    lemma_all_load(s, n);
    lemma_all_store(racy_from(s, all_load(n)), n, s.cell);
}

/// An orderly round of the first `n` workers adds `n` to the total.
pub proof fn lemma_orderly_round(s: RacyState, n: nat)
    requires
        n <= s.registers.len() <= usize::MAX,
    ensures
        racy_from(s, orderly_round(n)).cell == s.cell + n,
        racy_from(s, orderly_round(n)).registers.len() == s.registers.len(),
    decreases n,
{
    if n > 0 {
        let front = orderly_round((n - 1) as nat);
        let load = RacyStep::Load((n - 1) as usize);
        let store = RacyStep::Store((n - 1) as usize);
        let pair = seq![load, store];
        lemma_orderly_round(s, (n - 1) as nat);
        lemma_from_concat(s, front, pair);
        let t = racy_from(s, front);
        assert(pair.drop_last() =~= seq![load]);
        assert(pair.last() == store);
        assert(pair.drop_last().drop_last() =~= Seq::<RacyStep>::empty());
        assert(pair.drop_last().last() == load);
        assert(racy_from(t, pair.drop_last().drop_last()) == t);
        assert(racy_from(t, pair.drop_last()) == racy_step(t, load));
        assert(racy_from(t, pair) == racy_step(racy_step(t, load), store));
    }
}

/// After `times` colliding rounds the total has grown by `times` only.
pub proof fn lemma_colliding_rounds(s: RacyState, n: nat, times: nat)
    requires
        1 <= n == s.registers.len() <= usize::MAX,
    ensures
        racy_from(s, repeated(colliding_round(n), times)).cell == s.cell + times,
        racy_from(s, repeated(colliding_round(n), times)).registers.len() == n,
    decreases times,
{
    if times > 0 {
        let front = repeated(colliding_round(n), (times - 1) as nat);
        lemma_colliding_rounds(s, n, (times - 1) as nat);
        lemma_from_concat(s, front, colliding_round(n));
        lemma_colliding_round(racy_from(s, front), n);
    }
}

/// After `times` orderly rounds the total has grown by `times * n`.
pub proof fn lemma_orderly_rounds(s: RacyState, n: nat, times: nat)
    requires
        n == s.registers.len() <= usize::MAX,
    ensures
        racy_from(s, repeated(orderly_round(n), times)).cell == s.cell + times * n,
        racy_from(s, repeated(orderly_round(n), times)).registers.len() == n,
    decreases times,
{
    if times > 0 {
        let front = repeated(orderly_round(n), (times - 1) as nat);
        lemma_orderly_rounds(s, n, (times - 1) as nat);
        lemma_from_concat(s, front, orderly_round(n));
        lemma_orderly_round(racy_from(s, front), n);
        assert((times - 1) * n + n == times * n) by (nonlinear_arith);
    } else {
        assert(times * n == 0) by (nonlinear_arith)
            requires
                times == 0,
        ;
    }
}

/// The total depends on the schedule. For two workers or more with at least
/// one repetition each, there are two schedules of the very same work, every
/// worker doing all of its repetitions in both, of which one arrives at the
/// full total and the other at less: at the number of repetitions, as if
/// there had been a single worker.
pub proof fn lemma_totals_vary(workers: nat, repetitions: nat)
    requires
        2 <= workers <= usize::MAX,
        repetitions >= 1,
    ensures
        racy_run(workers, repeated(orderly_round(workers), repetitions)).cell == workers
            * repetitions,
        racy_run(workers, repeated(colliding_round(workers), repetitions)).cell == repetitions,
        repetitions < workers * repetitions,
{
    lemma_orderly_rounds(racy_start(workers), workers, repetitions);
    lemma_colliding_rounds(racy_start(workers), workers, repetitions);
    assert(repetitions * workers == workers * repetitions) by (nonlinear_arith);
    assert(repetitions < workers * repetitions) by (nonlinear_arith)
        requires
            2 <= workers,
            repetitions >= 1,
    ;
}

/// Replays the schedule for `workers` workers on a total that starts at zero
/// and returns the total that is left at the end.
pub fn replay_racy(workers: usize, steps: &Vec<RacyStep>) -> (total: u64)
    ensures
        total == racy_run(workers as nat, steps@).cell,
        total <= stores(workers as nat, steps@),
{
    let mut registers: Vec<u64> = Vec::new();
    let mut w: usize = 0;
    while w < workers
        invariant
            w <= workers,
            registers@.len() == w,
            forall|j: int| 0 <= j < w ==> registers@[j] == 0,
        decreases workers - w,
    {
        registers.push(0);
        w = w + 1;
    }
    let mut cell: u64 = 0;
    let mut i: usize = 0;
    proof {
        assert(steps@.take(0) =~= Seq::<RacyStep>::empty());
        assert(racy_run(workers as nat, steps@.take(0)).registers =~= Seq::new(
            workers as nat,
            |w: int| 0nat,
        ));
    }
    while i < steps.len()
        invariant
            i <= steps.len(),
            registers@.len() == workers,
            cell == racy_run(workers as nat, steps@.take(i as int)).cell,
            racy_run(workers as nat, steps@.take(i as int)).registers.len() == workers,
            forall|j: int|
                0 <= j < workers ==> registers@[j] == racy_run(
                    workers as nat,
                    steps@.take(i as int),
                ).registers[j],
        decreases steps.len() - i,
    {
        proof {
            lemma_racy_bounded(workers as nat, steps@.take(i as int));
            assert(steps@.take(i + 1).drop_last() =~= steps@.take(i as int));
        }
        match steps[i] {
            RacyStep::Load(w) => {
                if w < workers {
                    registers[w] = cell;
                }
            },
            RacyStep::Store(w) => {
                if w < workers {
                    cell = registers[w] + 1;
                }
            },
        }
        i = i + 1;
    }
    proof {
        assert(steps@.take(i as int) =~= steps@);
        lemma_racy_bounded(workers as nat, steps@);
    }
    cell
}

} // verus!
