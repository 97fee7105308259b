//! Whole runs of the coordinator: scripts of events, and where they lead.

use crate::channel::{lemma_sum_of_equal_parts, lemma_sum_order_independent, sum_of};
use crate::coordinator::{capped, Action, Coordinator, Event, Phase};
use crate::harness::{verdict, Config, Outcome, Report, Strategy};
use crate::trace::{committed, contributed, lemma_locked_total, only_workers_below, Access};
use vstd::prelude::*;

verus! {

/// `n` workers come into being, one after the other.
pub open spec fn spawns(n: nat) -> Seq<Event> {
    Seq::new(n, |i: int| Event::Spawned)
}

/// The workers complete, one after the other, with these messages and after
/// these waits.
pub open spec fn completions(parts: Seq<u64>, waits: Seq<u64>) -> Seq<Event> {
    Seq::new(parts.len(), |i: int| Event::Completed { partial: parts[i], waited_ms: waits[i] })
}

/// Each worker in turn comes into being and completes before the next one.
pub open spec fn turns(parts: Seq<u64>, waits: Seq<u64>) -> Seq<Event>
    decreases parts.len(),
{
    if parts.len() == 0 {
        Seq::empty()
    } else {
        seq![
            Event::Spawned,
            Event::Completed { partial: parts.first(), waited_ms: waits.first() },
        ] + turns(parts.drop_first(), waits.drop_first())
    }
}

/// The events of a run in which all workers exist before the first signal
/// is awaited, every worker completes, and the counter then reads `total`.
pub open spec fn parallel_script(parts: Seq<u64>, waits: Seq<u64>, total: u64) -> Seq<Event> {
    seq![Event::Start] + spawns(parts.len()) + completions(parts, waits) + seq![
        Event::Observed(total),
    ]
}

/// The events of a run in which each worker is awaited before the next one
/// is created, every worker completes, and the counter then reads `total`.
pub open spec fn sequential_script(parts: Seq<u64>, waits: Seq<u64>, total: u64) -> Seq<Event> {
    seq![Event::Start] + turns(parts, waits) + seq![Event::Observed(total)]
}

/// Whether none of the events is a completion signal.
pub open spec fn no_completion(events: Seq<Event>) -> bool {
    forall|i: int| 0 <= i < events.len() ==> !(#[trigger] events[i] is Completed)
}

/// What a run reports as observed: the folded sum of the messages under
/// channel rendezvous, the value read from the counter otherwise.
pub open spec fn observed_total(strategy: Strategy, parts: Seq<u64>, total: u64) -> u64 {
    if strategy == Strategy::ChannelRendezvous {
        capped(sum_of(parts))
    } else {
        total
    }
}

/// How a run in which every worker completed is judged: under channel
/// rendezvous by the true sum of the messages, whether or not it fits the
/// machine word; otherwise by the value read from the counter.
pub open spec fn outcome_of(strategy: Strategy, parts: Seq<u64>, total: u64, expected: u64) -> Outcome {
    if strategy == Strategy::ChannelRendezvous {
        if sum_of(parts) == expected {
            Outcome::Match
        } else {
            Outcome::Mismatch
        }
    } else {
        verdict(total, expected)
    }
}

/// Whether the coordinator's books stand for messages that sum to `total`.
pub open spec fn folded(c: Coordinator, total: nat) -> bool {
    c.config.strategy == Strategy::ChannelRendezvous ==> c.received == capped(total)
        && c.overflowed == (total > u64::MAX)
}

/// Running a single event is taking one step.
pub proof fn lemma_run_one(c: Coordinator, event: Event)
    ensures
        c.run(seq![event]) == c.next(event),
{
    let one = seq![event];
    assert(one.first() == event);
    assert(one.drop_first() =~= Seq::<Event>::empty());
    assert(c.next(event).run(one.drop_first()) == c.next(event));
}

/// A run keeps its configuration and its expected total, whatever happens.
pub proof fn lemma_run_keeps_config(c: Coordinator, events: Seq<Event>)
    ensures
        c.run(events).config == c.config,
        c.run(events).expected == c.expected,
    decreases events.len(),
{
    if events.len() > 0 {
        lemma_run_keeps_config(c.next(events.first()), events.drop_first());
    }
}

/// All waits of a run together stay within the one timeout: the wait that is
/// asked for is what is left of it, a signal uses up the time it was waited
/// for and no more than was left, and the time spent never exceeds the
/// timeout.
pub proof fn lemma_wait_budget(c: Coordinator, partial: u64, waited_ms: u64)
    requires
        c.wf(),
        c.phase == Phase::AwaitingCompletion,
    ensures
        c.pending() == Action::Await(c.wait_left()),
        c.waited_ms + c.wait_left() == c.config.wait_timeout_ms,
        c.next(Event::Completed { partial, waited_ms }).waited_ms == c.waited_ms + (if waited_ms
            <= c.wait_left() {
            waited_ms
        } else {
            c.wait_left()
        }),
        c.next(Event::Completed { partial, waited_ms }).waited_ms <= c.config.wait_timeout_ms,
{
}

/// Every step leads from a state of a run to a state of a run.
pub proof fn lemma_next_keeps_wf(c: Coordinator, event: Event)
    requires
        c.wf(),
    ensures
        c.next(event).wf(),
{
}

/// So does every sequence of steps.
pub proof fn lemma_run_keeps_wf(c: Coordinator, events: Seq<Event>)
    requires
        c.wf(),
    ensures
        c.run(events).wf(),
    decreases events.len(),
{
    if events.len() > 0 {
        lemma_next_keeps_wf(c, events.first());
        lemma_run_keeps_wf(c.next(events.first()), events.drop_first());
    }
}

/// Running one script after another is running their concatenation.
pub proof fn lemma_run_concat(c: Coordinator, a: Seq<Event>, b: Seq<Event>)
    ensures
        c.run(a + b) == c.run(a).run(b),
    decreases a.len(),
{
    if a.len() == 0 {
        assert(a + b =~= b);
    } else {
        assert((a + b).first() == a.first());
        assert((a + b).drop_first() =~= a.drop_first() + b);
        lemma_run_concat(c.next(a.first()), a.drop_first(), b);
    }
}

/// A run reports once: after the report no event changes anything.
pub proof fn lemma_reported_is_final(c: Coordinator, events: Seq<Event>)
    requires
        c.phase is Reported,
    ensures
        c.run(events) == c,
    decreases events.len(),
{
    if events.len() > 0 {
        lemma_reported_is_final(c, events.drop_first());
    }
}

/// The sum of a non-empty sequence is its first message plus the sum of the
/// others.
pub proof fn lemma_sum_first(parts: Seq<u64>)
    requires
        parts.len() > 0,
    ensures
        sum_of(parts) == parts.first() + sum_of(parts.drop_first()),
    decreases parts.len(),
{
    if parts.len() == 1 {
        assert(sum_of(parts.drop_last()) == 0);
        assert(sum_of(parts.drop_first()) == 0);
    } else {
        lemma_sum_first(parts.drop_last());
        assert(parts.drop_last().drop_first() =~= parts.drop_first().drop_last());
        assert(parts.drop_last().first() == parts.first());
        assert(parts.drop_first().last() == parts.last());
    }
}

/// Outside sequential join, creating the workers that are still missing
/// leads to waiting, with all of them created.
pub proof fn lemma_spawn_all(c: Coordinator)
    requires
        c.wf(),
        c.phase == Phase::Spawning,
        c.config.strategy != Strategy::SequentialJoin,
    ensures
        c.run(spawns((c.config.worker_count - c.spawned) as nat)) == (Coordinator {
            spawned: c.config.worker_count,
            phase: Phase::AwaitingCompletion,
            ..c
        }),
    decreases c.config.worker_count - c.spawned,
{
    let missing = (c.config.worker_count - c.spawned) as nat;
    let script = spawns(missing);
    let d = c.next(Event::Spawned);
    assert(script.first() == Event::Spawned);
    assert(script.drop_first() =~= spawns((missing - 1) as nat));
    if missing == 1 {
        assert(d.run(spawns(0)) == d);
    } else {
        lemma_spawn_all(d);
    }
}

/// The state after the workers that were still running have all completed,
/// when the messages of the whole run sum to `total`.
pub open spec fn all_completed(c: Coordinator, total: nat) -> Coordinator {
    let channel = c.config.strategy == Strategy::ChannelRendezvous;
    (Coordinator {
        completed: c.config.worker_count,
        received: if channel {
            capped(total)
        } else {
            c.received
        },
        overflowed: if channel {
            total > u64::MAX
        } else {
            c.overflowed
        },
        ..c
    }).aggregate()
}

/// Outside sequential join, once every worker that was still running has
/// signalled, the coordinator has counted them all and folded their
/// messages; only the time spent waiting depends on the waits.
pub proof fn lemma_complete_all(c: Coordinator, parts: Seq<u64>, waits: Seq<u64>, base: nat)
    requires
        c.wf(),
        c.phase == Phase::AwaitingCompletion,
        c.config.strategy != Strategy::SequentialJoin,
        parts.len() == c.config.worker_count - c.completed,
        waits.len() == parts.len(),
        folded(c, base),
    ensures
        c.run(completions(parts, waits)) == (Coordinator {
            waited_ms: c.run(completions(parts, waits)).waited_ms,
            ..all_completed(c, base + sum_of(parts))
        }),
    decreases parts.len(),
{
    let script = completions(parts, waits);
    let first = Event::Completed { partial: parts.first(), waited_ms: waits.first() };
    let d = c.next(first);
    assert(script.first() == first);
    assert(script.drop_first() =~= completions(parts.drop_first(), waits.drop_first()));
    lemma_sum_first(parts);
    if parts.len() == 1 {
        assert(sum_of(parts.drop_first()) == 0);
        assert(d.run(completions(parts.drop_first(), waits.drop_first())) == d);
    } else {
        lemma_complete_all(d, parts.drop_first(), waits.drop_first(), (base + parts.first()) as nat);
    }
}

/// Under sequential join, when each missing worker in turn is created and
/// completes, the coordinator ends with all of them counted and the counter
/// still to be read.
pub proof fn lemma_take_turns(c: Coordinator, parts: Seq<u64>, waits: Seq<u64>)
    requires
        c.wf(),
        c.phase == Phase::Spawning,
        c.config.strategy == Strategy::SequentialJoin,
        parts.len() == c.config.worker_count - c.spawned,
        waits.len() == parts.len(),
    ensures
        c.run(turns(parts, waits)) == (Coordinator {
            spawned: c.config.worker_count,
            completed: c.config.worker_count,
            phase: Phase::Aggregating,
            waited_ms: c.run(turns(parts, waits)).waited_ms,
            ..c
        }),
    decreases parts.len(),
{
    let done = Event::Completed { partial: parts.first(), waited_ms: waits.first() };
    let rest = turns(parts.drop_first(), waits.drop_first());
    let e = c.next(Event::Spawned);
    let d = e.next(done);
    lemma_run_concat(c, seq![Event::Spawned, done], rest);
    assert(seq![Event::Spawned, done] =~= seq![Event::Spawned] + seq![done]);
    lemma_run_concat(c, seq![Event::Spawned], seq![done]);
    lemma_run_one(c, Event::Spawned);
    lemma_run_one(e, done);
    if parts.len() == 1 {
        assert(rest =~= Seq::<Event>::empty());
    } else {
        lemma_take_turns(d, parts.drop_first(), waits.drop_first());
    }
}

/// A run in which every worker completes is reported once the observed total
/// is in. Under channel rendezvous the observed total is the folded sum of
/// the messages, and the run is a match exactly when their true sum is the
/// expected total; otherwise the observed total is what the counter read,
/// and the run is a match exactly when that is the expected total.
pub proof fn lemma_parallel_run(config: Config, parts: Seq<u64>, waits: Seq<u64>, total: u64)
    requires
        config.fits(),
        config.strategy != Strategy::SequentialJoin,
        parts.len() == config.worker_count,
        waits.len() == parts.len(),
    ensures
        Coordinator::idle(config).run(parallel_script(parts, waits, total)).phase
            == Phase::Reported(
            Report {
                observed_total: observed_total(config.strategy, parts, total),
                expected_total: config.expected() as u64,
                outcome: outcome_of(config.strategy, parts, total, config.expected() as u64),
            },
        ),
{
    let c0 = Coordinator::idle(config);
    let start = seq![Event::Start];
    let last = seq![Event::Observed(total)];
    let c1 = c0.next(Event::Start);
    lemma_run_one(c0, Event::Start);
    lemma_run_concat(c0, start + spawns(parts.len()) + completions(parts, waits), last);
    lemma_run_concat(c0, start + spawns(parts.len()), completions(parts, waits));
    lemma_run_concat(c0, start, spawns(parts.len()));
    let c2 = c1.run(spawns(parts.len()));
    let c3 = c2.run(completions(parts, waits));
    if config.worker_count == 0 {
        assert(c2 == c1);
        assert(c3 == c2);
        assert(sum_of(parts) == 0);
    } else {
        lemma_spawn_all(c1);
        lemma_complete_all(c2, parts, waits, 0);
    }
    lemma_run_one(c3, Event::Observed(total));
}

/// The same for sequential join: the run is reported with what the counter
/// read, as a match exactly when that is the expected total.
pub proof fn lemma_sequential_run(config: Config, parts: Seq<u64>, waits: Seq<u64>, total: u64)
    requires
        config.fits(),
        config.strategy == Strategy::SequentialJoin,
        parts.len() == config.worker_count,
        waits.len() == parts.len(),
    ensures
        Coordinator::idle(config).run(sequential_script(parts, waits, total)).phase
            == Phase::Reported(
            Report {
                observed_total: total,
                expected_total: config.expected() as u64,
                outcome: verdict(total, config.expected() as u64),
            },
        ),
{
    let c0 = Coordinator::idle(config);
    let start = seq![Event::Start];
    let last = seq![Event::Observed(total)];
    let c1 = c0.next(Event::Start);
    lemma_run_one(c0, Event::Start);
    lemma_run_concat(c0, start + turns(parts, waits), last);
    lemma_run_concat(c0, start, turns(parts, waits));
    let c2 = c1.run(turns(parts, waits));
    if config.worker_count == 0 {
        assert(c2 == c1);
    } else {
        lemma_take_turns(c1, parts, waits);
    }
    lemma_run_one(c2, Event::Observed(total));
}

/// Under channel rendezvous a run in which every worker completes is a match
/// if and only if the messages truly sum to the expected total, and a
/// mismatch otherwise: a sum that has left the machine word is never a match.
pub proof fn lemma_channel_outcome(config: Config, parts: Seq<u64>, waits: Seq<u64>, total: u64)
    requires
        config.fits(),
        config.strategy == Strategy::ChannelRendezvous,
        parts.len() == config.worker_count,
        waits.len() == parts.len(),
    ensures
        ({
            let end = Coordinator::idle(config).run(parallel_script(parts, waits, total));
            &&& end.phase is Reported
            &&& end.phase->Reported_0.outcome == Outcome::Match <==> sum_of(parts)
                == config.expected()
            &&& end.phase->Reported_0.outcome == Outcome::Mismatch <==> sum_of(parts)
                != config.expected()
            &&& end.phase->Reported_0.observed_total == capped(sum_of(parts))
            &&& end.config == config
            &&& end.completed == config.worker_count
        }),
{
    let c0 = Coordinator::idle(config);
    lemma_parallel_run(config, parts, waits, total);
    lemma_run_keeps_config(c0, parallel_script(parts, waits, total));
    lemma_run_keeps_wf(c0, parallel_script(parts, waits, total));
}

/// Under channel rendezvous, when each of the workers sends its own count of
/// repetitions, the run is reported as a match with the expected total as
/// observed, whatever the counter is said to read.
pub proof fn lemma_channel_run_matches(
    config: Config,
    parts: Seq<u64>,
    waits: Seq<u64>,
    total: u64,
)
    requires
        config.fits(),
        config.strategy == Strategy::ChannelRendezvous,
        parts.len() == config.worker_count,
        waits.len() == parts.len(),
        forall|i: int| 0 <= i < parts.len() ==> parts[i] == config.repetitions_per_worker,
    ensures
        Coordinator::idle(config).run(parallel_script(parts, waits, total)).phase
            == Phase::Reported(
            Report {
                observed_total: config.expected() as u64,
                expected_total: config.expected() as u64,
                outcome: Outcome::Match,
            },
        ),
{
    lemma_parallel_run(config, parts, waits, total);
    lemma_sum_of_equal_parts(parts, config.repetitions_per_worker);
}

/// The events of a run in which every worker completes, in the shape that
/// the strategy gives it.
pub open spec fn full_script(
    strategy: Strategy,
    parts: Seq<u64>,
    waits: Seq<u64>,
    total: u64,
) -> Seq<Event> {
    if strategy == Strategy::SequentialJoin {
        sequential_script(parts, waits, total)
    } else {
        parallel_script(parts, waits, total)
    }
}

/// Under the exclusive lock, the reader-writer lock and sequential join no
/// update is lost and the run is a match: whenever every access to the
/// counter happens as a whole, each of the workers commits its repetitions,
/// in whatever pieces and order, and the coordinator reads the counter after
/// the last signal, it reports the expected total as observed.
pub proof fn lemma_guarded_run_matches(
    config: Config,
    trace: Seq<Access>,
    parts: Seq<u64>,
    waits: Seq<u64>,
)
    requires
        config.fits(),
        config.strategy == Strategy::ExclusiveLock || config.strategy == Strategy::ReadWriteLock
            || config.strategy == Strategy::SequentialJoin,
        parts.len() == config.worker_count,
        waits.len() == parts.len(),
        only_workers_below(trace, config.worker_count as nat),
        forall|w: nat|
            w < config.worker_count ==> contributed(trace, w) == config.repetitions_per_worker,
    ensures
        committed(trace) == config.expected(),
        Coordinator::idle(config).run(
            full_script(config.strategy, parts, waits, committed(trace) as u64),
        ).phase == Phase::Reported(
            Report {
                observed_total: config.expected() as u64,
                expected_total: config.expected() as u64,
                outcome: Outcome::Match,
            },
        ),
{
    lemma_locked_total(
        trace,
        config.worker_count as nat,
        config.repetitions_per_worker as nat,
    );
    let total = committed(trace) as u64;
    if config.strategy == Strategy::SequentialJoin {
        lemma_sequential_run(config, parts, waits, total);
    } else {
        lemma_parallel_run(config, parts, waits, total);
    }
}

/// The order in which the messages arrive does not matter: two runs that
/// receive the same messages in different orders are reported alike.
pub proof fn lemma_arrival_order(
    config: Config,
    a: Seq<u64>,
    b: Seq<u64>,
    waits_a: Seq<u64>,
    waits_b: Seq<u64>,
    total: u64,
)
    requires
        config.fits(),
        config.strategy != Strategy::SequentialJoin,
        a.len() == config.worker_count,
        a.to_multiset() == b.to_multiset(),
        waits_a.len() == a.len(),
        waits_b.len() == a.len(),
    ensures
        Coordinator::idle(config).run(parallel_script(a, waits_a, total)).phase
            == Coordinator::idle(config).run(parallel_script(b, waits_b, total)).phase,
{
    lemma_sum_order_independent(a, b);
    lemma_parallel_run(config, a, waits_a, total);
    lemma_parallel_run(config, b, waits_b, total);
}

/// Whether the event is what performing the action can hand back.
pub open spec fn answers(action: Action, event: Event) -> bool {
    match action {
        Action::Begin => event == Event::Start,
        Action::Spawn(_) => event == Event::Spawned,
        Action::Await(_) => event is Completed || event == Event::TimedOut || event
            == Event::WorkerFailed,
        Action::ReadCounter => event is Observed,
        Action::Emit(_) => false,
    }
}

/// An upper bound on the number of actions that are still to be performed
/// before the run is reported.
pub open spec fn steps_left(c: Coordinator) -> nat {
    match c.phase {
        Phase::Idle => 2 * c.config.worker_count as nat + 3,
        Phase::Spawning | Phase::AwaitingCompletion => ((c.config.worker_count - c.spawned) + (
        c.config.worker_count - c.completed) + 2) as nat,
        Phase::Aggregating => 1,
        Phase::Reported(_) => 0,
    }
}

/// Every run ends: as long as the surrounding program performs the action it
/// is given and hands back what came of it, each step brings the report
/// nearer, and nothing is left to do exactly when the run is reported. A run
/// of `W` workers is over after `2 * W + 3` actions at most.
pub proof fn lemma_every_answer_makes_progress(c: Coordinator, event: Event)
    requires
        c.wf(),
        answers(c.pending(), event),
    ensures
        steps_left(c.next(event)) < steps_left(c),
        steps_left(Coordinator::idle(c.config)) == 2 * c.config.worker_count + 3,
        steps_left(c) <= 2 * c.config.worker_count + 3,
        steps_left(c) == 0 <==> c.phase is Reported,
{
}

/// The states that a run with at least one worker can reach while no worker
/// has signalled completion.
pub open spec fn stuck(c: Coordinator) -> bool {
    &&& c.wf()
    &&& c.config.worker_count >= 1
    &&& c.completed == 0
    &&& match c.phase {
        Phase::Idle => true,
        Phase::Spawning => true,
        Phase::AwaitingCompletion => true,
        Phase::Aggregating => false,
        Phase::Reported(r) => r.outcome == Outcome::DeadlockSuspected || r.outcome
            == Outcome::WorkerPanic,
    }
}

/// While no worker signals completion, a run with at least one worker never
/// reports a match or a mismatch, whatever else happens: if it reports at
/// all, it reports a suspected deadlock or a failed worker.
pub proof fn lemma_no_match_without_completion(config: Config, events: Seq<Event>)
    requires
        config.fits(),
        config.worker_count >= 1,
        no_completion(events),
    ensures
        stuck(Coordinator::idle(config).run(events)),
{
    lemma_stuck_stays(Coordinator::idle(config), events);
}

/// `stuck` is kept by every event that is no completion signal.
pub proof fn lemma_stuck_stays(c: Coordinator, events: Seq<Event>)
    requires
        stuck(c),
        no_completion(events),
    ensures
        stuck(c.run(events)),
    decreases events.len(),
{
    if events.len() > 0 {
        assert(!(events[0] is Completed));
        let rest = events.drop_first();
        assert(no_completion(rest)) by {
            assert forall|i: int| 0 <= i < rest.len() implies !(#[trigger] rest[i] is Completed) by {
                assert(rest[i] == events[i + 1]);
            }
        }
        lemma_stuck_stays(c.next(events.first()), rest);
    }
}

/// The bounded wait: when the wait runs out while signals are outstanding,
/// the run is reported at once as a suspected deadlock.
pub proof fn lemma_timeout_reports_deadlock(c: Coordinator)
    requires
        c.phase == Phase::AwaitingCompletion,
    ensures
        c.next(Event::TimedOut).phase == Phase::Reported(
            Report {
                observed_total: c.received,
                expected_total: c.expected,
                outcome: Outcome::DeadlockSuspected,
            },
        ),
{
}

/// The deadlock scenario as a whole: all workers are created, none ever
/// signals, the wait runs out, and the report is a suspected deadlock.
pub proof fn lemma_deadlock_run(config: Config)
    requires
        config.fits(),
        config.worker_count >= 1,
        config.strategy != Strategy::SequentialJoin,
    ensures
        Coordinator::idle(config).run(
            seq![Event::Start] + spawns(config.worker_count as nat) + seq![Event::TimedOut],
        ).phase == Phase::Reported(
            Report {
                observed_total: 0,
                expected_total: config.expected() as u64,
                outcome: Outcome::DeadlockSuspected,
            },
        ),
{
    let c0 = Coordinator::idle(config);
    let start = seq![Event::Start];
    let last = seq![Event::TimedOut];
    let c1 = c0.next(Event::Start);
    lemma_run_one(c0, Event::Start);
    lemma_run_concat(c0, start + spawns(config.worker_count as nat), last);
    lemma_run_concat(c0, start, spawns(config.worker_count as nat));
    lemma_spawn_all(c1);
    lemma_run_one(c1.run(spawns(config.worker_count as nat)), Event::TimedOut);
}

} // verus!
