use sync_bench::race::{replay_racy, RacyStep};

#[test]
fn uninterrupted_increments_all_land() {
    let steps = vec![
        RacyStep::Load(0),
        RacyStep::Store(0),
        RacyStep::Load(1),
        RacyStep::Store(1),
        RacyStep::Load(0),
        RacyStep::Store(0),
    ];
    assert_eq!(replay_racy(2, &steps), 3);
}

#[test]
fn two_loads_before_two_stores_lose_an_update() {
    let steps = vec![
        RacyStep::Load(0),
        RacyStep::Load(1),
        RacyStep::Store(0),
        RacyStep::Store(1),
    ];
    assert_eq!(replay_racy(2, &steps), 1);
}

#[test]
fn a_stale_store_wipes_out_a_whole_batch() {
    // worker 0 loads 0, worker 1 lands three increments, worker 0 stores 1
    let mut steps = vec![RacyStep::Load(0)];
    for _ in 0..3 {
        steps.push(RacyStep::Load(1));
        steps.push(RacyStep::Store(1));
    }
    assert_eq!(replay_racy(2, &steps), 3);
    steps.push(RacyStep::Store(0));
    assert_eq!(replay_racy(2, &steps), 1);
}

#[test]
fn different_schedules_give_different_totals() {
    let fair = vec![RacyStep::Load(0), RacyStep::Store(0), RacyStep::Load(1), RacyStep::Store(1)];
    let racy = vec![RacyStep::Load(0), RacyStep::Load(1), RacyStep::Store(1), RacyStep::Store(0)];
    assert_eq!(replay_racy(2, &fair), 2);
    assert_eq!(replay_racy(2, &racy), 1);
}

#[test]
fn steps_of_workers_that_do_not_exist_change_nothing() {
    let steps = vec![RacyStep::Load(0), RacyStep::Store(0), RacyStep::Store(5), RacyStep::Load(2)];
    assert_eq!(replay_racy(2, &steps), 1);
    assert_eq!(replay_racy(0, &steps), 0);
    assert_eq!(replay_racy(3, &Vec::new()), 0);
}

#[test]
fn a_store_without_a_load_writes_one() {
    let steps = vec![RacyStep::Load(0), RacyStep::Store(0), RacyStep::Load(0), RacyStep::Store(0), RacyStep::Store(1)];
    assert_eq!(replay_racy(2, &steps), 1);
}

fn rounds(workers: usize, repetitions: usize, colliding: bool) -> Vec<RacyStep> {
    let mut steps = Vec::new();
    for _ in 0..repetitions {
        if colliding {
            for w in 0..workers {
                steps.push(RacyStep::Load(w));
            }
            for w in 0..workers {
                steps.push(RacyStep::Store(w));
            }
        } else {
            for w in 0..workers {
                steps.push(RacyStep::Load(w));
                steps.push(RacyStep::Store(w));
            }
        }
    }
    steps
}

#[test]
fn orderly_rounds_reach_the_full_total() {
    assert_eq!(replay_racy(3, &rounds(3, 5, false)), 15);
    assert_eq!(replay_racy(100, &rounds(100, 100, false)), 10000);
}

#[test]
fn colliding_rounds_reach_the_repetitions_only() {
    assert_eq!(replay_racy(3, &rounds(3, 5, true)), 5);
    assert_eq!(replay_racy(100, &rounds(100, 100, true)), 100);
    assert_eq!(replay_racy(1, &rounds(1, 7, true)), 7);
}

#[test]
fn the_total_never_exceeds_the_number_of_stores() {
    let steps = vec![
        RacyStep::Store(0),
        RacyStep::Store(1),
        RacyStep::Load(1),
        RacyStep::Store(0),
        RacyStep::Store(1),
        RacyStep::Load(0),
        RacyStep::Store(0),
    ];
    let total = replay_racy(2, &steps);
    assert_eq!(total, 3);
    assert!(total <= 5);
}
