use sync_bench::trace::{replay, Access};

fn commit(worker: u64, amount: u64) -> Access {
    Access::Commit { worker, amount }
}

#[test]
fn replay_of_nothing() {
    let out = replay(&Vec::new()).unwrap();
    assert_eq!(out.total, 0);
    assert!(out.snapshots.is_empty());
}

#[test]
fn interleaved_commits_lose_nothing() {
    // three workers, four increments each, in pieces and out of order
    let trace = vec![
        commit(2, 1),
        commit(0, 3),
        commit(1, 2),
        commit(2, 3),
        commit(0, 1),
        commit(1, 2),
    ];
    assert_eq!(replay(&trace).unwrap().total, 12);
    let mut other = trace.clone();
    other.reverse();
    assert_eq!(replay(&other).unwrap().total, 12);
}

#[test]
fn snapshots_see_committed_totals_only() {
    let trace = vec![
        Access::Snapshot,
        commit(0, 100),
        Access::Snapshot,
        Access::Snapshot,
        commit(1, 100),
        commit(2, 100),
        Access::Snapshot,
    ];
    let out = replay(&trace).unwrap();
    assert_eq!(out.total, 300);
    assert_eq!(out.snapshots, vec![0, 100, 100, 300]);
    let committed = [0u64, 100, 200, 300];
    for seen in &out.snapshots {
        assert!(committed.contains(seen));
    }
}

#[test]
fn replay_stops_where_the_total_does_not_fit() {
    assert!(replay(&vec![commit(0, u64::MAX), Access::Snapshot]).is_some());
    assert!(replay(&vec![commit(0, u64::MAX), commit(1, 1)]).is_none());
}

#[test]
fn between_whole_batches_the_total_is_a_multiple_of_the_batch() {
    let mut trace = vec![Access::Snapshot];
    for worker in [3u64, 0, 2, 1] {
        trace.push(commit(worker, 100));
        trace.push(Access::Snapshot);
        trace.push(Access::Snapshot);
    }
    let out = replay(&trace).unwrap();
    assert_eq!(out.total, 400);
    assert_eq!(out.snapshots, vec![0, 100, 100, 200, 200, 300, 300, 400, 400]);
    for seen in &out.snapshots {
        assert_eq!(seen % 100, 0);
        assert!(*seen <= 400);
    }
}
