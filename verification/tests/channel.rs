use sync_bench::channel::fold_partials;

#[test]
fn fold_of_nothing_is_zero() {
    assert_eq!(fold_partials(&Vec::new()), Some(0));
}

#[test]
fn fold_adds_every_message_once() {
    assert_eq!(fold_partials(&vec![100, 100, 100]), Some(300));
    assert_eq!(fold_partials(&vec![1, 2, 3, 4]), Some(10));
}

#[test]
fn fold_does_not_depend_on_arrival_order() {
    let arrived = vec![5u64, 1, 9, 3, 3, 7];
    let expected = Some(28);
    assert_eq!(fold_partials(&arrived), expected);
    let mut shuffled = arrived.clone();
    shuffled.reverse();
    assert_eq!(fold_partials(&shuffled), expected);
    shuffled.swap(0, 3);
    shuffled.swap(1, 5);
    assert_eq!(fold_partials(&shuffled), expected);
    shuffled.rotate_left(2);
    assert_eq!(fold_partials(&shuffled), expected);
}

#[test]
fn fold_of_equal_batches_is_count_times_batch() {
    let parts = vec![100u64; 10000];
    assert_eq!(fold_partials(&parts), Some(1_000_000));
}

#[test]
fn fold_reports_a_sum_that_does_not_fit() {
    assert_eq!(fold_partials(&vec![u64::MAX, 0]), Some(u64::MAX));
    assert_eq!(fold_partials(&vec![u64::MAX, 1]), None);
    assert_eq!(fold_partials(&vec![1, u64::MAX, 5]), None);
}
