//! Folding the partial results that workers send to the coordinator.

use vstd::prelude::*;

verus! {

/// The sum of all partial results, in the order in which they arrived.
pub open spec fn sum_of(parts: Seq<u64>) -> nat
    decreases parts.len(),
{
    if parts.len() == 0 {
        0
    } else {
        sum_of(parts.drop_last()) + parts.last() as nat
    }
}

/// One more arrival adds its value to the sum.
pub proof fn lemma_sum_push(parts: Seq<u64>, p: u64)
    ensures
        sum_of(parts.push(p)) == sum_of(parts) + p,
{
    assert(parts.push(p).drop_last() =~= parts);
}

/// `sum_of` is the left fold of addition.
pub proof fn lemma_sum_is_fold(parts: Seq<u64>)
    ensures
        sum_of(parts) == parts.fold_left(0nat, |acc: nat, p: u64| acc + p as nat),
    decreases parts.len(),
{
    if parts.len() > 0 {
        lemma_sum_is_fold(parts.drop_last());
    }
}

/// The sum does not depend on the order of arrival: two sequences that hold
/// the same messages, each as often in one as in the other, have one sum.
pub proof fn lemma_sum_order_independent(a: Seq<u64>, b: Seq<u64>)
    requires
        a.to_multiset() == b.to_multiset(),
    ensures
        sum_of(a) == sum_of(b),
        a.len() == b.len(),
{
    let f = |acc: nat, p: u64| acc + p as nat;
    lemma_sum_is_fold(a);
    lemma_sum_is_fold(b);
    assert(vstd::seq_lib::commutative_foldl(f));
    vstd::seq_lib::lemma_fold_left_permutation(a, b, f, 0nat);
    a.to_multiset_ensures();
    b.to_multiset_ensures();
}

/// When every one of the messages carries the same batch size, the sum is the
/// number of messages times that size.
pub proof fn lemma_sum_of_equal_parts(parts: Seq<u64>, each: u64)
    requires
        forall|i: int| 0 <= i < parts.len() ==> parts[i] == each,
    ensures
        sum_of(parts) == parts.len() * each,
    decreases parts.len(),
{
    if parts.len() > 0 {
        lemma_sum_of_equal_parts(parts.drop_last(), each);
        assert(sum_of(parts) == (parts.len() - 1) * each + each);
        assert((parts.len() - 1) * each + each == parts.len() * each) by (nonlinear_arith);
    }
}

/// Folds the received partial results into a running total, one after the
/// other. `None` when the total does not fit the machine word.
pub fn fold_partials(parts: &Vec<u64>) -> (total: Option<u64>)
    ensures
        total.is_some() <==> sum_of(parts@) <= u64::MAX,
        total.is_some() ==> total.unwrap() == sum_of(parts@),
{
    let mut running: u64 = 0;
    let mut i: usize = 0;
    while i < parts.len()
        invariant
            i <= parts.len(),
            running == sum_of(parts@.take(i as int)),
        decreases parts.len() - i,
    {
        proof {
            assert(parts@.take(i + 1) =~= parts@.take(i as int).push(parts@[i as int]));
            lemma_sum_push(parts@.take(i as int), parts@[i as int]);
            lemma_sum_prefix_le(parts@, i + 1);
        }
        match running.checked_add(parts[i]) {
            Some(next) => {
                running = next;
            },
            None => {
                return None;
            },
        }
        i = i + 1;
    }
    proof {
        assert(parts@.take(i as int) =~= parts@);
    }
    Some(running)
}

/// The sum of a prefix never exceeds the sum of the whole.
pub proof fn lemma_sum_prefix_le(parts: Seq<u64>, n: int)
    requires
        0 <= n <= parts.len(),
    ensures
        sum_of(parts.take(n)) <= sum_of(parts),
    decreases parts.len() - n,
{
    if n < parts.len() {
        assert(parts.take(n + 1) =~= parts.take(n).push(parts[n]));
        lemma_sum_push(parts.take(n), parts[n]);
        lemma_sum_prefix_le(parts, n + 1);
    } else {
        assert(parts.take(n) =~= parts);
    }
}

} // verus!
