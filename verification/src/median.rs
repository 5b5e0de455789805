//! The median of what was declared.

use vstd::prelude::*;
use crate::types::{AccountId, Balance};

verus! {

/// The amounts of some declarations, in their order.
pub open spec fn amounts(tips: Seq<(AccountId, Balance)>) -> Seq<Balance> {
    tips.map_values(|t: (AccountId, Balance)| t.1)
}

/// The index of the first of the least amounts; 0 where there is none.
pub open spec fn least_index(s: Seq<Balance>) -> int
    decreases s.len(),
{
    if s.len() <= 1 {
        0
    } else {
        let before = least_index(s.drop_last());
        if s.last() < s[before] { s.len() - 1 } else { before }
    }
}

/// The amount that `k` others go before when all are put in ascending order:
/// the least amount of what is left once the least has been taken out `k`
/// times.
pub open spec fn kth_smallest(s: Seq<Balance>, k: nat) -> Balance
    decreases k,
{
    if k == 0 {
        s[least_index(s)]
    } else {
        kth_smallest(s.remove(least_index(s)), (k - 1) as nat)
    }
}

/// The median: the amount in the middle of the ascending order and, of an
/// even number of amounts, the lower one of the two in the middle.
pub open spec fn median(s: Seq<Balance>) -> Balance {
    kth_smallest(s, ((s.len() - 1) / 2) as nat)
}

/// How many of the amounts are below `v`.
pub open spec fn count_below(s: Seq<Balance>, v: Balance) -> nat
    decreases s.len(),
{
    if s.len() == 0 {
        0
    } else {
        count_below(s.drop_last(), v) + if s.last() < v { 1nat } else { 0nat }
    }
}

/// How many of the amounts are `v` or below it.
pub open spec fn count_up_to(s: Seq<Balance>, v: Balance) -> nat
    decreases s.len(),
{
    if s.len() == 0 {
        0
    } else {
        count_up_to(s.drop_last(), v) + if s.last() <= v { 1nat } else { 0nat }
    }
}

proof fn lemma_least_index_in_range(s: Seq<Balance>)
    requires
        s.len() > 0,
    ensures
        0 <= least_index(s) < s.len(),
        forall|i: int| 0 <= i < s.len() ==> s[least_index(s)] <= #[trigger] s[i],
    decreases s.len(),
{
    if s.len() > 1 {
        lemma_least_index_in_range(s.drop_last());
        assert forall|i: int| 0 <= i < s.len() implies s[least_index(s)] <= #[trigger] s[i] by {
            if i < s.len() - 1 {
                assert(s.drop_last()[i] == s[i]);
            }
        }
    }
}

proof fn lemma_counts_without(s: Seq<Balance>, i: int, v: Balance)
    requires
        0 <= i < s.len(),
    ensures
        count_below(s, v) == count_below(s.remove(i), v) + if s[i] < v { 1nat } else { 0nat },
        count_up_to(s, v) == count_up_to(s.remove(i), v) + if s[i] <= v { 1nat } else { 0nat },
    decreases s.len(),
{
    if i < s.len() - 1 {
        lemma_counts_without(s.drop_last(), i, v);
        assert(s.remove(i).drop_last() =~= s.drop_last().remove(i));
    }
}

proof fn lemma_counts_bounds(s: Seq<Balance>, v: Balance, w: Balance)
    ensures
        count_below(s, v) <= count_up_to(s, v) <= s.len(),
        v < w ==> count_up_to(s, v) <= count_below(s, w),
        (forall|i: int| 0 <= i < s.len() ==> v <= #[trigger] s[i]) ==> count_below(s, v) == 0,
        s.contains(v) ==> count_up_to(s, v) > count_below(s, v),
    decreases s.len(),
{
    if s.len() > 0 {
        let front = s.drop_last();
        lemma_counts_bounds(front, v, w);
        if s.contains(v) {
            let i = choose|i: int| 0 <= i < s.len() && s[i] == v;
            if i < s.len() - 1 {
                assert(front[i] == v);
            }
        }
    }
}

/// The `k`-th smallest amount stands `k`-th in the ascending order: it is one
/// of the amounts, at most `k` of them are below it, and more than `k` are
/// not above it.
pub proof fn lemma_kth_smallest_rank(s: Seq<Balance>, k: nat)
    requires
        k < s.len(),
    ensures
        s.contains(kth_smallest(s, k)),
        count_below(s, kth_smallest(s, k)) <= k < count_up_to(s, kth_smallest(s, k)),
    decreases k,
{
    lemma_least_index_in_range(s);
    let at = least_index(s);
    let least = s[at];
    if k == 0 {
        lemma_counts_bounds(s, least, least);
    } else {
        let rest = s.remove(at);
        lemma_kth_smallest_rank(rest, (k - 1) as nat);
        let m = kth_smallest(rest, (k - 1) as nat);
        lemma_counts_without(s, at, m);
    }
}

/// No amount but the `k`-th smallest stands `k`-th in the ascending order.
pub proof fn lemma_rank_decides(s: Seq<Balance>, k: nat, v: Balance)
    requires
        k < s.len(),
        count_below(s, v) <= k < count_up_to(s, v),
    ensures
        v == kth_smallest(s, k),
{
    lemma_kth_smallest_rank(s, k);
    let m = kth_smallest(s, k);
    lemma_counts_bounds(s, v, m);
    lemma_counts_bounds(s, m, v);
}

/// The median stands in the middle of the ascending order: fewer than half of
/// the amounts are below it, and at least half of them are not above it.
pub proof fn lemma_median_rank(s: Seq<Balance>)
    requires
        s.len() > 0,
    ensures
        s.contains(median(s)),
        count_below(s, median(s)) <= (s.len() - 1) / 2 < count_up_to(s, median(s)),
        2 * count_below(s, median(s)) < s.len() <= 2 * count_up_to(s, median(s)),
{
    lemma_kth_smallest_rank(s, ((s.len() - 1) / 2) as nat);
}

fn least_position(v: &Vec<Balance>) -> (at: usize)
    requires
        v@.len() > 0,
    ensures
        at == least_index(v@),
        at < v@.len(),
{
    let mut at: usize = 0;
    let mut i: usize = 1;
    while i < v.len()
        invariant
            1 <= i <= v@.len(),
            at < i,
            at == least_index(v@.take(i as int)),
        decreases v@.len() - i,
    {
        assert(v@.take(i + 1).drop_last() =~= v@.take(i as int));
        if v[i] < v[at] {
            at = i;
        }
        i += 1;
    }
    assert(v@.take(v@.len() as int) =~= v@);
    at
}

/// The median of the amounts declared.
pub fn median_of(tips: &Vec<(AccountId, Balance)>) -> (m: Balance)
    requires
        tips@.len() > 0,
    ensures
        m == median(amounts(tips@)),
{
    let mut rest: Vec<Balance> = Vec::new();
    let mut i: usize = 0;
    while i < tips.len()
        invariant
            i <= tips@.len(),
            rest@ == amounts(tips@).take(i as int),
        decreases tips@.len() - i,
    {
        rest.push(tips[i].1);
        i += 1;
    }
    assert(rest@ =~= amounts(tips@));
    let k: usize = (tips.len() - 1) / 2;
    let mut taken: usize = 0;
    while taken < k
        invariant
            taken <= k,
            rest@.len() == tips@.len() - taken,
            k < tips@.len(),
            kth_smallest(rest@, (k - taken) as nat) == median(amounts(tips@)),
        decreases k - taken,
    {
        let at = least_position(&rest);
        rest.remove(at);
        taken += 1;
    }
    let at = least_position(&rest);
    rest[at]
}

} // verus!
