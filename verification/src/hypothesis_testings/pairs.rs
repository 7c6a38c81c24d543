//! What the U statistic counts.
//!
//! The U statistic of a sample is taken from its rank sum, but it has a
//! meaning of its own: it is the number of pairs of one observation from
//! each sample in which that sample's observation is the larger, with a
//! tied pair counted as half.  This module proves that the two agree.
use super::{
    count_in, strictly_increasing, tallied, total_x, total_y, twice_rank_sum_x, lemma_count_in_push,
};
use vstd::prelude::*;

verus! {

/// Twice the number of items of `ys` that are below `v`, plus the number
/// of items that are equal to `v`.
pub open spec fn beaten(ys: Seq<i64>, v: i64) -> nat
    decreases ys.len(),
{
    if ys.len() == 0 {
        0
    } else {
        beaten(ys.drop_last(), v) + if ys.last() < v {
            2nat
        } else if ys.last() == v {
            1nat
        } else {
            0nat
        }
    }
}

/// Twice the number of pairs of an item of `xs` and an item of `ys` in
/// which the item of `xs` is the larger, plus the number of pairs in which
/// the two are equal.
pub open spec fn pair_score(xs: Seq<i64>, ys: Seq<i64>) -> nat
    decreases xs.len(),
{
    if xs.len() == 0 {
        0
    } else {
        pair_score(xs.drop_last(), ys) + beaten(ys, xs.last())
    }
}

/// The same score, taken tie group by tie group: each observation of the
/// first sample scores two for each observation of the second sample in an
/// earlier group and one for each in its own.
pub open spec fn group_score(c: Seq<(usize, usize)>) -> int
    decreases c.len(),
{
    if c.len() == 0 {
        0
    } else {
        group_score(c.drop_last()) + c.last().0 * (2 * total_y(c.drop_last()) + c.last().1)
    }
}

/// How many of the first `k` items of `values` are equal to `e`.
spec fn hits(values: Seq<i64>, e: i64, k: int) -> nat
    decreases k,
{
    if k <= 0 {
        0
    } else {
        hits(values, e, k - 1) + if values[k - 1] == e {
            1nat
        } else {
            0nat
        }
    }
}

/// How many items of `ys` are equal to one of the first `k` items of `values`.
spec fn cumulated(values: Seq<i64>, ys: Seq<i64>, k: int) -> nat
    decreases k,
{
    if k <= 0 {
        0
    } else {
        cumulated(values, ys, k - 1) + count_in(ys, values[k - 1])
    }
}

/// The score of the items of `xs` that are equal to one of the first `k`
/// items of `values`.
spec fn weighted(values: Seq<i64>, xs: Seq<i64>, ys: Seq<i64>, k: int) -> nat
    decreases k,
{
    if k <= 0 {
        0
    } else {
        weighted(values, xs, ys, k - 1) + count_in(xs, values[k - 1]) * beaten(ys, values[k - 1])
    }
}

proof fn lemma_beaten_push(ys: Seq<i64>, e: i64, v: i64)
    ensures
        beaten(ys.push(e), v) == beaten(ys, v) + if e < v {
            2nat
        } else if e == v {
            1nat
        } else {
            0nat
        },
{
    assert(ys.push(e).drop_last() =~= ys);
}

proof fn lemma_hits_of_member(values: Seq<i64>, m: int, k: int)
    requires
        strictly_increasing(values),
        0 <= m < values.len(),
        0 <= k <= values.len(),
    ensures
        hits(values, values[m], k) == if m < k {
            1nat
        } else {
            0nat
        },
    decreases k,
{
    if k > 0 {
        lemma_hits_of_member(values, m, k - 1);
    }
}

proof fn lemma_cumulated_push(values: Seq<i64>, ys: Seq<i64>, e: i64, k: int)
    requires
        0 <= k <= values.len(),
    ensures
        cumulated(values, ys.push(e), k) == cumulated(values, ys, k) + hits(values, e, k),
    decreases k,
{
    if k > 0 {
        lemma_cumulated_push(values, ys, e, k - 1);
        lemma_count_in_push(ys, e, values[k - 1]);
    }
}

proof fn lemma_cumulated_empty(values: Seq<i64>, k: int)
    requires
        0 <= k <= values.len(),
    ensures
        cumulated(values, Seq::<i64>::empty(), k) == 0,
    decreases k,
{
    if k > 0 {
        lemma_cumulated_empty(values, k - 1);
    }
}

/// An observation scores two for each item of `ys` in an earlier group of
/// values and one for each in its own.
proof fn lemma_cumulated_is_beaten(values: Seq<i64>, ys: Seq<i64>, k: int)
    requires
        strictly_increasing(values),
        0 <= k < values.len(),
        forall|i: int| 0 <= i < ys.len() ==> values.contains(#[trigger] ys[i]),
    ensures
        2 * cumulated(values, ys, k) + count_in(ys, values[k]) == beaten(ys, values[k]),
    decreases ys.len(),
{
    if ys.len() == 0 {
        lemma_cumulated_empty(values, k);
        assert(ys =~= Seq::<i64>::empty());
    } else {
        let d = ys.drop_last();
        let e = ys.last();
        assert(d.push(e) =~= ys);
        assert forall|i: int| 0 <= i < d.len() implies values.contains(#[trigger] d[i]) by {
            assert(d[i] == ys[i]);
        }
        lemma_cumulated_is_beaten(values, d, k);
        lemma_cumulated_push(values, d, e, k);
        lemma_count_in_push(d, e, values[k]);
        lemma_beaten_push(d, e, values[k]);
        assert(values.contains(ys[ys.len() - 1]));
        let m = choose|m: int| 0 <= m < values.len() && values[m] == e;
        lemma_hits_of_member(values, m, k);
        if m < k {
            assert(values[m] < values[k]);
        } else if m > k {
            assert(values[k] < values[m]);
        }
    }
}

proof fn lemma_weighted_push(values: Seq<i64>, xs: Seq<i64>, ys: Seq<i64>, e: i64, k: int)
    requires
        0 <= k <= values.len(),
    ensures
        weighted(values, xs.push(e), ys, k) == weighted(values, xs, ys, k) + hits(values, e, k)
            * beaten(ys, e),
    decreases k,
{
    if k > 0 {
        lemma_weighted_push(values, xs, ys, e, k - 1);
        lemma_count_in_push(xs, e, values[k - 1]);
        let w = weighted(values, xs, ys, k - 1) as int;
        let h = hits(values, e, k - 1) as int;
        let c = count_in(xs, values[k - 1]) as int;
        let b = beaten(ys, values[k - 1]) as int;
        let be = beaten(ys, e) as int;
        if values[k - 1] == e {
            assert(w + h * be + (c + 1) * b == w + c * b + (h + 1) * be) by (nonlinear_arith)
                requires
                    b == be,
            ;
        } else {
            assert(hits(values, e, k) == h);
        }
    } else {
        assert(hits(values, e, k) * beaten(ys, e) == 0) by (nonlinear_arith)
            requires
                hits(values, e, k) == 0,
        ;
    }
}

proof fn lemma_weighted_empty(values: Seq<i64>, ys: Seq<i64>, k: int)
    requires
        0 <= k <= values.len(),
    ensures
        weighted(values, Seq::<i64>::empty(), ys, k) == 0,
    decreases k,
{
    if k > 0 {
        lemma_weighted_empty(values, ys, k - 1);
        assert(count_in(Seq::<i64>::empty(), values[k - 1]) * beaten(ys, values[k - 1]) == 0)
            by (nonlinear_arith)
            requires
                count_in(Seq::<i64>::empty(), values[k - 1]) == 0,
        ;
    }
}

/// Scoring value by value is scoring observation by observation.
proof fn lemma_weighted_is_pair_score(values: Seq<i64>, xs: Seq<i64>, ys: Seq<i64>)
    requires
        strictly_increasing(values),
        forall|i: int| 0 <= i < xs.len() ==> values.contains(#[trigger] xs[i]),
    ensures
        weighted(values, xs, ys, values.len() as int) == pair_score(xs, ys),
    decreases xs.len(),
{
    if xs.len() == 0 {
        assert(xs =~= Seq::<i64>::empty());
        lemma_weighted_empty(values, ys, values.len() as int);
    } else {
        let d = xs.drop_last();
        let e = xs.last();
        assert(d.push(e) =~= xs);
        assert forall|i: int| 0 <= i < d.len() implies values.contains(#[trigger] d[i]) by {
            assert(d[i] == xs[i]);
        }
        lemma_weighted_is_pair_score(values, d, ys);
        lemma_weighted_push(values, d, ys, e, values.len() as int);
        assert(values.contains(xs[xs.len() - 1]));
        let m = choose|m: int| 0 <= m < values.len() && values[m] == e;
        lemma_hits_of_member(values, m, values.len() as int);
        assert(hits(values, e, values.len() as int) * beaten(ys, e) == beaten(ys, e))
            by (nonlinear_arith)
            requires
                hits(values, e, values.len() as int) == 1,
        ;
    }
}

proof fn lemma_total_y_is_cumulated(
    values: Seq<i64>,
    counts: Seq<(usize, usize)>,
    ys: Seq<i64>,
    k: int,
)
    requires
        counts.len() == values.len(),
        0 <= k <= values.len(),
        forall|j: int| 0 <= j < values.len() ==> (#[trigger] counts[j]).1 == count_in(ys, values[j]),
    ensures
        total_y(counts.take(k)) == cumulated(values, ys, k),
    decreases k,
{
    if k > 0 {
        lemma_total_y_is_cumulated(values, counts, ys, k - 1);
        assert(counts.take(k).drop_last() =~= counts.take(k - 1));
        assert(counts.take(k).last() == counts[k - 1]);
    }
}

/// An item of a sequence occurs in it.
pub proof fn lemma_count_in_member(s: Seq<i64>, i: int)
    requires
        0 <= i < s.len(),
    ensures
        count_in(s, s[i]) > 0,
    decreases s.len(),
{
    if i < s.len() - 1 {
        lemma_count_in_member(s.drop_last(), i);
    }
}

proof fn lemma_group_score_is_weighted(
    values: Seq<i64>,
    counts: Seq<(usize, usize)>,
    xs: Seq<i64>,
    ys: Seq<i64>,
    k: int,
)
    requires
        tallied(values, counts, xs, ys),
        0 <= k <= values.len(),
    ensures
        group_score(counts.take(k)) == weighted(values, xs, ys, k),
    decreases k,
{
    if k > 0 {
        lemma_group_score_is_weighted(values, counts, xs, ys, k - 1);
        assert(counts.take(k).drop_last() =~= counts.take(k - 1));
        assert(counts.take(k).last() == counts[k - 1]);
        lemma_total_y_is_cumulated(values, counts, ys, k - 1);
        assert forall|i: int| 0 <= i < ys.len() implies values.contains(#[trigger] ys[i]) by {
            lemma_count_in_member(ys, i);
            assert(count_in(xs, ys[i]) + count_in(ys, ys[i]) > 0);
        }
        lemma_cumulated_is_beaten(values, ys, k - 1);
        let x = counts[k - 1].0 as int;
        let y = counts[k - 1].1 as int;
        let t = total_y(counts.take(k - 1)) as int;
        let b = beaten(ys, values[k - 1]) as int;
        assert(x == count_in(xs, values[k - 1]));
        assert(2 * t + y == b);
        assert(x * (2 * t + y) == x * b) by (nonlinear_arith)
            requires
                2 * t + y == b,
        ;
    }
}

/// The rank sum of the first sample, less the least it can be, is the
/// score of the tie groups.
pub proof fn lemma_rank_sum_is_group_score(c: Seq<(usize, usize)>)
    ensures
        twice_rank_sum_x(c) - total_x(c) * (total_x(c) + 1) == group_score(c),
    decreases c.len(),
{
    if c.len() > 0 {
        let d = c.drop_last();
        lemma_rank_sum_is_group_score(d);
        let x = c.last().0 as int;
        let y = c.last().1 as int;
        let bx = total_x(d) as int;
        let by = total_y(d) as int;
        let n = total_x(c) as int;
        assert(n == bx + x);
        assert(twice_rank_sum_x(c) == twice_rank_sum_x(d) + x * (2 * (bx + by) + x + y + 1));
        assert(group_score(c) == group_score(d) + x * (2 * by + y));
        assert(x * (2 * (bx + by) + x + y + 1) - (bx + x) * (bx + x + 1) + bx * (bx + 1) == x * (2
            * by + y)) by (nonlinear_arith);
        assert(n * (n + 1) == (bx + x) * (bx + x + 1));
    } else {
        assert(total_x(c) * (total_x(c) + 1) == 0) by (nonlinear_arith)
            requires
                total_x(c) == 0,
        ;
    }
}

/// Twice the U statistic of the first sample is twice the number of pairs
/// of one observation from each sample in which the first sample's is the
/// larger, plus the number of pairs in which the two are equal.
pub proof fn lemma_u_counts_pairs(
    values: Seq<i64>,
    counts: Seq<(usize, usize)>,
    xs: Seq<i64>,
    ys: Seq<i64>,
)
    requires
        tallied(values, counts, xs, ys),
    ensures
        twice_rank_sum_x(counts) - xs.len() * (xs.len() + 1) == pair_score(xs, ys),
{
    lemma_rank_sum_is_group_score(counts);
    lemma_group_score_is_weighted(values, counts, xs, ys, values.len() as int);
    assert(counts.take(values.len() as int) =~= counts);
    assert forall|i: int| 0 <= i < xs.len() implies values.contains(#[trigger] xs[i]) by {
        lemma_count_in_member(xs, i);
        assert(count_in(xs, xs[i]) + count_in(ys, xs[i]) > 0);
    }
    lemma_weighted_is_pair_score(values, xs, ys);
    let n = total_x(counts) as int;
    assert(n * (n + 1) == xs.len() * (xs.len() + 1));
}

/// Twice the number of items of `ys` that are above `v`, plus the number
/// of items that are equal to `v`.
pub open spec fn beating(ys: Seq<i64>, v: i64) -> nat
    decreases ys.len(),
{
    if ys.len() == 0 {
        0
    } else {
        beating(ys.drop_last(), v) + if ys.last() > v {
            2nat
        } else if ys.last() == v {
            1nat
        } else {
            0nat
        }
    }
}

proof fn lemma_beaten_and_beating(ys: Seq<i64>, v: i64)
    ensures
        beaten(ys, v) + beating(ys, v) == 2 * ys.len(),
    decreases ys.len(),
{
    if ys.len() > 0 {
        lemma_beaten_and_beating(ys.drop_last(), v);
    }
}

proof fn lemma_pair_score_push_right(ys: Seq<i64>, xs: Seq<i64>, e: i64)
    ensures
        pair_score(ys, xs.push(e)) == pair_score(ys, xs) + beating(ys, e),
    decreases ys.len(),
{
    if ys.len() > 0 {
        lemma_pair_score_push_right(ys.drop_last(), xs, e);
        lemma_beaten_push(xs, e, ys.last());
    }
}

proof fn lemma_pair_score_none(ys: Seq<i64>)
    ensures
        pair_score(ys, Seq::<i64>::empty()) == 0,
    decreases ys.len(),
{
    if ys.len() > 0 {
        lemma_pair_score_none(ys.drop_last());
    }
}

/// Each pair of one item of `xs` and one of `ys` scores two in all: for
/// the larger of its items, or one for each where they are equal.
pub proof fn lemma_pair_scores_add_up(xs: Seq<i64>, ys: Seq<i64>)
    ensures
        pair_score(xs, ys) + pair_score(ys, xs) == 2 * (xs.len() * ys.len()),
    decreases xs.len(),
{
    if xs.len() == 0 {
        assert(xs =~= Seq::<i64>::empty());
        lemma_pair_score_none(ys);
        assert(xs.len() * ys.len() == 0) by (nonlinear_arith)
            requires
                xs.len() == 0,
        ;
    } else {
        let d = xs.drop_last();
        let e = xs.last();
        assert(d.push(e) =~= xs);
        lemma_pair_scores_add_up(d, ys);
        lemma_pair_score_push_right(ys, d, e);
        lemma_beaten_and_beating(ys, e);
        assert((d.len() + 1) * ys.len() == d.len() * ys.len() + ys.len()) by (nonlinear_arith);
    }
}

} // verus!
