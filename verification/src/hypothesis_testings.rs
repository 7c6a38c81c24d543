//! Hypothesis testings.
//!
//! The Mann-Whitney U test ranks the pooled observations of two samples.
//! Everything the test needs short of the normal approximation is an
//! integer or half of one, so this module computes it exactly: the tie
//! groups, twice the rank sums and U statistics, and the sum that corrects
//! the variance for ties.
use crate::num::FiniteF64;
use core::cmp::Ordering;
use vstd::prelude::*;

pub mod pairs;

verus! {

/// The largest number of observations, both samples together, that a test
/// takes: with it every statistic here fits its integer type.
pub const MAX_SAMPLES: usize = 0xffff_ffff;

/// How often `v` occurs in `s`.
pub open spec fn count_in(s: Seq<i64>, v: i64) -> nat
    decreases s.len(),
{
    if s.len() == 0 {
        0
    } else {
        count_in(s.drop_last(), v) + if s.last() == v {
            1nat
        } else {
            0nat
        }
    }
}

/// Whether each item of `s` is below the next one.
pub open spec fn strictly_increasing(s: Seq<i64>) -> bool {
    forall|i: int, j: int| 0 <= i < j < s.len() ==> s[i] < s[j]
}

/// The number of observations of the first sample in the tie groups `c`.
pub open spec fn total_x(c: Seq<(usize, usize)>) -> nat
    decreases c.len(),
{
    if c.len() == 0 {
        0
    } else {
        total_x(c.drop_last()) + c.last().0 as nat
    }
}

/// The number of observations of the second sample in the tie groups `c`.
pub open spec fn total_y(c: Seq<(usize, usize)>) -> nat
    decreases c.len(),
{
    if c.len() == 0 {
        0
    } else {
        total_y(c.drop_last()) + c.last().1 as nat
    }
}

/// Whether `counts` tallies the samples `xs` and `ys` over `values`:
/// `values` lists the distinct observations in ascending order, and
/// `counts` says of each how often it occurs in `xs` and in `ys`.
pub open spec fn tallied(
    values: Seq<i64>,
    counts: Seq<(usize, usize)>,
    xs: Seq<i64>,
    ys: Seq<i64>,
) -> bool {
    &&& strictly_increasing(values)
    &&& counts.len() == values.len()
    &&& forall|k: int|
        0 <= k < values.len() ==> (#[trigger] counts[k]).0 == count_in(xs, values[k]) && counts[k].1
            == count_in(ys, values[k])
    &&& forall|k: int| 0 <= k < values.len() ==> (#[trigger] counts[k]).0 + counts[k].1 > 0
    &&& forall|v: i64| #[trigger] count_in(xs, v) + count_in(ys, v) > 0 ==> values.contains(v)
    &&& total_x(counts) == xs.len()
    &&& total_y(counts) == ys.len()
}

/// An item occurs no more often than the sequence is long.
pub proof fn lemma_count_in_bound(s: Seq<i64>, v: i64)
    ensures
        count_in(s, v) <= s.len(),
    decreases s.len(),
{
    if s.len() > 0 {
        lemma_count_in_bound(s.drop_last(), v);
    }
}

/// One more item counts once more for itself and leaves the other counts.
pub proof fn lemma_count_in_push(s: Seq<i64>, e: i64, v: i64)
    ensures
        count_in(s.push(e), v) == count_in(s, v) + if e == v {
            1nat
        } else {
            0nat
        },
{
    assert(s.push(e).drop_last() =~= s);
}

proof fn lemma_totals_update(c: Seq<(usize, usize)>, k: int, g: (usize, usize))
    requires
        0 <= k < c.len(),
    ensures
        total_x(c.update(k, g)) == total_x(c) - c[k].0 + g.0,
        total_y(c.update(k, g)) == total_y(c) - c[k].1 + g.1,
    decreases c.len(),
{
    if k == c.len() - 1 {
        assert(c.update(k, g).drop_last() =~= c.drop_last());
    } else {
        lemma_totals_update(c.drop_last(), k, g);
        assert(c.update(k, g).drop_last() =~= c.drop_last().update(k, g));
    }
}

proof fn lemma_totals_insert(c: Seq<(usize, usize)>, k: int, g: (usize, usize))
    requires
        0 <= k <= c.len(),
    ensures
        total_x(c.insert(k, g)) == total_x(c) + g.0,
        total_y(c.insert(k, g)) == total_y(c) + g.1,
    decreases c.len(),
{
    if k == c.len() {
        assert(c.insert(k, g).drop_last() =~= c);
    } else {
        lemma_totals_insert(c.drop_last(), k, g);
        assert(c.insert(k, g).drop_last() =~= c.drop_last().insert(k, g));
    }
}

/// The place of `e` among the ascending `values`: the index of the first
/// item that is not below it.
fn position(values: &Vec<i64>, e: i64) -> (k: usize)
    requires
        strictly_increasing(values@),
    ensures
        k <= values.len(),
        forall|j: int| 0 <= j < k ==> values[j] < e,
        forall|j: int| k <= j < values.len() ==> values[j] >= e,
{
    let mut lo: usize = 0;
    let mut hi: usize = values.len();
    while lo < hi
        invariant
            lo <= hi <= values.len(),
            strictly_increasing(values@),
            forall|j: int| 0 <= j < lo ==> values[j] < e,
            forall|j: int| hi <= j < values.len() ==> values[j] >= e,
        decreases hi - lo,
    {
        let mid: usize = lo + (hi - lo) / 2;
        if values[mid] < e {
            lo = mid + 1;
        } else {
            hi = mid;
        }
    }
    lo
}

/// The samples after one more observation `e`, of the first sample if
/// `first` and of the second if not.
pub open spec fn with_observation(xs: Seq<i64>, ys: Seq<i64>, e: i64, first: bool) -> (Seq<i64>, Seq<i64>) {
    if first {
        (xs.push(e), ys)
    } else {
        (xs, ys.push(e))
    }
}

/// The tie group `g` with one more observation.
pub open spec fn with_one_more(g: (usize, usize), first: bool) -> (usize, usize) {
    if first {
        ((g.0 + 1) as usize, g.1)
    } else {
        (g.0, (g.1 + 1) as usize)
    }
}

proof fn lemma_counts_after(xs: Seq<i64>, ys: Seq<i64>, e: i64, first: bool, v: i64)
    ensures
        count_in(with_observation(xs, ys, e, first).0, v) == count_in(xs, v) + if first && e == v {
            1nat
        } else {
            0nat
        },
        count_in(with_observation(xs, ys, e, first).1, v) == count_in(ys, v) + if !first && e == v {
            1nat
        } else {
            0nat
        },
{
    lemma_count_in_push(xs, e, v);
    lemma_count_in_push(ys, e, v);
}

proof fn lemma_tally_again(
    values: Seq<i64>,
    counts: Seq<(usize, usize)>,
    xs: Seq<i64>,
    ys: Seq<i64>,
    e: i64,
    first: bool,
    k: int,
)
    requires
        tallied(values, counts, xs, ys),
        xs.len() + ys.len() < usize::MAX,
        0 <= k < values.len(),
        values[k] == e,
    ensures
        counts[k].0 + counts[k].1 < usize::MAX,
        tallied(
            values,
            counts.update(k, with_one_more(counts[k], first)),
            with_observation(xs, ys, e, first).0,
            with_observation(xs, ys, e, first).1,
        ),
{
    let xs2 = with_observation(xs, ys, e, first).0;
    let ys2 = with_observation(xs, ys, e, first).1;
    let g = with_one_more(counts[k], first);
    let counts2 = counts.update(k, g);
    lemma_count_in_bound(xs, e);
    lemma_count_in_bound(ys, e);
    lemma_totals_update(counts, k, g);
    assert forall|j: int| 0 <= j < values.len() implies (#[trigger] counts2[j]).0 == count_in(
        xs2,
        values[j],
    ) && counts2[j].1 == count_in(ys2, values[j]) && counts2[j].0 + counts2[j].1 > 0 by {
        lemma_counts_after(xs, ys, e, first, values[j]);
        assert(counts[j].0 + counts[j].1 > 0);
        if j != k {
            assert(values[j] != values[k]);
        }
    }
    assert forall|v: i64| #[trigger] count_in(xs2, v) + count_in(ys2, v) > 0 implies values.contains(
        v,
    ) by {
        lemma_counts_after(xs, ys, e, first, v);
        if v == e {
            assert(values[k] == v);
        } else {
            assert(count_in(xs, v) + count_in(ys, v) > 0);
        }
    }
}

proof fn lemma_tally_new(
    values: Seq<i64>,
    counts: Seq<(usize, usize)>,
    xs: Seq<i64>,
    ys: Seq<i64>,
    e: i64,
    first: bool,
    k: int,
)
    requires
        tallied(values, counts, xs, ys),
        0 <= k <= values.len(),
        forall|j: int| 0 <= j < k ==> values[j] < e,
        forall|j: int| k <= j < values.len() ==> values[j] > e,
    ensures
        tallied(
            values.insert(k, e),
            counts.insert(k, with_one_more((0, 0), first)),
            with_observation(xs, ys, e, first).0,
            with_observation(xs, ys, e, first).1,
        ),
{
    let xs2 = with_observation(xs, ys, e, first).0;
    let ys2 = with_observation(xs, ys, e, first).1;
    let g = with_one_more((0, 0), first);
    let values2 = values.insert(k, e);
    let counts2 = counts.insert(k, g);
    lemma_totals_insert(counts, k, g);
    if count_in(xs, e) + count_in(ys, e) > 0 {
        assert(values.contains(e));
        let j = choose|j: int| 0 <= j < values.len() && values[j] == e;
        assert(false);
    }
    assert forall|j: int| 0 <= j < values2.len() implies (#[trigger] counts2[j]).0 == count_in(
        xs2,
        values2[j],
    ) && counts2[j].1 == count_in(ys2, values2[j]) && counts2[j].0 + counts2[j].1 > 0 by {
        lemma_counts_after(xs, ys, e, first, values2[j]);
        if j < k {
            assert(counts2[j] == counts[j] && values2[j] == values[j]);
            assert(counts[j].0 + counts[j].1 > 0);
        } else if j > k {
            assert(counts2[j] == counts[j - 1] && values2[j] == values[j - 1]);
            assert(counts[j - 1].0 + counts[j - 1].1 > 0);
        }
    }
    assert forall|v: i64| #[trigger] count_in(xs2, v) + count_in(ys2, v) > 0 implies values2.contains(
        v,
    ) by {
        lemma_counts_after(xs, ys, e, first, v);
        if v == e {
            assert(values2[k] == v);
        } else {
            assert(count_in(xs, v) + count_in(ys, v) > 0);
            assert(values.contains(v));
            let j = choose|j: int| 0 <= j < values.len() && values[j] == v;
            if j < k {
                assert(values2[j] == v);
            } else {
                assert(values2[j + 1] == v);
            }
        }
    }
    assert forall|i: int, j: int| 0 <= i < j < values2.len() implies values2[i] < values2[j] by {
        let a = if i < k {
            i
        } else {
            i - 1
        };
        let b = if j < k {
            j
        } else {
            j - 1
        };
        if i != k && j != k {
            assert(values2[i] == values[a] && values2[j] == values[b]);
        } else if i == k {
            assert(values2[j] == values[b]);
        } else {
            assert(values2[i] == values[a]);
        }
    }
}

/// Tallies one more observation, of the first sample if `first` and of the
/// second if not.
fn tally_one(
    values: &mut Vec<i64>,
    counts: &mut Vec<(usize, usize)>,
    e: i64,
    first: bool,
    Ghost(xs): Ghost<Seq<i64>>,
    Ghost(ys): Ghost<Seq<i64>>,
)
    requires
        tallied(old(values)@, old(counts)@, xs, ys),
        xs.len() + ys.len() < usize::MAX,
    ensures
        tallied(
            final(values)@,
            final(counts)@,
            with_observation(xs, ys, e, first).0,
            with_observation(xs, ys, e, first).1,
        ),
{
    let k = position(values, e);
    if k < values.len() && values[k] == e {
        proof {
            lemma_tally_again(values@, counts@, xs, ys, e, first, k as int);
        }
        let c = counts[k];
        let g = if first {
            (c.0 + 1, c.1)
        } else {
            (c.0, c.1 + 1)
        };
        counts.set(k, g);
    } else {
        proof {
            lemma_tally_new(values@, counts@, xs, ys, e, first, k as int);
        }
        let g = if first {
            (1usize, 0usize)
        } else {
            (0usize, 1usize)
        };
        values.insert(k, e);
        counts.insert(k, g);
    }
}

/// The number of observations in the tie groups `c`.
pub open spec fn total(c: Seq<(usize, usize)>) -> nat {
    total_x(c) + total_y(c)
}

/// Twice the sum of the ranks of the first sample's observations.
///
/// The observations of a tie group share the mean of the ranks that the
/// group takes up: with `b` observations before the group and `t` in it,
/// twice that mean is `2 * b + t + 1`.
pub open spec fn twice_rank_sum_x(c: Seq<(usize, usize)>) -> int
    decreases c.len(),
{
    if c.len() == 0 {
        0
    } else {
        twice_rank_sum_x(c.drop_last()) + c.last().0 * (2 * total(c.drop_last()) + c.last().0
            + c.last().1 + 1)
    }
}

/// Twice the sum of the ranks of the second sample's observations.
pub open spec fn twice_rank_sum_y(c: Seq<(usize, usize)>) -> int
    decreases c.len(),
{
    if c.len() == 0 {
        0
    } else {
        twice_rank_sum_y(c.drop_last()) + c.last().1 * (2 * total(c.drop_last()) + c.last().0
            + c.last().1 + 1)
    }
}

/// The sum of `t * t * t - t` over the sizes `t` of the tie groups.
pub open spec fn tie_sum(c: Seq<(usize, usize)>) -> int
    decreases c.len(),
{
    if c.len() == 0 {
        0
    } else {
        let t = c.last().0 + c.last().1;
        tie_sum(c.drop_last()) + (t * t * t - t)
    }
}

/// The first `i` tie groups hold no more observations than all of them.
pub proof fn lemma_totals_prefix(c: Seq<(usize, usize)>, i: int)
    requires
        0 <= i <= c.len(),
    ensures
        total_x(c.take(i)) <= total_x(c),
        total_y(c.take(i)) <= total_y(c),
    decreases c.len(),
{
    if i == c.len() {
        assert(c.take(i) =~= c);
    } else {
        lemma_totals_prefix(c.drop_last(), i);
        assert(c.drop_last().take(i) =~= c.take(i));
    }
}

/// The ranks of `n` observations add up to `n * (n + 1) / 2`, and the
/// ranks of one sample to no less than if it held the lowest ones.
pub proof fn lemma_rank_sums(c: Seq<(usize, usize)>)
    ensures
        twice_rank_sum_x(c) + twice_rank_sum_y(c) == total(c) * (total(c) + 1),
        twice_rank_sum_x(c) >= total_x(c) * (total_x(c) + 1),
        twice_rank_sum_y(c) >= total_y(c) * (total_y(c) + 1),
    decreases c.len(),
{
    if c.len() > 0 {
        let d = c.drop_last();
        lemma_rank_sums(d);
        let x = c.last().0 as int;
        let y = c.last().1 as int;
        let bx = total_x(d) as int;
        let by = total_y(d) as int;
        let b = bx + by;
        let fx = twice_rank_sum_x(d);
        let fy = twice_rank_sum_y(d);
        let n = total(c) as int;
        assert(n == b + x + y);
        assert(twice_rank_sum_x(c) == fx + x * (2 * b + x + y + 1));
        assert(twice_rank_sum_y(c) == fy + y * (2 * b + x + y + 1));
        assert(fx + fy == b * (b + 1));
        assert(fx + fy + x * (2 * b + x + y + 1) + y * (2 * b + x + y + 1) == (b + x + y) * (b + x
            + y + 1)) by (nonlinear_arith)
            requires
                fx + fy == b * (b + 1),
        ;
        assert(n * (n + 1) == (b + x + y) * (b + x + y + 1));
        assert(fx + x * (2 * b + x + y + 1) + (fy + y * (2 * b + x + y + 1)) == n * (n + 1));
        assert(fx + x * (2 * b + x + y + 1) >= (bx + x) * (bx + x + 1)) by (nonlinear_arith)
            requires
                fx >= bx * (bx + 1),
                b == bx + by,
                x >= 0,
                y >= 0,
                bx >= 0,
                by >= 0,
        ;
        assert(fy + y * (2 * b + x + y + 1) >= (by + y) * (by + y + 1)) by (nonlinear_arith)
            requires
                fy >= by * (by + 1),
                b == bx + by,
                x >= 0,
                y >= 0,
                bx >= 0,
                by >= 0,
        ;
    } else {
        assert(total(c) * (total(c) + 1) == 0) by (nonlinear_arith)
            requires
                total(c) == 0,
        ;
        assert(total_x(c) * (total_x(c) + 1) == 0) by (nonlinear_arith)
            requires
                total_x(c) == 0,
        ;
        assert(total_y(c) * (total_y(c) + 1) == 0) by (nonlinear_arith)
            requires
                total_y(c) == 0,
        ;
    }
}

/// The tie correction is not negative and stays below the cube of the
/// number of observations.
pub proof fn lemma_tie_sum_bound(c: Seq<(usize, usize)>)
    ensures
        0 <= tie_sum(c) <= total(c) * total(c) * total(c),
    decreases c.len(),
{
    if c.len() > 0 {
        let d = c.drop_last();
        lemma_tie_sum_bound(d);
        let t = c.last().0 + c.last().1;
        let b = total(d) as int;
        let s = tie_sum(d);
        assert(0 <= s + (t * t * t - t) <= (b + t) * (b + t) * (b + t)) by (nonlinear_arith)
            requires
                0 <= s <= b * b * b,
                t >= 0,
                b >= 0,
        ;
    }
}

/// Mann-Whitney U test.
#[derive(Debug)]
pub struct MannWhitneyU {
    xn: usize,
    yn: usize,
    values: Vec<i64>,
    counts: Vec<(usize, usize)>,
}

impl MannWhitneyU {
    /// The size of the first sample.
    pub closed spec fn xn(&self) -> nat {
        self.xn as nat
    }

    /// The size of the second sample.
    pub closed spec fn yn(&self) -> nat {
        self.yn as nat
    }

    /// The distinct observations, in ascending order.
    pub closed spec fn values(&self) -> Seq<i64> {
        self.values@
    }

    /// The tie groups: for each distinct observation, in ascending order,
    /// how often it occurs in the first sample and in the second.
    pub closed spec fn counts(&self) -> Seq<(usize, usize)> {
        self.counts@
    }

    /// The invariant of the type.
    #[verifier::type_invariant]
    pub open spec fn wf(&self) -> bool {
        &&& strictly_increasing(self.values())
        &&& self.counts().len() == self.values().len()
        &&& forall|k: int|
            0 <= k < self.counts().len() ==> (#[trigger] self.counts()[k]).0 + self.counts()[k].1
                > 0
        &&& total_x(self.counts()) == self.xn()
        &&& total_y(self.counts()) == self.yn()
        &&& self.xn() + self.yn() <= MAX_SAMPLES
    }

    /// Twice the U statistic of the first sample: twice its rank sum, less
    /// the least that the rank sum of so many observations can be.
    pub open spec fn spec_twice_xu(&self) -> int {
        twice_rank_sum_x(self.counts()) - self.xn() * (self.xn() + 1)
    }

    /// Twice the U statistic of the second sample.
    pub open spec fn spec_twice_yu(&self) -> int {
        twice_rank_sum_y(self.counts()) - self.yn() * (self.yn() + 1)
    }

    /// Makes a new `MannWhitneyU` instance from the two samples.
    pub fn new(xs: &[i64], ys: &[i64]) -> (r: Self)
        requires
            xs.len() + ys.len() <= MAX_SAMPLES,
        ensures
            r.wf(),
            r.xn() == xs.len(),
            r.yn() == ys.len(),
            tallied(r.values(), r.counts(), xs@, ys@),
    {
        let mut values: Vec<i64> = Vec::new();
        let mut counts: Vec<(usize, usize)> = Vec::new();
        let mut i: usize = 0;
        while i < xs.len()
            invariant
                i <= xs.len(),
                xs.len() + ys.len() <= MAX_SAMPLES,
                tallied(values@, counts@, xs@.take(i as int), Seq::<i64>::empty()),
            decreases xs.len() - i,
        {
            tally_one(
                &mut values,
                &mut counts,
                xs[i],
                true,
                Ghost(xs@.take(i as int)),
                Ghost(Seq::<i64>::empty()),
            );
            proof {
                assert(xs@.take(i as int).push(xs[i as int]) =~= xs@.take(i + 1));
            }
            i = i + 1;
        }
        proof {
            assert(xs@.take(xs.len() as int) =~= xs@);
        }
        let mut j: usize = 0;
        while j < ys.len()
            invariant
                j <= ys.len(),
                xs.len() + ys.len() <= MAX_SAMPLES,
                tallied(values@, counts@, xs@, ys@.take(j as int)),
            decreases ys.len() - j,
        {
            tally_one(&mut values, &mut counts, ys[j], false, Ghost(xs@), Ghost(ys@.take(j as int)));
            proof {
                assert(ys@.take(j as int).push(ys[j as int]) =~= ys@.take(j + 1));
            }
            j = j + 1;
        }
        proof {
            assert(ys@.take(ys.len() as int) =~= ys@);
        }
        Self { xn: xs.len(), yn: ys.len(), values, counts }
    }

    /// Returns the sizes of the first and of the second sample.
    pub fn sample_sizes(&self) -> (r: (usize, usize))
        ensures
            r.0 == self.xn(),
            r.1 == self.yn(),
    {
        (self.xn, self.yn)
    }

    /// Returns the distinct observations, in ascending order.
    pub fn distinct_values(&self) -> (r: &[i64])
        ensures
            r@ == self.values(),
    {
        self.values.as_slice()
    }

    /// Returns the tie groups: for each distinct observation, in ascending
    /// order, how often it occurs in the first sample and in the second.
    pub fn tie_groups(&self) -> (r: &[(usize, usize)])
        ensures
            r@ == self.counts(),
    {
        self.counts.as_slice()
    }

    /// The number of observations, both samples together.
    pub fn n(&self) -> (n: usize)
        ensures
            n == self.xn() + self.yn(),
    {
        proof {
            use_type_invariant(self);
        }
        self.xn + self.yn
    }

    /// Whether both samples hold an observation, so that the test has a
    /// p-value.
    pub fn has_p_value(&self) -> (r: bool)
        ensures
            r == (self.xn() >= 1 && self.yn() >= 1),
    {
        !(self.xn < 1 || self.yn < 1)
    }

    /// The two U statistics add up to the number of pairs of one
    /// observation from each sample.
    pub proof fn lemma_u_sum(&self)
        requires
            self.wf(),
        ensures
            self.spec_twice_xu() >= 0,
            self.spec_twice_yu() >= 0,
            self.spec_twice_xu() + self.spec_twice_yu() == 2 * (self.xn() * self.yn()),
    {
        lemma_rank_sums(self.counts());
        let x = self.xn() as int;
        let y = self.yn() as int;
        assert((x + y) * (x + y + 1) - x * (x + 1) - y * (y + 1) == 2 * (x * y))
            by (nonlinear_arith);
    }

    /// What the U statistics count: twice the U statistic of a sample is
    /// twice the number of pairs of one observation from each sample in
    /// which that sample's observation is the larger, plus the number of
    /// pairs in which the two are equal.
    pub proof fn lemma_u_counts_pairs(&self, xs: Seq<i64>, ys: Seq<i64>)
        requires
            self.wf(),
            tallied(self.values(), self.counts(), xs, ys),
        ensures
            self.spec_twice_xu() == pairs::pair_score(xs, ys),
            self.spec_twice_yu() == pairs::pair_score(ys, xs),
    {
        pairs::lemma_u_counts_pairs(self.values(), self.counts(), xs, ys);
        pairs::lemma_pair_scores_add_up(xs, ys);
        self.lemma_u_sum();
        let x = self.xn() as int;
        assert(x * (x + 1) == xs.len() * (xs.len() + 1));
        assert(self.xn() * self.yn() == xs.len() * ys.len());
    }

    /// Twice the sum of the ranks of the first sample.
    fn twice_xr(&self) -> (r: u64)
        ensures
            r == twice_rank_sum_x(self.counts()),
    {
        proof {
            use_type_invariant(self);
        }
        let mut acc: u64 = 0;
        let mut before: u64 = 0;
        let mut i: usize = 0;
        while i < self.counts.len()
            invariant
                i <= self.counts.len(),
                self.wf(),
                before == total(self.counts().take(i as int)),
                acc == twice_rank_sum_x(self.counts().take(i as int)),
            decreases self.counts.len() - i,
        {
            let g = self.counts[i];
            proof {
                let c = self.counts().take(i + 1);
                assert(c.drop_last() =~= self.counts().take(i as int));
                assert(c.last() == g);
                lemma_totals_prefix(self.counts(), i + 1);
                lemma_rank_sums(c);
                let n = total(c) as int;
                assert(n * (n + 1) <= 0xffff_ffff * 0x1_0000_0000) by (nonlinear_arith)
                    requires
                        0 <= n <= 0xffff_ffff,
                ;
                assert(total_y(c) * (total_y(c) + 1) >= 0) by (nonlinear_arith);
            }
            let t: u64 = g.0 as u64 + g.1 as u64;
            acc = acc + (g.0 as u64) * (2 * before + t + 1);
            before = before + t;
            i = i + 1;
        }
        proof {
            assert(self.counts().take(i as int) =~= self.counts());
        }
        acc
    }

    /// Twice the U statistic of each sample, the first sample's first.
    ///
    /// A U statistic is the rank sum of a sample less `m * (m + 1) / 2`,
    /// where `m` is the size of that sample.
    pub fn twice_xyu(&self) -> (r: (u64, u64))
        ensures
            r.0 == self.spec_twice_xu(),
            r.1 == self.spec_twice_yu(),
    {
        proof {
            use_type_invariant(self);
            self.lemma_u_sum();
            lemma_rank_sums(self.counts());
        }
        let xr: u64 = self.twice_xr();
        let n: u64 = self.xn as u64 + self.yn as u64;
        let xn: u64 = self.xn as u64;
        let yn: u64 = self.yn as u64;
        proof {
            assert(n * (n + 1) <= 0xffff_ffff * 0x1_0000_0000) by (nonlinear_arith)
                requires
                    0 <= n <= 0xffff_ffff,
            ;
            assert(xn * (xn + 1) <= 0xffff_ffff * 0x1_0000_0000) by (nonlinear_arith)
                requires
                    0 <= xn <= 0xffff_ffff,
            ;
            assert(yn * (yn + 1) <= 0xffff_ffff * 0x1_0000_0000) by (nonlinear_arith)
                requires
                    0 <= yn <= 0xffff_ffff,
            ;
        }
        let yr: u64 = n * (n + 1) - xr;
        let xu: u64 = xr - xn * (xn + 1);
        let yu: u64 = yr - yn * (yn + 1);
        (xu, yu)
    }

    /// Twice the U statistic of the test: the smaller of the two samples'.
    pub fn twice_u(&self) -> (r: u64)
        ensures
            r == if self.spec_twice_xu() <= self.spec_twice_yu() {
                self.spec_twice_xu()
            } else {
                self.spec_twice_yu()
            },
    {
        let u = self.twice_xyu();
        if u.0 <= u.1 {
            u.0
        } else {
            u.1
        }
    }

    /// The centre that U is held against: half the number of pairs of one
    /// observation from each sample, rounded down.
    pub fn mu(&self) -> (r: u64)
        ensures
            r == (self.xn() * self.yn()) / 2,
    {
        proof {
            use_type_invariant(self);
        }
        let xn: u64 = self.xn as u64;
        let yn: u64 = self.yn as u64;
        proof {
            assert(xn * yn <= 0xffff_ffff * 0xffff_ffff) by (nonlinear_arith)
                requires
                    0 <= xn <= 0xffff_ffff,
                    0 <= yn <= 0xffff_ffff,
            ;
        }
        (xn * yn) / 2
    }

    /// The sum of `t * t * t - t` over the sizes `t` of the tie groups, by
    /// which ties lower the variance of U.
    pub fn tie_sum(&self) -> (r: u128)
        ensures
            r == tie_sum(self.counts()),
    {
        proof {
            use_type_invariant(self);
        }
        let mut acc: u128 = 0;
        let mut i: usize = 0;
        while i < self.counts.len()
            invariant
                i <= self.counts.len(),
                self.wf(),
                acc == tie_sum(self.counts().take(i as int)),
            decreases self.counts.len() - i,
        {
            let g = self.counts[i];
            proof {
                let c = self.counts().take(i + 1);
                assert(c.drop_last() =~= self.counts().take(i as int));
                assert(c.last() == g);
                lemma_totals_prefix(self.counts(), i + 1);
                lemma_totals_prefix(self.counts(), i as int);
                lemma_tie_sum_bound(c);
                lemma_tie_sum_bound(self.counts().take(i as int));
                let n = total(c) as int;
                assert(n * n * n <= 0xffff_ffff * 0xffff_ffff * 0xffff_ffff) by (nonlinear_arith)
                    requires
                        0 <= n <= 0xffff_ffff,
                ;
                let t = g.0 + g.1;
                assert(0 <= t * t <= 0xffff_ffff * 0xffff_ffff && t <= t * t * t <= 0xffff_ffff
                    * 0xffff_ffff * 0xffff_ffff) by (nonlinear_arith)
                    requires
                        0 <= t <= 0xffff_ffff,
                ;
            }
            let t: u128 = g.0 as u128 + g.1 as u128;
            acc = acc + (t * t * t - t);
            i = i + 1;
        }
        proof {
            assert(self.counts().take(i as int) =~= self.counts());
        }
        acc
    }

    /// Tests whether there is a statistically significant difference between
    /// the samples, given the p-value of the test and the level `alpha`.
    ///
    /// There is if both samples hold an observation, so that the test has
    /// a p-value, and the p-value is there and below `alpha`.  The level
    /// must be a positive number.
    pub fn test(&self, p_value: Option<FiniteF64>, alpha: FiniteF64) -> (r: bool)
        requires
            alpha.rank() > 0,
        ensures
            r == (self.xn() >= 1 && self.yn() >= 1 && match p_value {
                Some(p) => p.rank() < alpha.rank(),
                None => false,
            }),
    {
        self.has_p_value() && match p_value {
            Some(p) => p < alpha,
            None => false,
        }
    }

    /// How the first sample stands to the second, given whether the test
    /// found a significant difference between them.
    ///
    /// Without a significant difference the samples count as equal.  With
    /// one, the first sample is the lesser if its U statistic is the
    /// smaller, and the greater otherwise.
    pub fn order(&self, significant: bool) -> (r: Ordering)
        ensures
            r == if !significant {
                Ordering::Equal
            } else if self.spec_twice_xu() < self.spec_twice_yu() {
                Ordering::Less
            } else {
                Ordering::Greater
            },
    {
        if !significant {
            Ordering::Equal
        } else {
            let u = self.twice_xyu();
            if u.0 < u.1 {
                Ordering::Less
            } else {
                Ordering::Greater
            }
        }
    }
}

} // verus!
