//! Slice sampling: a Markov chain that draws from an unnormalized density
//! over a bounded interval or box.
//!
//! One step draws a height below the density at the chain's current point
//! and then looks for a point whose density exceeds that height.  Candidates
//! come from a working box that starts as the configured one and, after each
//! rejected candidate, is cut back to that candidate on the side away from
//! the current point.  A step that has rejected as many candidates as its
//! limit allows gives up.
//!
//! The numbers of a step are drawn by a source and the densities are
//! answered by a distribution, both of them the caller's.  The contracts
//! here say what a step makes of their answers: a run of a step is written
//! down as the start, the height and the rejected candidates, and the
//! result of the step is held against it.
use crate::distributions::Pdf;
use crate::error::{Error, ErrorKind};
use crate::num::FiniteF64;
use crate::range::Range;
use vstd::prelude::*;
use vstd::std_specs::cmp::PartialOrdSpec;

verus! {

/// The number of candidates one step may reject before it gives up.
pub const DEFAULT_MAX_ATTEMPTS: usize = 100_000;

/// A source of uniform random numbers.
pub trait UniformSource {
    /// Draws a number from `low` up to, but not including, `high`.
    ///
    /// A source is asked only with `low < high`, both of them finite.  Its
    /// answer is not taken on trust: a number outside of what was asked
    /// for ends the step with an error.
    fn gen_range(&mut self, low: FiniteF64, high: FiniteF64) -> FiniteF64
        requires
            low.rank() < high.rank(),
    ;
}

/// Whether `x` lies on the axis from `low` to `high`: in `low <= x < high`,
/// or on the single point that is left where the two ends are equal.
pub open spec fn axis_holds(low: FiniteF64, high: FiniteF64, x: FiniteF64) -> bool {
    (low.rank() <= x.rank() && x.rank() < high.rank()) || (low.rank() == high.rank() && x.rank()
        == low.rank())
}

/// Whether the axis from `lo` to `hi` is a part of the axis from `low` to `high`.
pub open spec fn axis_within(lo: FiniteF64, hi: FiniteF64, low: FiniteF64, high: FiniteF64) -> bool {
    &&& low.rank() <= lo.rank()
    &&& lo.rank() <= hi.rank()
    &&& hi.rank() <= high.rank()
    &&& (lo.rank() < high.rank() || low.rank() == high.rank())
}

/// Whether a source of kind `U`, in some state, can answer `x` when it is
/// asked for a number from `low` up to `high`.
pub open spec fn can_answer<U: UniformSource>(low: FiniteF64, high: FiniteF64, x: FiniteF64) -> bool {
    exists|s: &mut U| #[trigger] call_ensures(U::gen_range, (s, low, high), x)
}

/// Whether `x` can be drawn on the axis from `low` to `high`: it is `low`
/// where the two ends are equal, and else an answer of the source to
/// exactly these ends that lies between them.
pub open spec fn drawn<U: UniformSource>(low: FiniteF64, high: FiniteF64, x: FiniteF64) -> bool {
    ||| low.rank() == high.rank() && x == low
    ||| low.rank() < high.rank() && low.rank() <= x.rank() && x.rank() < high.rank()
        && can_answer::<U>(low, high, x)
}

/// Whether the source can stray on the axis from `low` to `high`: asked
/// for exactly these ends, it can answer with a number that does not lie
/// between them.
pub open spec fn strays<U: UniformSource>(low: FiniteF64, high: FiniteF64) -> bool {
    low.rank() < high.rank() && exists|x: FiniteF64| #[trigger]
        can_answer::<U>(low, high, x) && !(low.rank() <= x.rank() && x.rank() < high.rank())
}

/// Judges a number that a source drew from `low` up to `high`.
///
/// The number is handed on if it lies where it was asked for, and is an
/// `ErrorKind::Bug` error if it does not.
pub fn check_drawn(low: FiniteF64, high: FiniteF64, x: FiniteF64) -> (r: Result<FiniteF64, Error>)
    ensures
        r is Ok <==> (low.rank() <= x.rank() && x.rank() < high.rank()),
        r matches Ok(v) ==> v == x,
        r matches Err(e) ==> e.kind() == ErrorKind::Bug,
{
    if low <= x && x < high {
        Ok(x)
    } else {
        Err(Error::new(ErrorKind::Bug))
    }
}

/// Draws one coordinate on the axis from `low` to `high`.
///
/// Where the two ends are equal the coordinate is fixed at `low` and the
/// source is not asked.  Ends in the wrong order are an
/// `ErrorKind::InvalidInput` error, and the source is not asked either.
/// Else the source is asked once, for exactly these ends, and its answer
/// is judged by [`check_drawn`]: an answer off the axis is an
/// `ErrorKind::Bug` error.
pub fn draw_axis<U: UniformSource>(source: &mut U, low: FiniteF64, high: FiniteF64) -> (r: Result<
    FiniteF64,
    Error,
>)
    ensures
        low.rank() == high.rank() ==> r == Ok::<FiniteF64, Error>(low),
        low.rank() > high.rank() ==> (r matches Err(e) && e.kind() == ErrorKind::InvalidInput),
        low.rank() >= high.rank() ==> *final(source) == *old(source),
        low.rank() < high.rank() ==> exists|s: &mut U, x: FiniteF64|
            {
                &&& *s == *old(source)
                &&& *final(s) == *final(source)
                &&& #[trigger] call_ensures(U::gen_range, (s, low, high), x)
                &&& r is Ok <==> (low.rank() <= x.rank() && x.rank() < high.rank())
                &&& r matches Ok(v) ==> v == x
            },
        r matches Ok(x) ==> drawn::<U>(low, high, x) && axis_holds(low, high, x),
        r matches Err(e) ==> (if low.rank() > high.rank() {
            e.kind() == ErrorKind::InvalidInput
        } else {
            e.kind() == ErrorKind::Bug && strays::<U>(low, high)
        }),
{
    if low == high {
        Ok(low)
    } else if low < high {
        let ghost before = *source;
        let x = source.gen_range(low, high);
        let r = check_drawn(low, high, x);
        proof {
            assert(exists|s: &mut U|
                *s == before && *final(s) == *source && #[trigger] call_ensures(
                    U::gen_range,
                    (s, low, high),
                    x,
                ));
            let s = choose|s: &mut U|
                *s == before && *final(s) == *source && #[trigger] call_ensures(
                    U::gen_range,
                    (s, low, high),
                    x,
                );
            assert(call_ensures(U::gen_range, (s, low, high), x));
            assert(can_answer::<U>(low, high, x));
        }
        r
    } else {
        Err(Error::new(ErrorKind::InvalidInput))
    }
}

/// Whether a candidate of density `y` is taken under the slice height
/// `border`: its density exceeds the height, or the height is zero.
pub open spec fn spec_accepts(y: FiniteF64, border: FiniteF64) -> bool {
    y.rank() > border.rank() || border.rank() == 0
}

/// Whether a candidate of density `y` is taken under the slice height `border`.
///
/// It is if its density exceeds the height.  A height of zero takes every
/// candidate.
pub fn accepts(y: FiniteF64, border: FiniteF64) -> (r: bool)
    ensures
        r == spec_accepts(y, border),
{
    y > border || border == FiniteF64::zero()
}

/// The axis from `low` to `high`, cut back to the rejected candidate `x` on
/// the side of `x` that is away from `origin`.
pub open spec fn spec_shrink_axis(
    low: FiniteF64,
    high: FiniteF64,
    x: FiniteF64,
    origin: FiniteF64,
) -> (FiniteF64, FiniteF64) {
    if x.rank() < origin.rank() {
        (x, high)
    } else {
        (low, x)
    }
}

/// Cuts an axis back to a rejected candidate `x`, on the side of `x` that is
/// away from the chain's current coordinate `origin`.
///
/// A candidate below `origin` becomes the new lower end; any other becomes
/// the new upper end.
pub fn shrink_axis(low: FiniteF64, high: FiniteF64, x: FiniteF64, origin: FiniteF64) -> (r: (
    FiniteF64,
    FiniteF64,
))
    ensures
        r == spec_shrink_axis(low, high, x, origin),
        axis_holds(low, high, x) ==> axis_within(r.0, r.1, low, high),
        axis_holds(low, high, x) && low.rank() <= origin.rank() <= high.rank() ==> r.0.rank()
            <= origin.rank() <= r.1.rank(),
{
    if x < origin {
        (x, high)
    } else {
        (low, x)
    }
}

/// Whether a step that has rejected `rejected` candidates may try one more
/// under the limit `max_attempts`.  It may while it has rejected fewer than
/// the limit; at the limit it gives up.
pub fn may_try(rejected: usize, max_attempts: usize) -> (r: bool)
    ensures
        r == (rejected < max_attempts),
{
    rejected < max_attempts
}

/// What a step on an interval drew and was answered before it took a
/// point or failed: where it started, the density there, the height, and
/// the candidates it rejected, each with its density, in their turn.
pub struct Run {
    /// The point at which the step started.
    pub origin: FiniteF64,
    /// The density at the start.
    pub last_y: FiniteF64,
    /// The height of the slice.
    pub height: FiniteF64,
    /// The rejected candidates and their densities.
    pub trials: Seq<(FiniteF64, FiniteF64)>,
}

/// The axis that is left of the one from `low` to `high` after the
/// candidates of `trials` were rejected in turn.
pub open spec fn cut_axis(
    low: FiniteF64,
    high: FiniteF64,
    origin: FiniteF64,
    trials: Seq<(FiniteF64, FiniteF64)>,
) -> (FiniteF64, FiniteF64)
    decreases trials.len(),
{
    if trials.len() == 0 {
        (low, high)
    } else {
        let before = cut_axis(low, high, origin, trials.drop_last());
        spec_shrink_axis(before.0, before.1, trials.last().0, origin)
    }
}

/// A slice sampler over an interval.
#[derive(Debug)]
pub struct SliceSampler<D> {
    distribution: D,
    range: Range<FiniteF64>,
    last_x: Option<FiniteF64>,
    max_attempts: usize,
}

impl<D> SliceSampler<D> {
    /// The density that the chain draws from.
    pub closed spec fn spec_distribution(&self) -> D {
        self.distribution
    }

    /// The configured interval.
    pub closed spec fn spec_range(&self) -> Range<FiniteF64> {
        self.range
    }

    /// The chain's current point, if it has one.
    pub closed spec fn last_x(&self) -> Option<FiniteF64> {
        self.last_x
    }

    /// The number of candidates one step may reject.
    pub closed spec fn max_attempts(&self) -> usize {
        self.max_attempts
    }

    /// Whether two samplers differ in nothing but the chain's current point.
    pub open spec fn same_setup(&self, other: &Self) -> bool {
        &&& self.spec_distribution() == other.spec_distribution()
        &&& self.spec_range() == other.spec_range()
        &&& self.max_attempts() == other.max_attempts()
    }

    /// Returns the density that the chain draws from.
    pub fn distribution(&self) -> (d: &D)
        ensures
            *d == self.spec_distribution(),
    {
        &self.distribution
    }

    /// Returns the density that the chain draws from, to be changed in place.
    pub fn distribution_mut(&mut self) -> (d: &mut D)
        ensures
            *d == old(self).spec_distribution(),
            final(self).spec_distribution() == *final(d),
            final(self).spec_range() == old(self).spec_range(),
            final(self).last_x() == old(self).last_x(),
            final(self).max_attempts() == old(self).max_attempts(),
    {
        &mut self.distribution
    }

    /// Returns the configured interval.
    pub fn range(&self) -> (r: Range<FiniteF64>)
        ensures
            r == self.spec_range(),
    {
        Range { low: self.range.low, high: self.range.high }
    }

    /// Sets the chain's current point.
    pub fn set_last_x(&mut self, x: FiniteF64)
        ensures
            final(self).last_x() == Some(x),
            final(self).same_setup(old(self)),
    {
        self.last_x = Some(x);
    }

    /// Sets the number of candidates one step may reject before it gives up.
    pub fn set_max_attempts(&mut self, max_attempts: usize)
        ensures
            final(self).max_attempts() == max_attempts,
            final(self).last_x() == old(self).last_x(),
            final(self).spec_distribution() == old(self).spec_distribution(),
            final(self).spec_range() == old(self).spec_range(),
    {
        self.max_attempts = max_attempts;
    }
}

/// What a sampler over an interval is set up with: all of it but the
/// point at which its chain stands.
pub struct Setup<D> {
    /// The density that the chain draws from.
    pub distribution: D,
    /// The configured interval.
    pub range: Range<FiniteF64>,
    /// The number of candidates one step may reject.
    pub max_attempts: usize,
}

impl<D: Pdf<FiniteF64>> Setup<D> {
    /// Whether a step of a chain that stands at `last` can start at
    /// `origin`: at `last`, or, if the chain has no point yet, at a point
    /// drawn on the interval.
    pub open spec fn begins<U: UniformSource>(&self, last: Option<FiniteF64>, origin: FiniteF64) -> bool {
        match last {
            Some(x) => origin == x,
            None => drawn::<U>(self.range.low, self.range.high, origin),
        }
    }

    /// Whether a step of a chain that stands at `last` can set out as `run`
    /// has it: it starts at the run's origin, the distribution answers the
    /// run's density for the origin, and the run's height is drawn from
    /// zero up to that density.
    pub open spec fn prepares<U: UniformSource>(&self, last: Option<FiniteF64>, run: Run) -> bool {
        &&& self.begins::<U>(last, run.origin)
        &&& call_ensures(D::pdf, (&self.distribution, &run.origin), run.last_y)
        &&& drawn::<U>(FiniteF64::spec_zero(), run.last_y, run.height)
    }

    /// Whether trial `i` of `run` is a rejected candidate in its turn: it
    /// is drawn on the interval as the trials before it have cut it, the
    /// distribution answers its density, and the height does not take it.
    pub open spec fn tries<U: UniformSource>(&self, run: Run, i: int) -> bool {
        let left = cut_axis(
            self.range.low,
            self.range.high,
            run.origin,
            run.trials.take(i),
        );
        &&& drawn::<U>(left.0, left.1, run.trials[i].0)
        &&& call_ensures(D::pdf, (&self.distribution, &run.trials[i].0), run.trials[i].1)
        &&& !spec_accepts(run.trials[i].1, run.height)
    }

    /// Whether every trial of `run` is a rejected candidate in its turn.
    pub open spec fn rejects<U: UniformSource>(&self, run: Run) -> bool {
        forall|i: int| 0 <= i < run.trials.len() ==> #[trigger] self.tries::<U>(run, i)
    }

    /// Whether a step of a chain that stands at `last` can run as `run` has
    /// it and then take `x` with the density `y`: it has rejected fewer
    /// candidates than the limit, `x` is drawn on the interval as the
    /// trials have cut it, the distribution answers `y` for `x`, and the
    /// height takes it.
    pub open spec fn takes<U: UniformSource>(
        &self,
        last: Option<FiniteF64>,
        run: Run,
        x: FiniteF64,
        y: FiniteF64,
    ) -> bool {
        let left = cut_axis(self.range.low, self.range.high, run.origin, run.trials);
        &&& self.prepares::<U>(last, run)
        &&& self.rejects::<U>(run)
        &&& run.trials.len() < self.max_attempts
        &&& drawn::<U>(left.0, left.1, x)
        &&& call_ensures(D::pdf, (&self.distribution, &x), y)
        &&& spec_accepts(y, run.height)
    }

    /// Whether a step of a chain that stands at `last` can end at `x`.
    pub open spec fn reaches_from<U: UniformSource>(&self, last: Option<FiniteF64>, x: FiniteF64) -> bool {
        exists|run: Run, y: FiniteF64| #[trigger] self.takes::<U>(last, run, x, y)
    }

    /// Whether a step of a chain that stands at `last` can be refused for
    /// what it was given: the ends of the interval are in the wrong order,
    /// or the distribution answers a negative density where the step starts.
    pub open spec fn refuses_from<U: UniformSource>(&self, last: Option<FiniteF64>) -> bool {
        ||| self.range.low.rank() > self.range.high.rank()
        ||| exists|origin: FiniteF64, last_y: FiniteF64|
            {
                &&& self.begins::<U>(last, origin)
                &&& #[trigger] call_ensures(D::pdf, (&self.distribution, &origin), last_y)
                &&& last_y.rank() < 0
            }
    }

    /// Whether a step of a chain that stands at `last` can give up: its
    /// limit is zero, or it can run to the rejection of as many candidates
    /// as the limit allows.
    pub open spec fn exhausts_from<U: UniformSource>(&self, last: Option<FiniteF64>) -> bool {
        ||| self.max_attempts == 0
        ||| exists|run: Run|
            {
                &&& #[trigger] self.prepares::<U>(last, run)
                &&& self.rejects::<U>(run)
                &&& run.trials.len() == self.max_attempts
            }
    }

    /// Whether a step of a chain that stands at `last` can be derailed by
    /// its source: the source can stray where the start is drawn, where
    /// the height is drawn, or where a candidate is drawn.
    pub open spec fn derails_from<U: UniformSource>(&self, last: Option<FiniteF64>) -> bool {
        ||| last is None && strays::<U>(self.range.low, self.range.high)
        ||| exists|origin: FiniteF64, last_y: FiniteF64|
            {
                &&& self.begins::<U>(last, origin)
                &&& #[trigger] call_ensures(D::pdf, (&self.distribution, &origin), last_y)
                &&& strays::<U>(FiniteF64::spec_zero(), last_y)
            }
        ||| exists|run: Run|
            {
                let left = cut_axis(
                    self.range.low,
                    self.range.high,
                    run.origin,
                    run.trials,
                );
                &&& #[trigger] self.prepares::<U>(last, run)
                &&& self.rejects::<U>(run)
                &&& run.trials.len() < self.max_attempts
                &&& strays::<U>(left.0, left.1)
            }
    }

    /// Whether a step of a chain that stands at `last` can fail with an
    /// error of the kind `kind`.
    pub open spec fn fails_from<U: UniformSource>(&self, last: Option<FiniteF64>, kind: ErrorKind) -> bool {
        match kind {
            ErrorKind::InvalidInput => self.refuses_from::<U>(last),
            ErrorKind::Bug => self.derails_from::<U>(last),
            ErrorKind::Other => self.exhausts_from::<U>(last),
            ErrorKind::IoError => false,
        }
    }
}

impl<D: Pdf<FiniteF64>> SliceSampler<D> {
    /// What the sampler is set up with.
    pub open spec fn setup(&self) -> Setup<D> {
        Setup {
            distribution: self.spec_distribution(),
            range: self.spec_range(),
            max_attempts: self.max_attempts(),
        }
    }

    /// Makes a sampler of `distribution` over `range`, with a chain that has
    /// no current point yet.
    pub fn new(distribution: D, range: Range<FiniteF64>) -> (s: Self)
        ensures
            s.spec_distribution() == distribution,
            s.spec_range() == range,
            s.last_x() == None::<FiniteF64>,
            s.max_attempts() == DEFAULT_MAX_ATTEMPTS,
    {
        Self { distribution, range, last_x: None, max_attempts: DEFAULT_MAX_ATTEMPTS }
    }

    /// Draws the next point of the chain.
    ///
    /// A chain without a current point first draws one from the interval.
    /// On success the point drawn lies in the configured interval and is the
    /// chain's new current point.  A failure leaves the chain where it was:
    /// `ErrorKind::InvalidInput` where the interval's ends are in the wrong
    /// order or the density at the current point is negative,
    /// `ErrorKind::Bug` where the source answered with a number it was not
    /// asked for, and `ErrorKind::Other` where `max_attempts` candidates
    /// were rejected.  An interval in the wrong order and a limit of zero
    /// are found before the source or the distribution is asked.
    pub fn sample<U: UniformSource>(&mut self, source: &mut U) -> (r: Result<FiniteF64, Error>)
        ensures
            final(self).same_setup(old(self)),
            old(self).spec_range().low.rank() > old(self).spec_range().high.rank() ==> {
                &&& (r matches Err(e) && e.kind() == ErrorKind::InvalidInput)
                &&& *final(source) == *old(source)
            },
            old(self).spec_range().low.rank() <= old(self).spec_range().high.rank() && old(
                self,
            ).max_attempts() == 0 ==> {
                &&& (r matches Err(e) && e.kind() == ErrorKind::Other)
                &&& *final(source) == *old(source)
            },
            r matches Ok(x) ==> {
                &&& axis_holds(old(self).spec_range().low, old(self).spec_range().high, x)
                &&& old(self).spec_range().low.rank() < old(self).spec_range().high.rank()
                    ==> old(self).spec_range().spec_contains(x)
                &&& final(self).last_x() == Some(x)
                &&& old(self).setup().reaches_from::<U>(old(self).last_x(), x)
            },
            r matches Err(e) ==> {
                &&& final(self).last_x() == old(self).last_x()
                &&& old(self).setup().fails_from::<U>(old(self).last_x(), e.kind())
            },
    {
        let low = self.range.low;
        let high = self.range.high;
        if low > high {
            return Err(Error::new(ErrorKind::InvalidInput));
        }
        if !may_try(0, self.max_attempts) {
            return Err(Error::new(ErrorKind::Other));
        }
        let origin = match self.last_x {
            Some(x) => x,
            None => match draw_axis(source, low, high) {
                Ok(x) => x,
                Err(e) => {
                    return Err(e);
                },
            },
        };
        let last_y = self.distribution.pdf(&origin);
        assert(self.setup().begins::<U>(self.last_x(), origin));
        assert(call_ensures(D::pdf, (&self.setup().distribution, &origin), last_y));
        let border = match draw_axis(source, FiniteF64::zero(), last_y) {
            Ok(h) => h,
            Err(e) => {
                proof {
                    if last_y.rank() < 0 {
                        assert(self.setup().refuses_from::<U>(self.last_x()));
                    } else {
                        assert(strays::<U>(FiniteF64::spec_zero(), last_y));
                        assert(self.setup().derails_from::<U>(self.last_x()));
                    }
                }
                return Err(e);
            },
        };
        let mut lo = low;
        let mut hi = high;
        let mut attempts: usize = 0;
        let ghost mut run = Run { origin, last_y, height: border, trials: Seq::empty() };
        assert(self.setup().prepares::<U>(self.last_x(), run));
        while may_try(attempts, self.max_attempts)
            invariant
                *self == *old(self),
                low == self.spec_range().low,
                high == self.spec_range().high,
                axis_within(lo, hi, low, high),
                run.origin == origin,
                run.last_y == last_y,
                run.height == border,
                run.trials.len() == attempts,
                attempts <= self.max_attempts(),
                self.setup().prepares::<U>(self.last_x(), run),
                self.setup().rejects::<U>(run),
                cut_axis(low, high, origin, run.trials) == (lo, hi),
            decreases self.max_attempts - attempts,
        {
            let x = match draw_axis(source, lo, hi) {
                Ok(x) => x,
                Err(e) => {
                    proof {
                        assert(strays::<U>(lo, hi));
                        assert(self.setup().derails_from::<U>(self.last_x()));
                    }
                    return Err(e);
                },
            };
            let y = self.distribution.pdf(&x);
            assert(call_ensures(D::pdf, (&self.setup().distribution, &x), y));
            if accepts(y, border) {
                proof {
                    assert(self.setup().takes::<U>(self.last_x(), run, x, y));
                }
                self.last_x = Some(x);
                return Ok(x);
            }
            let cut = shrink_axis(lo, hi, x, origin);
            proof {
                let next = Run { origin, last_y, height: border, trials: run.trials.push((x, y)) };
                assert(next.trials.drop_last() =~= run.trials);
                assert forall|i: int| 0 <= i < next.trials.len() implies #[trigger] self.setup().tries::<U>(
                    next,
                    i,
                ) by {
                    if i < run.trials.len() {
                        assert(self.setup().tries::<U>(run, i));
                        assert(next.trials.take(i) =~= run.trials.take(i));
                        assert(next.trials[i] == run.trials[i]);
                    } else {
                        assert(next.trials.take(i) =~= run.trials);
                    }
                }
                run = next;
            }
            lo = cut.0;
            hi = cut.1;
            attempts = attempts + 1;
        }
        proof {
            assert(self.setup().exhausts_from::<U>(self.last_x()));
        }
        Err(Error::new(ErrorKind::Other))
    }

    /// Whether the chain can walk along `v` from where it stands: a step
    /// from there can end at the first point, and a step from each point
    /// can end at the next.
    pub open spec fn walks<U: UniformSource>(&self, v: Seq<FiniteF64>) -> bool {
        &&& v.len() > 0 ==> self.setup().reaches_from::<U>(self.last_x(), v[0])
        &&& forall|i: int|
            0 < i < v.len() ==> self.setup().reaches_from::<U>(Some(v[i - 1]), #[trigger] v[i])
    }

    /// Where the chain stands after it has walked along `v`: at the last
    /// point of `v`, or where it stood if `v` is empty.
    pub open spec fn stands_after(&self, v: Seq<FiniteF64>) -> Option<FiniteF64> {
        if v.len() > 0 {
            Some(v.last())
        } else {
            self.last_x()
        }
    }

    /// Whether a run of `n` steps can stop early at `last` with an error of
    /// the kind `kind`: the chain can walk along fewer than `n` points to
    /// `last`, and a step from there can fail with that kind.
    pub open spec fn stops<U: UniformSource>(&self, n: usize, last: Option<FiniteF64>, kind: ErrorKind) -> bool {
        exists|v: Seq<FiniteF64>|
            {
                &&& #[trigger] self.walks::<U>(v)
                &&& v.len() < n
                &&& last == self.stands_after(v)
                &&& self.setup().fails_from::<U>(last, kind)
            }
    }

    /// Draws the next `n` points of the chain, one step after the other.
    ///
    /// The first step that fails ends the run with its error; the chain
    /// then stands where the last successful step left it.  A run of no
    /// step gives no point and asks nothing.
    pub fn sample_n<U: UniformSource>(&mut self, source: &mut U, n: usize) -> (r: Result<
        Vec<FiniteF64>,
        Error,
    >)
        ensures
            final(self).same_setup(old(self)),
            n == 0 ==> {
                &&& (r matches Ok(v) && v@.len() == 0)
                &&& final(self).last_x() == old(self).last_x()
                &&& *final(source) == *old(source)
            },
            r matches Ok(v) ==> {
                &&& v.len() == n
                &&& forall|i: int|
                    0 <= i < n ==> axis_holds(
                        old(self).spec_range().low,
                        old(self).spec_range().high,
                        #[trigger] v[i],
                    ) && (old(self).spec_range().low.rank() < old(self).spec_range().high.rank()
                        ==> old(self).spec_range().spec_contains(v[i]))
                &&& final(self).last_x() == old(self).stands_after(v@)
                &&& old(self).walks::<U>(v@)
            },
            r matches Err(e) ==> old(self).stops::<U>(n, final(self).last_x(), e.kind()),
    {
        let mut drawn: Vec<FiniteF64> = Vec::new();
        while drawn.len() < n
            invariant
                self.same_setup(old(self)),
                drawn.len() <= n,
                forall|i: int|
                    0 <= i < drawn.len() ==> axis_holds(
                        old(self).spec_range().low,
                        old(self).spec_range().high,
                        #[trigger] drawn[i],
                    ) && (old(self).spec_range().low.rank() < old(self).spec_range().high.rank()
                        ==> old(self).spec_range().spec_contains(drawn[i])),
                self.last_x() == old(self).stands_after(drawn@),
                old(self).walks::<U>(drawn@),
                drawn.len() == 0 ==> *source == *old(source),
            decreases n - drawn.len(),
        {
            let ghost before = drawn@;
            match self.sample(source) {
                Ok(x) => {
                    drawn.push(x);
                    proof {
                        assert forall|i: int| 0 < i < drawn@.len() implies old(
                            self,
                        ).setup().reaches_from::<U>(Some(drawn@[i - 1]), #[trigger] drawn@[i]) by {
                            if i < before.len() {
                                assert(drawn@[i] == before[i] && drawn@[i - 1] == before[i - 1]);
                            }
                        }
                        if before.len() > 0 {
                            assert(drawn@[0] == before[0]);
                        }
                    }
                },
                Err(e) => {
                    proof {
                        assert(old(self).walks::<U>(before));
                        assert(old(self).stops::<U>(n, self.last_x(), e.kind()));
                    }
                    return Err(e);
                },
            }
        }
        Ok(drawn)
    }
}

/// A point of three coordinates.
pub type Point3 = (FiniteF64, FiniteF64, FiniteF64);

/// Whether `p` lies in the box from `low` to `high`, axis by axis.
pub open spec fn box_holds(low: Point3, high: Point3, p: Point3) -> bool {
    &&& axis_holds(low.0, high.0, p.0)
    &&& axis_holds(low.1, high.1, p.1)
    &&& axis_holds(low.2, high.2, p.2)
}

/// Whether the box from `lo` to `hi` is a part of the box from `low` to `high`.
pub open spec fn box_within(lo: Point3, hi: Point3, low: Point3, high: Point3) -> bool {
    &&& axis_within(lo.0, hi.0, low.0, high.0)
    &&& axis_within(lo.1, hi.1, low.1, high.1)
    &&& axis_within(lo.2, hi.2, low.2, high.2)
}

/// Whether no axis of the box has its ends in the wrong order.
pub open spec fn box_ordered(low: Point3, high: Point3) -> bool {
    &&& low.0.rank() <= high.0.rank()
    &&& low.1.rank() <= high.1.rank()
    &&& low.2.rank() <= high.2.rank()
}

/// Whether the box has no width: on each axis its two ends are equal.
pub open spec fn box_flat(low: Point3, high: Point3) -> bool {
    &&& low.0.rank() == high.0.rank()
    &&& low.1.rank() == high.1.rank()
    &&& low.2.rank() == high.2.rank()
}

/// Whether `p` can be drawn in the box from `low` to `high`: each of its
/// coordinates can be drawn on its axis.
pub open spec fn drawn_in_box<U: UniformSource>(low: Point3, high: Point3, p: Point3) -> bool {
    &&& drawn::<U>(low.0, high.0, p.0)
    &&& drawn::<U>(low.1, high.1, p.1)
    &&& drawn::<U>(low.2, high.2, p.2)
}

/// Whether the source can stray in the box from `low` to `high`: the box
/// has its ends in order, and the source can stray on one of its axes.
pub open spec fn strays_in_box<U: UniformSource>(low: Point3, high: Point3) -> bool {
    &&& box_ordered(low, high)
    &&& (strays::<U>(low.0, high.0) || strays::<U>(low.1, high.1) || strays::<U>(low.2, high.2))
}

/// The box from `low` to `high`, cut back to the rejected candidate `x`:
/// on each axis, on the side of `x` that is away from `origin`.
pub open spec fn spec_shrink_box(low: Point3, high: Point3, x: Point3, origin: Point3) -> (
    Point3,
    Point3,
) {
    let a = spec_shrink_axis(low.0, high.0, x.0, origin.0);
    let b = spec_shrink_axis(low.1, high.1, x.1, origin.1);
    let c = spec_shrink_axis(low.2, high.2, x.2, origin.2);
    ((a.0, b.0, c.0), (a.1, b.1, c.1))
}

/// Cuts a box back to a rejected candidate `x`: on each axis, on the side of
/// `x` that is away from the chain's current point `origin`.
pub fn shrink_box(range: Range<Point3>, x: Point3, origin: Point3) -> (r: Range<Point3>)
    ensures
        (r.low, r.high) == spec_shrink_box(range.low, range.high, x, origin),
        box_holds(range.low, range.high, x) ==> box_within(r.low, r.high, range.low, range.high),
{
    let a = shrink_axis(range.low.0, range.high.0, x.0, origin.0);
    let b = shrink_axis(range.low.1, range.high.1, x.1, origin.1);
    let c = shrink_axis(range.low.2, range.high.2, x.2, origin.2);
    Range { low: (a.0, b.0, c.0), high: (a.1, b.1, c.1) }
}

/// What a step in a box drew and was answered before it took a point or
/// failed: where it started, the density there, the height, and the
/// candidates it rejected, each with its density, in their turn.
pub struct Run3d {
    /// The point at which the step started.
    pub origin: Point3,
    /// The density at the start.
    pub last_y: FiniteF64,
    /// The height of the slice.
    pub height: FiniteF64,
    /// The rejected candidates and their densities.
    pub trials: Seq<(Point3, FiniteF64)>,
}

/// The box that is left of the one from `low` to `high` after the
/// candidates of `trials` were rejected in turn.
pub open spec fn cut_box(low: Point3, high: Point3, origin: Point3, trials: Seq<(Point3, FiniteF64)>) -> (
    Point3,
    Point3,
)
    decreases trials.len(),
{
    if trials.len() == 0 {
        (low, high)
    } else {
        let before = cut_box(low, high, origin, trials.drop_last());
        spec_shrink_box(before.0, before.1, trials.last().0, origin)
    }
}

/// What a sampler over a box is set up with: all of it but the state of
/// its chain.
pub struct Setup3d<D> {
    /// The density that the chain draws from.
    pub distribution: D,
    /// The configured box.
    pub range: Range<Point3>,
    /// The number of candidates one step may reject.
    pub max_attempts: usize,
}

impl<D: Pdf<Point3>> Setup3d<D> {
    /// Whether a step of a chain that stands at `last` and keeps the
    /// density `kept` can set out from `origin` with the density `last_y`:
    /// `origin` is `last`, or drawn in the box if the chain has no point
    /// yet, and `last_y` is `kept`, or an answer of the distribution for
    /// `origin` if the chain keeps no density.
    pub open spec fn sets_out<U: UniformSource>(
        &self,
        last: Option<Point3>,
        kept: Option<FiniteF64>,
        origin: Point3,
        last_y: FiniteF64,
    ) -> bool {
        &&& match last {
            Some(p) => origin == p,
            None => drawn_in_box::<U>(self.range.low, self.range.high, origin),
        }
        &&& match kept {
            Some(y) => last_y == y,
            None => call_ensures(D::pdf, (&self.distribution, &origin), last_y),
        }
    }

    /// Whether a step can set out as `run` has it: from the run's origin
    /// with the run's density, and with the run's height drawn from zero
    /// up to that density.
    pub open spec fn prepares<U: UniformSource>(
        &self,
        last: Option<Point3>,
        kept: Option<FiniteF64>,
        run: Run3d,
    ) -> bool {
        &&& self.sets_out::<U>(last, kept, run.origin, run.last_y)
        &&& drawn::<U>(FiniteF64::spec_zero(), run.last_y, run.height)
    }

    /// Whether trial `i` of `run` is a rejected candidate in its turn: it
    /// is drawn in the box as the trials before it have cut it, the
    /// distribution answers its density, and the height does not take it.
    pub open spec fn tries<U: UniformSource>(&self, run: Run3d, i: int) -> bool {
        let left = cut_box(self.range.low, self.range.high, run.origin, run.trials.take(i));
        &&& drawn_in_box::<U>(left.0, left.1, run.trials[i].0)
        &&& call_ensures(D::pdf, (&self.distribution, &run.trials[i].0), run.trials[i].1)
        &&& !spec_accepts(run.trials[i].1, run.height)
    }

    /// Whether every trial of `run` is a rejected candidate in its turn.
    pub open spec fn rejects<U: UniformSource>(&self, run: Run3d) -> bool {
        forall|i: int| 0 <= i < run.trials.len() ==> #[trigger] self.tries::<U>(run, i)
    }

    /// Whether a step can run as `run` has it and then take `x` with the
    /// density `y`: it has rejected fewer candidates than the limit, `x` is
    /// drawn in the box as the trials have cut it, the distribution
    /// answers `y` for `x`, and the height takes it.
    pub open spec fn takes<U: UniformSource>(
        &self,
        last: Option<Point3>,
        kept: Option<FiniteF64>,
        run: Run3d,
        x: Point3,
        y: FiniteF64,
    ) -> bool {
        let left = cut_box(self.range.low, self.range.high, run.origin, run.trials);
        &&& self.prepares::<U>(last, kept, run)
        &&& self.rejects::<U>(run)
        &&& run.trials.len() < self.max_attempts
        &&& drawn_in_box::<U>(left.0, left.1, x)
        &&& call_ensures(D::pdf, (&self.distribution, &x), y)
        &&& spec_accepts(y, run.height)
    }

    /// Whether a step of a chain that stands at `last` and keeps the
    /// density `kept` can end at `x` with the density `y`.
    pub open spec fn reaches_from<U: UniformSource>(
        &self,
        last: Option<Point3>,
        kept: Option<FiniteF64>,
        x: Point3,
        y: FiniteF64,
    ) -> bool {
        exists|run: Run3d| #[trigger] self.takes::<U>(last, kept, run, x, y)
    }

    /// Whether a step can be refused for what it was given: an axis of the
    /// box has its ends in the wrong order, or the step can set out with a
    /// negative density.
    pub open spec fn refuses_from<U: UniformSource>(&self, last: Option<Point3>, kept: Option<FiniteF64>) -> bool {
        ||| !box_ordered(self.range.low, self.range.high)
        ||| exists|origin: Point3, last_y: FiniteF64| #[trigger]
            self.sets_out::<U>(last, kept, origin, last_y) && last_y.rank() < 0
    }

    /// Whether a step can give up: its limit is zero, or it can run to the
    /// rejection of as many candidates as the limit allows.
    pub open spec fn exhausts_from<U: UniformSource>(&self, last: Option<Point3>, kept: Option<FiniteF64>) -> bool {
        ||| self.max_attempts == 0
        ||| exists|run: Run3d|
            {
                &&& #[trigger] self.prepares::<U>(last, kept, run)
                &&& self.rejects::<U>(run)
                &&& run.trials.len() == self.max_attempts
            }
    }

    /// Whether a step can be derailed by its source: the source can stray
    /// where the start is drawn, where the height is drawn, or where a
    /// candidate is drawn.
    pub open spec fn derails_from<U: UniformSource>(&self, last: Option<Point3>, kept: Option<FiniteF64>) -> bool {
        ||| last is None && strays_in_box::<U>(self.range.low, self.range.high)
        ||| exists|origin: Point3, last_y: FiniteF64| #[trigger]
            self.sets_out::<U>(last, kept, origin, last_y) && strays::<U>(
                FiniteF64::spec_zero(),
                last_y,
            )
        ||| exists|run: Run3d|
            {
                let left = cut_box(self.range.low, self.range.high, run.origin, run.trials);
                &&& #[trigger] self.prepares::<U>(last, kept, run)
                &&& self.rejects::<U>(run)
                &&& run.trials.len() < self.max_attempts
                &&& strays_in_box::<U>(left.0, left.1)
            }
    }

    /// Whether a step of a chain that stands at `last` and keeps the
    /// density `kept` can fail with an error of the kind `kind`.
    pub open spec fn fails_from<U: UniformSource>(
        &self,
        last: Option<Point3>,
        kept: Option<FiniteF64>,
        kind: ErrorKind,
    ) -> bool {
        match kind {
            ErrorKind::InvalidInput => self.refuses_from::<U>(last, kept),
            ErrorKind::Bug => self.derails_from::<U>(last, kept),
            ErrorKind::Other => self.exhausts_from::<U>(last, kept),
            ErrorKind::IoError => false,
        }
    }
}

/// A slice sampler over a box of three axes.
#[derive(Debug)]
pub struct SliceSampler3d<D> {
    distribution: D,
    range: Range<Point3>,
    last_point: Option<Point3>,
    last_y: Option<FiniteF64>,
    max_attempts: usize,
}

impl<D> SliceSampler3d<D> {
    /// The density that the chain draws from.
    pub closed spec fn spec_distribution(&self) -> D {
        self.distribution
    }

    /// The configured box.
    pub closed spec fn spec_range(&self) -> Range<Point3> {
        self.range
    }

    /// The chain's current point, if it has one.
    pub closed spec fn last_point(&self) -> Option<Point3> {
        self.last_point
    }

    /// The density at the chain's current point, if it has been taken.
    pub closed spec fn last_y(&self) -> Option<FiniteF64> {
        self.last_y
    }

    /// The number of candidates one step may reject.
    pub closed spec fn max_attempts(&self) -> usize {
        self.max_attempts
    }

    /// Whether two samplers differ in nothing but the state of the chain.
    pub open spec fn same_setup(&self, other: &Self) -> bool {
        &&& self.spec_distribution() == other.spec_distribution()
        &&& self.spec_range() == other.spec_range()
        &&& self.max_attempts() == other.max_attempts()
    }

    /// Makes a sampler of `distribution` over `range`, with a chain that has
    /// no current point yet.
    pub fn new(distribution: D, range: Range<Point3>) -> (s: Self)
        ensures
            s.spec_distribution() == distribution,
            s.spec_range() == range,
            s.last_point() == None::<Point3>,
            s.last_y() == None::<FiniteF64>,
            s.max_attempts() == DEFAULT_MAX_ATTEMPTS,
    {
        Self {
            distribution,
            range,
            last_point: None,
            last_y: None,
            max_attempts: DEFAULT_MAX_ATTEMPTS,
        }
    }

    /// Sets the chain's current point.  The density there is taken anew by
    /// the next step.
    pub fn set_last_point(&mut self, point: Point3)
        ensures
            final(self).last_point() == Some(point),
            final(self).last_y() == None::<FiniteF64>,
            final(self).same_setup(old(self)),
    {
        self.last_point = Some(point);
        self.last_y = None;
    }

    /// Sets the number of candidates one step may reject before it gives up.
    pub fn set_max_attempts(&mut self, max_attempts: usize)
        ensures
            final(self).max_attempts() == max_attempts,
            final(self).last_point() == old(self).last_point(),
            final(self).last_y() == old(self).last_y(),
            final(self).spec_distribution() == old(self).spec_distribution(),
            final(self).spec_range() == old(self).spec_range(),
    {
        self.max_attempts = max_attempts;
    }

    /// Draws a point from the box `range`, one axis after the other.
    ///
    /// A box with an axis whose ends are in the wrong order is an
    /// `ErrorKind::InvalidInput` error, found before the source is asked.
    /// An axis whose ends are equal is fixed at that value, and the source
    /// is not asked for it: in a box without width it is not asked at all.
    /// An answer of the source that is off its axis is an `ErrorKind::Bug`
    /// error.
    pub fn gen_range<U: UniformSource>(&self, source: &mut U, range: Range<Point3>) -> (r: Result<
        Point3,
        Error,
    >)
        ensures
            !box_ordered(range.low, range.high) ==> {
                &&& (r matches Err(e) && e.kind() == ErrorKind::InvalidInput)
                &&& *final(source) == *old(source)
            },
            box_flat(range.low, range.high) ==> {
                &&& r == Ok::<Point3, Error>(range.low)
                &&& *final(source) == *old(source)
            },
            r matches Ok(p) ==> {
                &&& drawn_in_box::<U>(range.low, range.high, p)
                &&& box_holds(range.low, range.high, p)
            },
            r matches Err(e) ==> (if !box_ordered(range.low, range.high) {
                e.kind() == ErrorKind::InvalidInput
            } else {
                e.kind() == ErrorKind::Bug && strays_in_box::<U>(range.low, range.high)
            }),
    {
        if range.low.0 > range.high.0 || range.low.1 > range.high.1 || range.low.2 > range.high.2 {
            return Err(Error::new(ErrorKind::InvalidInput));
        }
        let x = match draw_axis(source, range.low.0, range.high.0) {
            Ok(x) => x,
            Err(e) => {
                return Err(e);
            },
        };
        let y = match draw_axis(source, range.low.1, range.high.1) {
            Ok(y) => y,
            Err(e) => {
                return Err(e);
            },
        };
        let z = match draw_axis(source, range.low.2, range.high.2) {
            Ok(z) => z,
            Err(e) => {
                return Err(e);
            },
        };
        Ok((x, y, z))
    }
}

impl<D: Pdf<Point3>> SliceSampler3d<D> {
    /// What the sampler is set up with.
    pub open spec fn setup(&self) -> Setup3d<D> {
        Setup3d {
            distribution: self.spec_distribution(),
            range: self.spec_range(),
            max_attempts: self.max_attempts(),
        }
    }

    /// Whether the density that the chain keeps, if it keeps one, is an
    /// answer of the distribution for the chain's current point.
    pub open spec fn coherent(&self) -> bool {
        match self.last_y() {
            Some(y) => match self.last_point() {
                Some(p) => call_ensures(D::pdf, (&self.spec_distribution(), &p), y),
                None => false,
            },
            None => true,
        }
    }

    /// Draws the next point of the chain.
    ///
    /// A chain without a current point first draws one from the box, and a
    /// chain that does not know the density at its current point first takes
    /// it.  On success the point drawn lies in the configured box and is the
    /// chain's new current point, with its density.  A failure leaves the
    /// chain where it was: `ErrorKind::InvalidInput` where an axis of the
    /// box has its ends in the wrong order or the density at the current
    /// point is negative, `ErrorKind::Bug` where the source answered with a
    /// number it was not asked for, and `ErrorKind::Other` where
    /// `max_attempts` candidates were rejected.  A box in the wrong order
    /// and a limit of zero are found before the source or the distribution
    /// is asked.  In a box without width a chain that keeps a density of
    /// zero takes the one point of the box, and the source is not asked.
    pub fn sample<U: UniformSource>(&mut self, source: &mut U) -> (r: Result<Point3, Error>)
        ensures
            final(self).same_setup(old(self)),
            !box_ordered(old(self).spec_range().low, old(self).spec_range().high) ==> {
                &&& (r matches Err(e) && e.kind() == ErrorKind::InvalidInput)
                &&& *final(source) == *old(source)
            },
            box_ordered(old(self).spec_range().low, old(self).spec_range().high) && old(
                self,
            ).max_attempts() == 0 ==> {
                &&& (r matches Err(e) && e.kind() == ErrorKind::Other)
                &&& *final(source) == *old(source)
            },
            box_flat(old(self).spec_range().low, old(self).spec_range().high) && old(
                self,
            ).max_attempts() > 0 && (old(self).last_y() matches Some(kept) && kept.rank() == 0) ==> {
                &&& r == Ok::<Point3, Error>(old(self).spec_range().low)
                &&& *final(source) == *old(source)
            },
            r matches Ok(p) ==> {
                &&& box_holds(old(self).spec_range().low, old(self).spec_range().high, p)
                &&& final(self).last_point() == Some(p)
                &&& final(self).last_y() is Some
                &&& final(self).coherent()
                &&& old(self).setup().reaches_from::<U>(
                    old(self).last_point(),
                    old(self).last_y(),
                    p,
                    final(self).last_y()->0,
                )
            },
            r matches Err(e) ==> {
                &&& final(self).last_point() == old(self).last_point()
                &&& final(self).last_y() == old(self).last_y()
                &&& old(self).setup().fails_from::<U>(
                    old(self).last_point(),
                    old(self).last_y(),
                    e.kind(),
                )
            },
    {
        let low = self.range.low;
        let high = self.range.high;
        if low.0 > high.0 || low.1 > high.1 || low.2 > high.2 {
            return Err(Error::new(ErrorKind::InvalidInput));
        }
        if !may_try(0, self.max_attempts) {
            return Err(Error::new(ErrorKind::Other));
        }
        let origin = match self.last_point {
            Some(p) => p,
            None => match self.gen_range(source, Range { low, high }) {
                Ok(p) => p,
                Err(e) => {
                    return Err(e);
                },
            },
        };
        let last_y = match self.last_y {
            Some(y) => y,
            None => self.distribution.pdf(&origin),
        };
        assert(self.setup().sets_out::<U>(self.last_point(), self.last_y(), origin, last_y));
        let border = match draw_axis(source, FiniteF64::zero(), last_y) {
            Ok(h) => h,
            Err(e) => {
                proof {
                    if last_y.rank() < 0 {
                        assert(self.setup().refuses_from::<U>(self.last_point(), self.last_y()));
                    } else {
                        assert(strays::<U>(FiniteF64::spec_zero(), last_y));
                        assert(self.setup().derails_from::<U>(self.last_point(), self.last_y()));
                    }
                }
                return Err(e);
            },
        };
        let mut range = Range { low, high };
        let mut attempts: usize = 0;
        let ghost mut run = Run3d { origin, last_y, height: border, trials: Seq::empty() };
        assert(self.setup().prepares::<U>(self.last_point(), self.last_y(), run));
        while may_try(attempts, self.max_attempts)
            invariant
                *self == *old(self),
                low == self.spec_range().low,
                high == self.spec_range().high,
                box_within(range.low, range.high, low, high),
                run.origin == origin,
                run.last_y == last_y,
                run.height == border,
                run.trials.len() == attempts,
                attempts <= self.max_attempts(),
                self.setup().prepares::<U>(self.last_point(), self.last_y(), run),
                self.setup().rejects::<U>(run),
                cut_box(low, high, origin, run.trials) == (range.low, range.high),
                box_flat(low, high) && (self.last_y() matches Some(kept) && kept.rank() == 0)
                    ==> attempts == 0 && *source == *old(source) && border.rank() == 0,
            decreases self.max_attempts - attempts,
        {
            proof {
                if attempts == 0 {
                    assert(run.trials =~= Seq::empty());
                    assert(range.low == low && range.high == high);
                }
            }
            let x = match self.gen_range(source, Range { low: range.low, high: range.high }) {
                Ok(x) => x,
                Err(e) => {
                    proof {
                        assert(strays_in_box::<U>(range.low, range.high));
                        assert(self.setup().derails_from::<U>(self.last_point(), self.last_y()));
                    }
                    return Err(e);
                },
            };
            let y = self.distribution.pdf(&x);
            assert(call_ensures(D::pdf, (&self.setup().distribution, &x), y));
            if accepts(y, border) {
                proof {
                    assert(self.setup().takes::<U>(self.last_point(), self.last_y(), run, x, y));
                }
                self.last_point = Some(x);
                self.last_y = Some(y);
                return Ok(x);
            }
            let cut = shrink_box(Range { low: range.low, high: range.high }, x, origin);
            proof {
                let next = Run3d {
                    origin,
                    last_y,
                    height: border,
                    trials: run.trials.push((x, y)),
                };
                assert(next.trials.drop_last() =~= run.trials);
                assert forall|i: int| 0 <= i < next.trials.len() implies #[trigger] self.setup().tries::<
                    U,
                >(next, i) by {
                    if i < run.trials.len() {
                        assert(self.setup().tries::<U>(run, i));
                        assert(next.trials.take(i) =~= run.trials.take(i));
                        assert(next.trials[i] == run.trials[i]);
                    } else {
                        assert(next.trials.take(i) =~= run.trials);
                    }
                }
                run = next;
            }
            range = cut;
            attempts = attempts + 1;
        }
        proof {
            assert(self.setup().exhausts_from::<U>(self.last_point(), self.last_y()));
        }
        Err(Error::new(ErrorKind::Other))
    }

    /// Whether the chain can walk along `v` from where it stands, with the
    /// densities `ys` at the points of `v`: a step from there can end at
    /// the first point, and a step from each point can end at the next.
    pub open spec fn walks<U: UniformSource>(&self, v: Seq<Point3>, ys: Seq<FiniteF64>) -> bool {
        &&& ys.len() == v.len()
        &&& v.len() > 0 ==> self.setup().reaches_from::<U>(
            self.last_point(),
            self.last_y(),
            v[0],
            ys[0],
        )
        &&& forall|i: int|
            0 < i < v.len() ==> self.setup().reaches_from::<U>(
                Some(v[i - 1]),
                Some(ys[i - 1]),
                #[trigger] v[i],
                ys[i],
            )
    }

    /// Whether the chain stands at `last` and keeps the density `kept`
    /// after it has walked along `v` with the densities `ys`: at the last
    /// point of `v` with its density, or as it stood if `v` is empty.
    pub open spec fn stands_after(
        &self,
        v: Seq<Point3>,
        ys: Seq<FiniteF64>,
        last: Option<Point3>,
        kept: Option<FiniteF64>,
    ) -> bool {
        if v.len() > 0 {
            last == Some(v.last()) && kept == Some(ys.last())
        } else {
            last == self.last_point() && kept == self.last_y()
        }
    }

    /// Whether the chain can walk along `v` from where it stands and then
    /// stand at `last` with the density `kept`.
    pub open spec fn walked<U: UniformSource>(
        &self,
        v: Seq<Point3>,
        last: Option<Point3>,
        kept: Option<FiniteF64>,
    ) -> bool {
        exists|ys: Seq<FiniteF64>| #[trigger]
            self.walks::<U>(v, ys) && self.stands_after(v, ys, last, kept)
    }

    /// Whether a run of `n` steps can stop early with an error of the kind
    /// `kind`, the chain then standing at `last` with the density `kept`:
    /// the chain can walk along fewer than `n` points to there, and a step
    /// from there can fail with that kind.
    pub open spec fn stops<U: UniformSource>(
        &self,
        n: usize,
        last: Option<Point3>,
        kept: Option<FiniteF64>,
        kind: ErrorKind,
    ) -> bool {
        exists|v: Seq<Point3>, ys: Seq<FiniteF64>|
            {
                &&& #[trigger] self.walks::<U>(v, ys)
                &&& v.len() < n
                &&& self.stands_after(v, ys, last, kept)
                &&& self.setup().fails_from::<U>(last, kept, kind)
            }
    }

    /// Draws the next `n` points of the chain, one step after the other.
    ///
    /// The first step that fails ends the run with its error; the chain
    /// then stands where the last successful step left it.  A run of no
    /// step gives no point and asks nothing.
    pub fn sample_n<U: UniformSource>(&mut self, source: &mut U, n: usize) -> (r: Result<
        Vec<Point3>,
        Error,
    >)
        ensures
            final(self).same_setup(old(self)),
            n == 0 ==> {
                &&& (r matches Ok(v) && v@.len() == 0)
                &&& final(self).last_point() == old(self).last_point()
                &&& final(self).last_y() == old(self).last_y()
                &&& *final(source) == *old(source)
            },
            r matches Ok(v) ==> {
                &&& v.len() == n
                &&& forall|i: int|
                    0 <= i < n ==> box_holds(
                        old(self).spec_range().low,
                        old(self).spec_range().high,
                        #[trigger] v[i],
                    )
                &&& old(self).walked::<U>(v@, final(self).last_point(), final(self).last_y())
            },
            r matches Err(e) ==> old(self).stops::<U>(
                n,
                final(self).last_point(),
                final(self).last_y(),
                e.kind(),
            ),
            old(self).coherent() ==> final(self).coherent(),
    {
        let mut drawn: Vec<Point3> = Vec::new();
        let ghost mut ys: Seq<FiniteF64> = Seq::empty();
        while drawn.len() < n
            invariant
                self.same_setup(old(self)),
                drawn.len() <= n,
                forall|i: int|
                    0 <= i < drawn.len() ==> box_holds(
                        old(self).spec_range().low,
                        old(self).spec_range().high,
                        #[trigger] drawn[i],
                    ),
                old(self).coherent() ==> self.coherent(),
                old(self).walks::<U>(drawn@, ys),
                old(self).stands_after(drawn@, ys, self.last_point(), self.last_y()),
                drawn.len() == 0 ==> *source == *old(source),
            decreases n - drawn.len(),
        {
            let ghost before = drawn@;
            let ghost before_ys = ys;
            match self.sample(source) {
                Ok(p) => {
                    drawn.push(p);
                    proof {
                        ys = ys.push(self.last_y()->0);
                        assert forall|i: int| 0 < i < drawn@.len() implies old(
                            self,
                        ).setup().reaches_from::<U>(
                            Some(drawn@[i - 1]),
                            Some(ys[i - 1]),
                            #[trigger] drawn@[i],
                            ys[i],
                        ) by {
                            if i < before.len() {
                                assert(drawn@[i] == before[i] && drawn@[i - 1] == before[i - 1]);
                                assert(ys[i] == before_ys[i] && ys[i - 1] == before_ys[i - 1]);
                            }
                        }
                        if before.len() > 0 {
                            assert(drawn@[0] == before[0] && ys[0] == before_ys[0]);
                        }
                    }
                },
                Err(e) => {
                    proof {
                        assert(old(self).walks::<U>(before, before_ys));
                        assert(old(self).stops::<U>(n, self.last_point(), self.last_y(), e.kind()));
                    }
                    return Err(e);
                },
            }
        }
        proof {
            assert(old(self).walks::<U>(drawn@, ys));
            assert(old(self).walked::<U>(drawn@, self.last_point(), self.last_y()));
        }
        Ok(drawn)
    }
}

} // verus!
