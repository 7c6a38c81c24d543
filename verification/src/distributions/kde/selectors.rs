//! Bandwidth selectors.
use super::Point;
use crate::distributions::Pdf;
use crate::error::{Error, ErrorKind};
use crate::matrix::Matrix2;
use crate::num::FiniteF64;
use crate::range::Range;
use crate::samplers::{
    box_holds, Point3, SliceSampler3d, UniformSource, DEFAULT_MAX_ATTEMPTS,
};
use vstd::prelude::*;

verus! {

/// A strategy that chooses the bandwidth for a set of sample points.
pub trait SelectBandwidth<P: Point> {
    /// Chooses the bandwidth for `points`, or fails where the points admit
    /// none.
    fn select_bandwidth(&self, points: &[P]) -> Result<P::Bandwidth, Error>;
}

/// A matrix selects itself, whatever the points are.
impl SelectBandwidth<(FiniteF64, FiniteF64)> for Matrix2 {
    fn select_bandwidth(&self, _points: &[(FiniteF64, FiniteF64)]) -> (r: Result<Matrix2, Error>)
        ensures
            r == Ok::<Matrix2, Error>(*self),
    {
        Ok(*self)
    }
}

/// The least number of sample points that admit a bandwidth: the spread of
/// fewer says nothing.
pub const MIN_POINTS: usize = 2;

/// Judges whether there are sample points enough to choose a bandwidth for.
///
/// With fewer than `MIN_POINTS`, an `ErrorKind::InvalidInput` error is
/// returned.
pub fn enough_points<P>(points: &[P]) -> (r: Result<(), Error>)
    ensures
        r is Ok <==> points@.len() >= MIN_POINTS,
        r matches Err(e) ==> e.kind() == ErrorKind::InvalidInput,
{
    if points.len() >= MIN_POINTS {
        Ok(())
    } else {
        Err(Error::new(ErrorKind::InvalidInput))
    }
}

/// Whether the points differ from each other on the first axis.
pub open spec fn spread_on_first(points: Seq<(FiniteF64, FiniteF64)>) -> bool {
    exists|i: int, j: int|
        0 <= i < points.len() && 0 <= j < points.len() && (#[trigger] points[i]).0.rank() != (
        #[trigger] points[j]).0.rank()
}

/// Whether the points differ from each other on the second axis.
pub open spec fn spread_on_second(points: Seq<(FiniteF64, FiniteF64)>) -> bool {
    exists|i: int, j: int|
        0 <= i < points.len() && 0 <= j < points.len() && (#[trigger] points[i]).1.rank() != (
        #[trigger] points[j]).1.rank()
}

/// Judges whether the sample points are spread on both axes: on each axis
/// two of them differ, so that neither standard deviation is zero and a
/// rule of thumb has a bandwidth for them.
///
/// Where they are not, an `ErrorKind::InvalidInput` error is returned.
pub fn spread_points(points: &[(FiniteF64, FiniteF64)]) -> (r: Result<(), Error>)
    ensures
        r is Ok <==> spread_on_first(points@) && spread_on_second(points@),
        r is Ok ==> points@.len() >= MIN_POINTS,
        r matches Err(e) ==> e.kind() == ErrorKind::InvalidInput,
{
    let mut first = false;
    let mut second = false;
    let mut i: usize = 1;
    while i < points.len()
        invariant
            1 <= i,
            first <==> exists|k: int| 0 <= k < i && k < points@.len() && (#[trigger] points@[k]).0.rank()
                != points@[0].0.rank(),
            second <==> exists|k: int|
                0 <= k < i && k < points@.len() && (#[trigger] points@[k]).1.rank()
                    != points@[0].1.rank(),
        decreases points@.len() - i,
    {
        if points[i].0 != points[0].0 {
            first = true;
        }
        if points[i].1 != points[0].1 {
            second = true;
        }
        i = i + 1;
    }
    proof {
        if spread_on_first(points@) && !first {
            let (a, b) = choose|a: int, b: int|
                0 <= a < points@.len() && 0 <= b < points@.len() && (#[trigger] points@[a]).0.rank()
                    != (#[trigger] points@[b]).0.rank();
            assert(points@[a].0.rank() != points@[0].0.rank() || points@[b].0.rank()
                != points@[0].0.rank());
        }
        if spread_on_second(points@) && !second {
            let (a, b) = choose|a: int, b: int|
                0 <= a < points@.len() && 0 <= b < points@.len() && (#[trigger] points@[a]).1.rank()
                    != (#[trigger] points@[b]).1.rank();
            assert(points@[a].1.rank() != points@[0].1.rank() || points@[b].1.rank()
                != points@[0].1.rank());
        }
        if first {
            let k = choose|k: int|
                0 <= k < points@.len() && (#[trigger] points@[k]).0.rank() != points@[0].0.rank();
            assert(points@[k].0.rank() != points@[0].0.rank());
        }
        if second {
            let k = choose|k: int|
                0 <= k < points@.len() && (#[trigger] points@[k]).1.rank() != points@[0].1.rank();
            assert(points@[k].1.rank() != points@[0].1.rank());
        }
    }
    if first && second {
        Ok(())
    } else {
        Err(Error::new(ErrorKind::InvalidInput))
    }
}

/// Returns the sample points without the one at `i`, in their order: the
/// points that the one at `i` is held against when the likelihood of a
/// bandwidth is taken by leaving one out.
///
/// Where there is no point at `i`, an `ErrorKind::InvalidInput` error is
/// returned.
pub fn leave_one_out<P: Copy>(points: &[P], i: usize) -> (r: Result<Vec<P>, Error>)
    ensures
        r is Ok <==> i < points@.len(),
        r matches Ok(v) ==> v@ == points@.remove(i as int),
        r matches Err(e) ==> e.kind() == ErrorKind::InvalidInput,
{
    if i >= points.len() {
        return Err(Error::new(ErrorKind::InvalidInput));
    }
    let mut others: Vec<P> = Vec::new();
    let mut j: usize = 0;
    while j < points.len()
        invariant
            i < points@.len(),
            j <= points@.len(),
            j <= i ==> others@ == points@.take(j as int),
            j > i ==> others@ == points@.take(j as int).remove(i as int),
        decreases points@.len() - j,
    {
        if j != i {
            others.push(points[j]);
            proof {
                if j < i {
                    assert(points@.take(j + 1) =~= points@.take(j as int).push(points@[j as int]));
                } else {
                    assert(points@.take(j + 1).remove(i as int) =~= points@.take(j as int).remove(
                        i as int,
                    ).push(points@[j as int]));
                }
            }
        } else {
            proof {
                assert(points@.take(j + 1).remove(i as int) =~= points@.take(j as int));
            }
        }
        j = j + 1;
    }
    proof {
        assert(points@.take(points@.len() as int) =~= points@);
    }
    Ok(others)
}

/// Silverman's rule of thumb: a bandwidth in closed form, from the
/// standard deviation of the points on each axis and their number.
///
/// This type names the rule, as the selector that a builder starts with.
/// The formula of the rule is arithmetic on the points, which this crate
/// leaves to its caller: an estimator is built with a selector of the
/// caller's that implements [`SelectBandwidth`] by this rule.  What the
/// rule asks of the points is here: [`enough_points`], [`spread_points`].
#[derive(Debug, Default, Clone, Copy)]
pub struct SilvermanRot;

/// Scott's rule of thumb.  Like [`SilvermanRot`], the name of a rule.
#[derive(Debug, Default, Clone, Copy)]
pub struct ScottRot;

/// The number of points that the Bayesian selector draws from the
/// posterior of the bandwidth.
pub const ITERATIONS: usize = 500;

/// The larger of two numbers; the first where they are equal.
pub fn larger(a: FiniteF64, b: FiniteF64) -> (r: FiniteF64)
    ensures
        r == if b.rank() > a.rank() {
            b
        } else {
            a
        },
{
    if b > a {
        b
    } else {
        a
    }
}

/// The selector that draws bandwidths from their posterior.
#[derive(Debug)]
pub struct BayesianSelector {
    range: Range<Point3>,
}

impl BayesianSelector {
    /// The box from which the entries of the bandwidth's triangular factor
    /// are drawn.
    pub closed spec fn spec_range(&self) -> Range<Point3> {
        self.range
    }

    /// The box for sample points that are `width0` wide on one axis and
    /// `width1` on the other: on each of its three axes it goes from zero
    /// to the larger of the two widths, or stays at zero if neither is
    /// positive.
    pub open spec fn box_for(width0: FiniteF64, width1: FiniteF64) -> Range<Point3> {
        let zero = FiniteF64::spec_zero();
        let max = if width0.rank() > 0 {
            if width1.rank() > width0.rank() {
                width1
            } else {
                width0
            }
        } else {
            if width1.rank() > 0 {
                width1
            } else {
                zero
            }
        };
        Range { low: (zero, zero, zero), high: (max, max, max) }
    }

    /// Where the chain starts: at the triangular factor of the identity
    /// matrix.
    pub open spec fn spec_start() -> Point3 {
        (FiniteF64::spec_one(), FiniteF64::spec_zero(), FiniteF64::spec_one())
    }

    /// Makes the selector for sample points that are `width0` wide on one
    /// axis and `width1` on the other.
    pub fn new(width0: FiniteF64, width1: FiniteF64) -> (s: Self)
        ensures
            s.spec_range() == Self::box_for(width0, width1),
    {
        let zero = FiniteF64::zero();
        let max = larger(larger(zero, width0), width1);
        Self { range: Range { low: (zero, zero, zero), high: (max, max, max) } }
    }

    /// Sets the box anew, for sample points that are `width0` wide on one
    /// axis and `width1` on the other.
    pub fn set_range(&mut self, width0: FiniteF64, width1: FiniteF64)
        ensures
            final(self).spec_range() == Self::box_for(width0, width1),
    {
        let zero = FiniteF64::zero();
        let max = larger(larger(zero, width0), width1);
        self.range = Range { low: (zero, zero, zero), high: (max, max, max) };
    }

    /// Returns the box from which the entries of the bandwidth's triangular
    /// factor are drawn.
    pub fn range(&self) -> (r: Range<Point3>)
        ensures
            r == self.spec_range(),
    {
        Range { low: self.range.low, high: self.range.high }
    }

    /// Whether `v` is a walk of a chain on `posterior` in the selector's
    /// box, with the default limit on rejected candidates, that was set
    /// down at the start and knew no density yet.
    pub open spec fn chained<D: Pdf<Point3>, U: UniformSource>(&self, posterior: D, v: Seq<Point3>) -> bool {
        exists|sampler: SliceSampler3d<D>, ys: Seq<FiniteF64>|
            {
                &&& sampler.spec_distribution() == posterior
                &&& sampler.spec_range() == self.spec_range()
                &&& sampler.max_attempts() == DEFAULT_MAX_ATTEMPTS
                &&& sampler.last_point() == Some(Self::spec_start())
                &&& sampler.last_y() is None
                &&& #[trigger] sampler.walks::<U>(v, ys)
            }
    }

    /// Whether a chain on `posterior` in the selector's box, with the
    /// default limit on rejected candidates, that was set down at the start
    /// and knew no density yet can stop before it has walked `ITERATIONS`
    /// points, with an error of the kind `kind`.
    pub open spec fn halted<D: Pdf<Point3>, U: UniformSource>(&self, posterior: D, kind: ErrorKind) -> bool {
        exists|sampler: SliceSampler3d<D>, last: Option<Point3>, kept: Option<FiniteF64>|
            {
                &&& sampler.spec_distribution() == posterior
                &&& sampler.spec_range() == self.spec_range()
                &&& sampler.max_attempts() == DEFAULT_MAX_ATTEMPTS
                &&& sampler.last_point() == Some(Self::spec_start())
                &&& sampler.last_y() is None
                &&& #[trigger] sampler.stops::<U>(ITERATIONS, last, kept, kind)
            }
    }

    /// Draws `ITERATIONS` points from `posterior` by slice sampling in the
    /// selector's box, with a chain that starts at the triangular factor of
    /// the identity matrix.
    ///
    /// The bandwidth is made of the mean of these points.  The first step
    /// that fails ends the chain with its error.
    pub fn draw_chain<D: Pdf<Point3>, U: UniformSource>(&self, posterior: D, source: &mut U) -> (r:
        Result<Vec<Point3>, Error>)
        ensures
            r matches Ok(v) ==> {
                &&& v.len() == ITERATIONS
                &&& forall|i: int|
                    0 <= i < v.len() ==> box_holds(
                        self.spec_range().low,
                        self.spec_range().high,
                        #[trigger] v[i],
                    )
                &&& self.chained::<D, U>(posterior, v@)
            },
            r matches Err(e) ==> self.halted::<D, U>(posterior, e.kind()),
    {
        let mut sampler = SliceSampler3d::new(posterior, self.range());
        let identity = Matrix2::diagonal(FiniteF64::one(), FiniteF64::one());
        sampler.set_last_point(identity.lower_triangular_tuple());
        let ghost seeded = sampler;
        let r = sampler.sample_n(source, ITERATIONS);
        proof {
            if r is Ok {
                let v = r->Ok_0;
                let ys = choose|ys: Seq<FiniteF64>| seeded.walks::<U>(v@, ys);
                assert(seeded.walks::<U>(v@, ys));
                assert(self.chained::<D, U>(posterior, v@));
            } else {
                let e = r->Err_0;
                assert(seeded.stops::<U>(
                    ITERATIONS,
                    sampler.last_point(),
                    sampler.last_y(),
                    e.kind(),
                ));
                assert(self.halted::<D, U>(posterior, e.kind()));
            }
        }
        r
    }
}

/// The posterior of the bandwidth of a set of sample points, up to a
/// constant factor: a prior that weighs against large entries, times the
/// likelihood of each point under the others.
#[derive(Debug)]
pub struct BayesianPosterior<'a, P, K> {
    points: &'a [P],
    lambda: FiniteF64,
    kernel: &'a K,
}

impl<'a, P, K> BayesianPosterior<'a, P, K> {
    /// The sample points.
    pub closed spec fn spec_points(&self) -> Seq<P> {
        self.points@
    }

    /// The strength of the prior.
    pub closed spec fn spec_lambda(&self) -> FiniteF64 {
        self.lambda
    }

    /// The kernel.
    pub closed spec fn spec_kernel(&self) -> K {
        *self.kernel
    }

    /// Makes the posterior for `points` under `kernel`, with a prior of
    /// strength one.
    ///
    /// Each point is held against the others, so there must be two of them
    /// at least: with fewer, an `ErrorKind::InvalidInput` error is returned.
    pub fn new(points: &'a [P], kernel: &'a K) -> (r: Result<Self, Error>)
        ensures
            r is Ok <==> points@.len() > 1,
            r matches Ok(p) ==> {
                &&& p.spec_points() == points@
                &&& p.spec_kernel() == *kernel
                &&& p.spec_lambda() == FiniteF64::spec_one()
            },
            r matches Err(e) ==> e.kind() == ErrorKind::InvalidInput,
    {
        match enough_points(points) {
            Ok(()) => Ok(Self { points, kernel, lambda: FiniteF64::one() }),
            Err(e) => Err(e),
        }
    }

    /// Returns the sample points.
    pub fn points(&self) -> (r: &'a [P])
        ensures
            r@ == self.spec_points(),
            r@.len() > 1,
    {
        proof {
            use_type_invariant(self);
        }
        self.points
    }

    /// Returns the strength of the prior.
    pub fn lambda(&self) -> (r: FiniteF64)
        ensures
            r == self.spec_lambda(),
    {
        self.lambda
    }

    /// Returns the kernel.
    pub fn kernel(&self) -> (r: &'a K)
        ensures
            *r == self.spec_kernel(),
    {
        self.kernel
    }

    /// The invariant of the type: there are two points at least.
    #[verifier::type_invariant]
    pub open spec fn wf(&self) -> bool {
        self.spec_points().len() > 1
    }
}

} // verus!
