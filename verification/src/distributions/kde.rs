//! Kernel density estimation.
//!
//! An estimator owns its sample points, in the order in which they came,
//! and the bandwidth that its selector chose for them.  Points only come;
//! none leaves.  Each insertion has the bandwidth chosen anew, and a change
//! of the selector forgets it, so a bandwidth at hand always belongs to the
//! points and the selector at hand.
//!
//! The density at a query is the mean of what the kernel answers for the
//! query and each sample point.  The estimator collects those answers; the
//! mean of them is arithmetic, and the caller's.
use self::selectors::{SelectBandwidth, SilvermanRot};
use crate::distributions::StandardNormal;
use crate::error::{Error, ErrorKind};
use crate::matrix::Matrix2;
use crate::num::FiniteF64;
use vstd::prelude::*;

pub mod selectors;

verus! {

/// A sample point: a number, or a pair of numbers.
pub trait Point {
    /// What smooths points of this kind: a number for numbers, a matrix
    /// for pairs.
    type Bandwidth;
}

impl Point for FiniteF64 {
    type Bandwidth = FiniteF64;
}

impl Point for (FiniteF64, FiniteF64) {
    type Bandwidth = Matrix2;
}

/// The shape of the bump that each sample point adds to the estimate.
pub trait Kernel<P: Point> {
    /// Returns what the sample point `xi` adds to the density at `x`
    /// under `bandwidth`.
    fn density(&self, x: &P, xi: &P, bandwidth: &P::Bandwidth) -> FiniteF64;
}

/// Builds a [`KernelDensityEstimator`].
#[derive(Debug)]
pub struct KernelDensityEstimatorBuilder<S = SilvermanRot, K = StandardNormal> {
    kernel: K,
    selector: S,
}

impl KernelDensityEstimatorBuilder<SilvermanRot, StandardNormal> {
    /// Makes a builder with the rule-of-thumb selector and the standard
    /// normal kernel.
    pub fn new() -> (b: Self)
        ensures
            b.spec_selector() == SilvermanRot,
            b.spec_kernel() == StandardNormal,
    {
        Self { kernel: StandardNormal, selector: SilvermanRot }
    }
}

impl<S, K> KernelDensityEstimatorBuilder<S, K> {
    /// The selector that the estimator will have.
    pub closed spec fn spec_selector(&self) -> S {
        self.selector
    }

    /// The kernel that the estimator will have.
    pub closed spec fn spec_kernel(&self) -> K {
        self.kernel
    }

    /// Replaces the selector.
    pub fn selector<P, S1>(self, selector: S1) -> (b: KernelDensityEstimatorBuilder<S1, K>) where
        P: Point,
        S1: SelectBandwidth<P>,

        ensures
            b.spec_selector() == selector,
            b.spec_kernel() == self.spec_kernel(),
    {
        KernelDensityEstimatorBuilder { kernel: self.kernel, selector }
    }

    /// Replaces the kernel.
    pub fn kernel<P, K1>(self, kernel: K1) -> (b: KernelDensityEstimatorBuilder<S, K1>) where
        P: Point,
        K1: Kernel<P>,

        ensures
            b.spec_selector() == self.spec_selector(),
            b.spec_kernel() == kernel,
    {
        KernelDensityEstimatorBuilder { kernel, selector: self.selector }
    }

    /// Makes the estimator: with the builder's selector and kernel, no
    /// point and no bandwidth.
    pub fn finish<P>(self) -> (e: KernelDensityEstimator<P, S, K>) where
        P: Point,
        S: SelectBandwidth<P>,
        K: Kernel<P>,

        ensures
            e.spec_selector() == self.spec_selector(),
            e.spec_kernel() == self.spec_kernel(),
            e.spec_points() == Seq::<P>::empty(),
            e.bandwidth() == None::<P::Bandwidth>,
            e.fresh(),
    {
        KernelDensityEstimator {
            kernel: self.kernel,
            selector: self.selector,
            points: Vec::new(),
            bandwidth: None,
        }
    }
}

/// A kernel density estimator over points of kind `P`.
#[derive(Debug)]
pub struct KernelDensityEstimator<P, S = SilvermanRot, K = StandardNormal> where P: Point {
    kernel: K,
    selector: S,
    points: Vec<P>,
    bandwidth: Option<P::Bandwidth>,
}

impl<P, S, K> KernelDensityEstimator<P, S, K> where P: Point {
    /// The kernel.
    pub closed spec fn spec_kernel(&self) -> K {
        self.kernel
    }

    /// The selector.
    pub closed spec fn spec_selector(&self) -> S {
        self.selector
    }

    /// The sample points, in the order in which they came.
    pub closed spec fn spec_points(&self) -> Seq<P> {
        self.points@
    }

    /// The bandwidth chosen at the last insertion, if the selector chose one.
    pub closed spec fn bandwidth(&self) -> Option<P::Bandwidth> {
        self.bandwidth
    }

    /// Returns the sample points, in the order in which they came.
    pub fn points(&self) -> (r: &[P])
        ensures
            r@ == self.spec_points(),
    {
        self.points.as_slice()
    }

    /// Returns the selector.
    pub fn selector(&self) -> (r: &S)
        ensures
            *r == self.spec_selector(),
    {
        &self.selector
    }

    /// Returns the kernel.
    pub fn kernel(&self) -> (r: &K)
        ensures
            *r == self.spec_kernel(),
    {
        &self.kernel
    }

    /// Returns the bandwidth chosen at the last insertion.
    ///
    /// Where there is none, because no point was inserted yet or because
    /// the selector could not choose one for the points, an
    /// `ErrorKind::InvalidInput` error is returned.
    pub fn current_bandwidth(&self) -> (r: Result<&P::Bandwidth, Error>)
        ensures
            r is Ok <==> self.bandwidth() is Some,
            r matches Ok(b) ==> self.bandwidth() == Some(*b),
            r matches Err(e) ==> e.kind() == ErrorKind::InvalidInput,
    {
        match &self.bandwidth {
            Some(b) => Ok(b),
            None => Err(Error::new(ErrorKind::InvalidInput)),
        }
    }
}

impl<P, S, K> KernelDensityEstimator<P, S, K> where
    P: Point,
    S: SelectBandwidth<P> + Default,
    K: Kernel<P> + Default,
 {
    /// Makes an estimator with the default selector and the default kernel
    /// of their kinds, no point and no bandwidth.
    pub fn new() -> (e: Self)
        ensures
            call_ensures(S::default, (), e.spec_selector()),
            call_ensures(K::default, (), e.spec_kernel()),
            e.spec_points() == Seq::<P>::empty(),
            e.bandwidth() == None::<P::Bandwidth>,
            e.fresh(),
    {
        KernelDensityEstimatorBuilder::new().selector::<P, S>(S::default()).kernel::<P, K>(
            K::default(),
        ).finish::<P>()
    }
}

impl<P, S, K> Default for KernelDensityEstimator<P, S, K> where
    P: Point,
    S: SelectBandwidth<P> + Default,
    K: Kernel<P> + Default,
 {
    fn default() -> (e: Self)
        ensures
            call_ensures(S::default, (), e.spec_selector()),
            call_ensures(K::default, (), e.spec_kernel()),
            e.spec_points() == Seq::<P>::empty(),
            e.bandwidth() == None::<P::Bandwidth>,
            e.fresh(),
    {
        Self::new()
    }
}

impl<P, S, K> KernelDensityEstimator<P, S, K> where P: Point, S: SelectBandwidth<P>, K: Kernel<P> {
    /// Whether `bandwidth` is what the selector can answer for the points
    /// at hand: the bandwidth if it chose one, none if it failed.
    pub open spec fn selected(&self, bandwidth: Option<P::Bandwidth>) -> bool {
        exists|points: &[P], chosen: Result<P::Bandwidth, Error>|
            {
                &&& points@ == self.spec_points()
                &&& #[trigger] call_ensures(
                    S::select_bandwidth,
                    (&self.spec_selector(), points),
                    chosen,
                )
                &&& bandwidth == match chosen {
                    Ok(b) => Some(b),
                    Err(_) => None,
                }
            }
    }

    /// Whether a bandwidth at hand belongs to the points and the selector
    /// at hand: it is what the selector can answer for the points.
    pub open spec fn fresh(&self) -> bool {
        self.bandwidth() is Some ==> self.selected(self.bandwidth())
    }

    /// Returns the selector, to be changed in place.  The bandwidth that
    /// the selector chose before is forgotten: the next insertion, or
    /// [`reselect`](Self::reselect), has it chosen anew.
    pub fn selector_mut(&mut self) -> (r: &mut S)
        ensures
            *r == old(self).spec_selector(),
            final(self).spec_selector() == *final(r),
            final(self).spec_kernel() == old(self).spec_kernel(),
            final(self).spec_points() == old(self).spec_points(),
            final(self).bandwidth() == None::<P::Bandwidth>,
            final(self).fresh(),
    {
        self.bandwidth = None;
        &mut self.selector
    }

    /// Returns the kernel, to be changed in place.
    pub fn kernel_mut(&mut self) -> (r: &mut K)
        ensures
            *r == old(self).spec_kernel(),
            final(self).spec_kernel() == *final(r),
            final(self).spec_selector() == old(self).spec_selector(),
            final(self).spec_points() == old(self).spec_points(),
            final(self).bandwidth() == old(self).bandwidth(),
            old(self).fresh() ==> final(self).fresh(),
    {
        &mut self.kernel
    }

    /// Whether `terms` are what the kernel can answer for the query `x`,
    /// sample point by sample point, under `bandwidth`.
    pub open spec fn answered(&self, x: P, bandwidth: P::Bandwidth, terms: Seq<FiniteF64>) -> bool {
        &&& terms.len() == self.spec_points().len()
        &&& forall|i: int|
            0 <= i < terms.len() ==> call_ensures(
                K::density,
                (&self.spec_kernel(), &x, &self.spec_points()[i], &bandwidth),
                #[trigger] terms[i],
            )
    }

    /// Whether the kernel has no more than one answer for a question.
    pub open spec fn kernel_is_a_function(&self) -> bool {
        forall|x: P, xi: P, b: P::Bandwidth, y1: FiniteF64, y2: FiniteF64|
            #[trigger] call_ensures(K::density, (&self.spec_kernel(), &x, &xi, &b), y1)
                && #[trigger] call_ensures(K::density, (&self.spec_kernel(), &x, &xi, &b), y2)
                ==> y1 == y2
    }

    /// Whether the kernel never answers with a negative number.
    pub open spec fn kernel_is_not_negative(&self) -> bool {
        forall|x: P, xi: P, b: P::Bandwidth, y: FiniteF64|
            #[trigger] call_ensures(K::density, (&self.spec_kernel(), &x, &xi, &b), y) ==> y.rank()
                >= 0
    }

    /// With a kernel that is a function, asking twice for the same query
    /// gives the same terms, bit for bit.
    pub proof fn lemma_same_query_same_terms(
        &self,
        x: P,
        bandwidth: P::Bandwidth,
        first: Seq<FiniteF64>,
        second: Seq<FiniteF64>,
    )
        requires
            self.kernel_is_a_function(),
            self.answered(x, bandwidth, first),
            self.answered(x, bandwidth, second),
        ensures
            first == second,
    {
        assert forall|i: int| 0 <= i < first.len() implies first[i] == second[i] by {
            assert(call_ensures(
                K::density,
                (&self.spec_kernel(), &x, &self.spec_points()[i], &bandwidth),
                first[i],
            ));
            assert(call_ensures(
                K::density,
                (&self.spec_kernel(), &x, &self.spec_points()[i], &bandwidth),
                second[i],
            ));
        }
        assert(first =~= second);
    }

    /// With a kernel that never answers with a negative number, no sample
    /// point adds a negative term to the density.
    pub proof fn lemma_terms_not_negative(&self, x: P, bandwidth: P::Bandwidth, terms: Seq<FiniteF64>)
        requires
            self.kernel_is_not_negative(),
            self.answered(x, bandwidth, terms),
        ensures
            forall|i: int| 0 <= i < terms.len() ==> (#[trigger] terms[i]).rank() >= 0,
    {
        assert forall|i: int| 0 <= i < terms.len() implies (#[trigger] terms[i]).rank() >= 0 by {
            assert(call_ensures(
                K::density,
                (&self.spec_kernel(), &x, &self.spec_points()[i], &bandwidth),
                terms[i],
            ));
        }
    }

    /// Inserts a sample point and has the selector choose the bandwidth
    /// for the points as they then are.
    pub fn push(&mut self, point: P)
        ensures
            final(self).spec_points() == old(self).spec_points().push(point),
            final(self).spec_kernel() == old(self).spec_kernel(),
            final(self).spec_selector() == old(self).spec_selector(),
            final(self).selected(final(self).bandwidth()),
            final(self).fresh(),
    {
        self.points.push(point);
        let points = self.points.as_slice();
        let chosen = self.selector.select_bandwidth(points);
        proof {
            assert(call_ensures(S::select_bandwidth, (&self.spec_selector(), points), chosen));
        }
        self.bandwidth =
        match chosen {
            Ok(b) => Some(b),
            Err(_) => None,
        };
        proof {
            assert(points@ == self.spec_points());
            assert(call_ensures(S::select_bandwidth, (&self.spec_selector(), points), chosen));
            assert(self.bandwidth() == match chosen {
                Ok(b) => Some(b),
                Err(_) => None,
            });
        }
    }

    /// Has the selector choose the bandwidth anew for the points at hand,
    /// as an insertion does: after a change of the selector, this brings
    /// the bandwidth back without another point.
    pub fn reselect(&mut self)
        ensures
            final(self).spec_points() == old(self).spec_points(),
            final(self).spec_kernel() == old(self).spec_kernel(),
            final(self).spec_selector() == old(self).spec_selector(),
            final(self).selected(final(self).bandwidth()),
            final(self).fresh(),
    {
        let points = self.points.as_slice();
        let chosen = self.selector.select_bandwidth(points);
        proof {
            assert(call_ensures(S::select_bandwidth, (&self.spec_selector(), points), chosen));
        }
        self.bandwidth =
        match chosen {
            Ok(b) => Some(b),
            Err(_) => None,
        };
        proof {
            assert(points@ == self.spec_points());
            assert(call_ensures(S::select_bandwidth, (&self.spec_selector(), points), chosen));
            assert(self.bandwidth() == match chosen {
                Ok(b) => Some(b),
                Err(_) => None,
            });
        }
    }

    /// Returns what each sample point adds to the density at `x`, in the
    /// order of the points.  The estimate at `x` is the mean of these.
    /// The estimator is only read: its points, its bandwidth, its selector
    /// and its kernel stay as they are, and the selector is not asked.
    ///
    /// Without a bandwidth there is no estimate: an
    /// `ErrorKind::InvalidInput` error is returned.
    pub fn densities(&self, x: &P) -> (r: Result<Vec<FiniteF64>, Error>)
        ensures
            r is Ok <==> self.bandwidth() is Some,
            r matches Ok(v) ==> self.answered(*x, self.bandwidth()->0, v@),
            r matches Err(e) ==> e.kind() == ErrorKind::InvalidInput,
    {
        let bandwidth = match &self.bandwidth {
            Some(b) => b,
            None => {
                return Err(Error::new(ErrorKind::InvalidInput));
            },
        };
        let mut terms: Vec<FiniteF64> = Vec::new();
        let mut i: usize = 0;
        while i < self.points.len()
            invariant
                i <= self.points.len(),
                terms.len() == i,
                self.bandwidth() == Some(*bandwidth),
                forall|j: int|
                    0 <= j < i ==> call_ensures(
                        K::density,
                        (&self.spec_kernel(), x, &self.spec_points()[j], bandwidth),
                        #[trigger] terms[j],
                    ),
            decreases self.points.len() - i,
        {
            let term = self.kernel.density(x, &self.points[i], bandwidth);
            terms.push(term);
            i = i + 1;
        }
        Ok(terms)
    }
}

} // verus!
