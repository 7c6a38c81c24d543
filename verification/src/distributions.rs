//! Distributions.
use crate::num::FiniteF64;
use vstd::prelude::*;

pub mod kde;

verus! {

/// Probability density function.
///
/// The density may be unnormalized, but it is a number: an implementation
/// hands back a value that is finite.
pub trait Pdf<T> {
    /// Returns the PDF of the given item.
    fn pdf(&self, x: &T) -> FiniteF64;
}

/// Cumulative distribution function.
pub trait Cdf<T> {
    /// Returns the CDF of the given item.
    fn cdf(&self, x: &T) -> FiniteF64;
}

/// Standard normal distribution.
///
/// This type names the distribution, as the kernel that a builder starts
/// with.  Its density is an exponential, which this crate leaves to its
/// caller: an estimator is built with a kernel of the caller's that
/// implements [`kde::Kernel`] by this density.
#[derive(Debug, Default, Clone, Copy)]
pub struct StandardNormal;

} // verus!
