//! Building blocks for nonparametric density estimation, with contracts
//! that Verus proves.
//!
//! The crate estimates densities from sample points, selects bandwidths,
//! draws from unnormalized densities by slice sampling and ranks two
//! samples against each other.  It does so without doing arithmetic on
//! real numbers.  A number is held by the bit pattern of its binary64
//! encoding ([`num`]), which is enough to classify and to order it exactly;
//! whatever has to be computed from numbers (a kernel's density, a
//! selector's bandwidth, a uniform draw) is asked of the caller through a
//! trait.  What the crate owns, and proves, is everything round those
//! answers:
//!
//! - [`samplers`]: the slice sampler's step, with its shrinking box, its
//!   rule of acceptance, its fixed axes and its limit on rejected
//!   candidates; every point drawn lies in the configured box.
//! - [`distributions::kde`]: the estimator's sample points and the
//!   bandwidth that belongs to them, and the selectors' boxes and chains.
//! - [`hypothesis_testings`]: the exact part of the Mann-Whitney U test,
//!   from the tie groups to the U statistics and what they count.
//! - [`range`], [`matrix`], [`error`]: the ranges, matrices and errors that
//!   the others are made of.

pub mod distributions;
pub mod error;
pub mod hypothesis_testings;
pub mod matrix;
pub mod num;
pub mod range;
pub mod samplers;
