//! Two-by-two matrices, as the bandwidth of points in the plane.
//!
//! The entries are numbers that this crate carries but does not compute
//! with, so the operations here are those that only move entries about.
use crate::num::FiniteF64;
use vstd::prelude::*;

verus! {

/// A matrix of two rows and two columns.
#[derive(Debug, Clone, Copy)]
pub struct Matrix2 {
    a: FiniteF64,
    b: FiniteF64,
    c: FiniteF64,
    d: FiniteF64,
}

impl Matrix2 {
    /// The rows of the matrix, the upper one first.
    pub closed spec fn rows(&self) -> ((FiniteF64, FiniteF64), (FiniteF64, FiniteF64)) {
        ((self.a, self.b), (self.c, self.d))
    }

    /// Makes the matrix with the rows `r0` and `r1`.
    pub fn new(r0: (FiniteF64, FiniteF64), r1: (FiniteF64, FiniteF64)) -> (m: Self)
        ensures
            m.rows() == (r0, r1),
    {
        Self { a: r0.0, b: r0.1, c: r1.0, d: r1.1 }
    }

    /// Makes the matrix with `a` and `b` on the diagonal and zero elsewhere.
    pub fn diagonal(a: FiniteF64, b: FiniteF64) -> (m: Self)
        ensures
            m.rows() == ((a, FiniteF64::spec_zero()), (FiniteF64::spec_zero(), b)),
    {
        Self::new((a, FiniteF64::zero()), (FiniteF64::zero(), b))
    }

    /// Returns the rows of the matrix, the upper one first.
    pub fn to_rows(&self) -> (r: ((FiniteF64, FiniteF64), (FiniteF64, FiniteF64)))
        ensures
            r == self.rows(),
    {
        ((self.a, self.b), (self.c, self.d))
    }

    /// The matrix mirrored at its diagonal.
    pub closed spec fn spec_transpose(&self) -> Self {
        Matrix2 { a: self.a, b: self.c, c: self.b, d: self.d }
    }

    /// The lower triangular matrix with the entries `t` on and below the
    /// diagonal, row by row.
    pub closed spec fn spec_from_lower_triangular(t: (FiniteF64, FiniteF64, FiniteF64)) -> Self {
        Matrix2 { a: t.0, b: FiniteF64::spec_zero(), c: t.1, d: t.2 }
    }

    /// The entries on and below the diagonal, row by row.
    pub open spec fn spec_lower_triangular_tuple(&self) -> (FiniteF64, FiniteF64, FiniteF64) {
        (self.rows().0.0, self.rows().1.0, self.rows().1.1)
    }

    /// Whether the entry above the diagonal is positive zero.
    pub open spec fn is_lower_triangular(&self) -> bool {
        self.rows().0.1 == FiniteF64::spec_zero()
    }

    /// Returns the matrix mirrored at its diagonal.
    pub fn transpose(&self) -> (m: Self)
        ensures
            m == self.spec_transpose(),
            m.rows() == ((self.rows().0.0, self.rows().1.0), (self.rows().0.1, self.rows().1.1)),
    {
        Self { a: self.a, b: self.c, c: self.b, d: self.d }
    }

    /// Returns the entries on and below the diagonal, row by row.
    pub fn lower_triangular_tuple(&self) -> (t: (FiniteF64, FiniteF64, FiniteF64))
        ensures
            t == self.spec_lower_triangular_tuple(),
    {
        (self.a, self.c, self.d)
    }

    /// Makes the lower triangular matrix with the given entries on and
    /// below the diagonal, row by row.
    pub fn from_lower_triangular(t: (FiniteF64, FiniteF64, FiniteF64)) -> (m: Self)
        ensures
            m == Self::spec_from_lower_triangular(t),
            m.rows() == ((t.0, FiniteF64::spec_zero()), (t.1, t.2)),
    {
        Self { a: t.0, b: FiniteF64::zero(), c: t.1, d: t.2 }
    }

    /// Mirroring a matrix twice gives the matrix back.
    pub proof fn lemma_transpose_twice(self)
        ensures
            self.spec_transpose().spec_transpose() == self,
    {
    }

    /// Packing the lower triangle and unpacking it are inverse to each
    /// other: on every triple, and on every lower triangular matrix.
    pub proof fn lemma_lower_triangular_round_trip(self, t: (FiniteF64, FiniteF64, FiniteF64))
        ensures
            Self::spec_from_lower_triangular(t).spec_lower_triangular_tuple() == t,
            Self::spec_from_lower_triangular(t).is_lower_triangular(),
            self.is_lower_triangular() ==> Self::spec_from_lower_triangular(
                self.spec_lower_triangular_tuple(),
            ) == self,
    {
    }
}

/// A value marked as transposed: a column taken as a row.
#[derive(Debug)]
pub struct Transpose<T>(pub T);

} // verus!
