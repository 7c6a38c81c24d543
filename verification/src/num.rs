//! Double-precision numbers, held by their IEEE 754 bit patterns.
//!
//! A number enters and leaves this crate as the 64 bits of its binary64
//! encoding.  The crate never does arithmetic on these numbers; it only
//! classifies and orders them, and both can be done exactly on the bits.
use crate::error::{Error, ErrorKind};
use core::cmp::Ordering;
use vstd::prelude::*;
use vstd::std_specs::cmp::{PartialEqSpecImpl, PartialOrdSpecImpl};

pub mod laws;

verus! {

/// The sign bit of a binary64 encoding.
pub const SIGN_BIT: u64 = 0x8000_0000_0000_0000;

/// The encoding of positive infinity: every exponent bit set, no fraction bit.
pub const INFINITY_BITS: u64 = 0x7ff0_0000_0000_0000;

/// The encoding of `1.0`.
pub const ONE_BITS: u64 = 0x3ff0_0000_0000_0000;

/// The encoding with the sign bit cleared.
pub open spec fn magnitude(bits: u64) -> int {
    if bits >= SIGN_BIT {
        bits - SIGN_BIT
    } else {
        bits as int
    }
}

/// Whether the encoding is a NaN: exponent all ones and a fraction that is not zero.
pub open spec fn is_nan_bits(bits: u64) -> bool {
    magnitude(bits) > INFINITY_BITS
}

/// Whether the encoding is a zero, a subnormal or a normal number.
pub open spec fn is_finite_bits(bits: u64) -> bool {
    magnitude(bits) < INFINITY_BITS
}

/// The place of an encoding on the number line.
///
/// For encodings that are not NaN, the encoded numbers compare as their ranks
/// do: a larger magnitude is a larger number when the sign bit is clear and a
/// smaller one when it is set, and the two zeros share rank 0.
pub open spec fn rank(bits: u64) -> int {
    if bits >= SIGN_BIT {
        -magnitude(bits)
    } else {
        magnitude(bits)
    }
}

/// How two ranks compare.
pub open spec fn rank_order(a: int, b: int) -> Ordering {
    if a < b {
        Ordering::Less
    } else if a == b {
        Ordering::Equal
    } else {
        Ordering::Greater
    }
}

/// Whether `bits` encodes a NaN.
pub fn bits_are_nan(bits: u64) -> (r: bool)
    ensures
        r == is_nan_bits(bits),
{
    if bits >= SIGN_BIT {
        bits - SIGN_BIT > INFINITY_BITS
    } else {
        bits > INFINITY_BITS
    }
}

/// Whether `bits` encodes a finite number.
pub fn bits_are_finite(bits: u64) -> (r: bool)
    ensures
        r == is_finite_bits(bits),
{
    if bits >= SIGN_BIT {
        bits - SIGN_BIT < INFINITY_BITS
    } else {
        bits < INFINITY_BITS
    }
}

/// Computes the rank of an encoding.
fn rank_of(bits: u64) -> (r: i128)
    ensures
        r == rank(bits),
{
    if bits >= SIGN_BIT {
        let m: u64 = bits - SIGN_BIT;
        -(m as i128)
    } else {
        bits as i128
    }
}

/// Compares two encodings by rank.
fn order_of(a: u64, b: u64) -> (r: Ordering)
    ensures
        r == rank_order(rank(a), rank(b)),
{
    let x: i128 = rank_of(a);
    let y: i128 = rank_of(b);
    if x < y {
        Ordering::Less
    } else if x == y {
        Ordering::Equal
    } else {
        Ordering::Greater
    }
}

/// A double-precision number that is neither infinite nor NaN.
#[derive(Debug, Clone, Copy)]
pub struct FiniteF64 {
    bits: u64,
}

impl FiniteF64 {
    /// The encoding of the number.
    pub closed spec fn bits(&self) -> u64 {
        self.bits
    }

    /// The invariant of the type: the encoding is finite.
    #[verifier::type_invariant]
    pub open spec fn wf(&self) -> bool {
        is_finite_bits(self.bits())
    }

    /// The place of the number on the number line.
    pub open spec fn rank(&self) -> int {
        rank(self.bits())
    }

    /// Creates a finite number from an encoding that the caller knows to
    /// be finite, without looking at it.
    pub fn new_unchecked(bits: u64) -> (n: Self)
        requires
            is_finite_bits(bits),
        ensures
            n.bits() == bits,
            n.wf(),
    {
        FiniteF64 { bits }
    }

    /// Creates a finite number from its encoding.
    ///
    /// If the encoding is that of a NaN or of an infinity, an
    /// `ErrorKind::InvalidInput` error is returned.
    pub fn new(bits: u64) -> (r: Result<Self, Error>)
        ensures
            r is Ok <==> is_finite_bits(bits),
            r matches Ok(n) ==> n.bits() == bits && n.wf(),
            r matches Err(e) ==> e.kind() == ErrorKind::InvalidInput,
    {
        if bits_are_finite(bits) {
            Ok(FiniteF64 { bits })
        } else {
            Err(Error::new(ErrorKind::InvalidInput))
        }
    }

    /// Positive zero.
    pub closed spec fn spec_zero() -> Self {
        FiniteF64 { bits: 0 }
    }

    /// The number one.
    pub closed spec fn spec_one() -> Self {
        FiniteF64 { bits: ONE_BITS }
    }

    /// Positive zero.
    pub fn zero() -> (n: Self)
        ensures
            n == Self::spec_zero(),
            n.bits() == 0,
            n.rank() == 0,
            n.wf(),
    {
        FiniteF64 { bits: 0 }
    }

    /// The number one.
    pub fn one() -> (n: Self)
        ensures
            n == Self::spec_one(),
            n.bits() == ONE_BITS,
            n.wf(),
    {
        FiniteF64 { bits: ONE_BITS }
    }

    /// Returns the encoding of the number.
    #[verifier::when_used_as_spec(bits)]
    pub fn get(&self) -> (bits: u64)
        ensures
            bits == self.bits(),
            is_finite_bits(bits),
    {
        proof {
            use_type_invariant(self);
        }
        self.bits
    }

    /// Returns the place of the number on the number line: an integer by
    /// which numbers compare as they do themselves.
    pub fn key(&self) -> (k: i64)
        ensures
            k == self.rank(),
    {
        proof {
            use_type_invariant(self);
        }
        if self.bits >= SIGN_BIT {
            let m: u64 = self.bits - SIGN_BIT;
            -(m as i64)
        } else {
            self.bits as i64
        }
    }

    /// The total order of finite numbers.
    pub fn cmp(&self, other: &Self) -> (r: Ordering)
        ensures
            r == rank_order(self.rank(), other.rank()),
    {
        order_of(self.bits, other.bits)
    }
}

impl Default for FiniteF64 {
    /// Positive zero.
    fn default() -> (n: Self)
        ensures
            n == Self::spec_zero(),
            n.bits() == 0,
            n.rank() == 0,
    {
        Self::zero()
    }
}

impl PartialEq for FiniteF64 {
    fn eq(&self, other: &Self) -> (r: bool) {
        rank_of(self.bits) == rank_of(other.bits)
    }
}

impl PartialEqSpecImpl for FiniteF64 {
    open spec fn obeys_eq_spec() -> bool {
        true
    }

    open spec fn eq_spec(&self, other: &Self) -> bool {
        self.rank() == other.rank()
    }
}

impl PartialOrd for FiniteF64 {
    fn partial_cmp(&self, other: &Self) -> (r: Option<Ordering>) {
        Some(order_of(self.bits, other.bits))
    }
}

impl PartialOrdSpecImpl for FiniteF64 {
    open spec fn obeys_partial_cmp_spec() -> bool {
        true
    }

    open spec fn partial_cmp_spec(&self, other: &Self) -> Option<Ordering> {
        Some(rank_order(self.rank(), other.rank()))
    }
}

/// A double-precision number that is known not to be NaN.
#[derive(Debug, Clone, Copy)]
pub struct NonNanF64 {
    bits: u64,
}

impl NonNanF64 {
    /// The encoding of the number.
    pub closed spec fn bits(&self) -> u64 {
        self.bits
    }

    /// The invariant of the type: the encoding is not a NaN.
    #[verifier::type_invariant]
    pub open spec fn wf(&self) -> bool {
        !is_nan_bits(self.bits())
    }

    /// The place of the number on the number line.
    pub open spec fn rank(&self) -> int {
        rank(self.bits())
    }

    /// Creates a number from an encoding that the caller knows not to be
    /// a NaN, without looking at it.
    pub fn new_unchecked(bits: u64) -> (n: Self)
        requires
            !is_nan_bits(bits),
        ensures
            n.bits() == bits,
            n.wf(),
    {
        NonNanF64 { bits }
    }

    /// Creates a number from its encoding.
    ///
    /// If the encoding is that of a NaN, an `ErrorKind::InvalidInput` error is
    /// returned.
    pub fn new(bits: u64) -> (r: Result<Self, Error>)
        ensures
            r is Ok <==> !is_nan_bits(bits),
            r matches Ok(n) ==> n.bits() == bits && n.wf(),
            r matches Err(e) ==> e.kind() == ErrorKind::InvalidInput,
    {
        if !bits_are_nan(bits) {
            Ok(NonNanF64 { bits })
        } else {
            Err(Error::new(ErrorKind::InvalidInput))
        }
    }

    /// Positive zero.
    pub closed spec fn spec_zero() -> Self {
        NonNanF64 { bits: 0 }
    }

    /// The number one.
    pub closed spec fn spec_one() -> Self {
        NonNanF64 { bits: ONE_BITS }
    }

    /// Positive zero.
    pub fn zero() -> (n: Self)
        ensures
            n == Self::spec_zero(),
            n.bits() == 0,
            n.rank() == 0,
            n.wf(),
    {
        NonNanF64 { bits: 0 }
    }

    /// The number one.
    pub fn one() -> (n: Self)
        ensures
            n == Self::spec_one(),
            n.bits() == ONE_BITS,
            n.wf(),
    {
        NonNanF64 { bits: ONE_BITS }
    }

    /// Returns the encoding of the number.
    #[verifier::when_used_as_spec(bits)]
    pub fn get(&self) -> (bits: u64)
        ensures
            bits == self.bits(),
            !is_nan_bits(bits),
    {
        proof {
            use_type_invariant(self);
        }
        self.bits
    }

    /// Returns the place of the number on the number line: an integer by
    /// which numbers compare as they do themselves.
    pub fn key(&self) -> (k: i64)
        ensures
            k == self.rank(),
    {
        proof {
            use_type_invariant(self);
        }
        if self.bits >= SIGN_BIT {
            let m: u64 = self.bits - SIGN_BIT;
            -(m as i64)
        } else {
            self.bits as i64
        }
    }

    /// The total order of numbers that are not NaN.
    pub fn cmp(&self, other: &Self) -> (r: Ordering)
        ensures
            r == rank_order(self.rank(), other.rank()),
    {
        order_of(self.bits, other.bits)
    }
}

impl Default for NonNanF64 {
    /// Positive zero.
    fn default() -> (n: Self)
        ensures
            n == Self::spec_zero(),
            n.bits() == 0,
            n.rank() == 0,
    {
        Self::zero()
    }
}

impl PartialEq for NonNanF64 {
    fn eq(&self, other: &Self) -> (r: bool) {
        rank_of(self.bits) == rank_of(other.bits)
    }
}

impl PartialEqSpecImpl for NonNanF64 {
    open spec fn obeys_eq_spec() -> bool {
        true
    }

    open spec fn eq_spec(&self, other: &Self) -> bool {
        self.rank() == other.rank()
    }
}

impl PartialOrd for NonNanF64 {
    fn partial_cmp(&self, other: &Self) -> (r: Option<Ordering>) {
        Some(order_of(self.bits, other.bits))
    }
}

impl PartialOrdSpecImpl for NonNanF64 {
    open spec fn obeys_partial_cmp_spec() -> bool {
        true
    }

    open spec fn partial_cmp_spec(&self, other: &Self) -> Option<Ordering> {
        Some(rank_order(self.rank(), other.rank()))
    }
}

/// What the named numbers are: their encodings, and the rank of zero.
pub proof fn lemma_zero_and_one()
    ensures
        FiniteF64::spec_zero().bits() == 0,
        FiniteF64::spec_zero().rank() == 0,
        FiniteF64::spec_one().bits() == ONE_BITS,
        FiniteF64::spec_zero().wf() && FiniteF64::spec_one().wf(),
        NonNanF64::spec_zero().bits() == 0,
        NonNanF64::spec_zero().rank() == 0,
        NonNanF64::spec_one().bits() == ONE_BITS,
        NonNanF64::spec_zero().wf() && NonNanF64::spec_one().wf(),
{
}

/// Two numbers with the same rank differ at most in the sign of zero.
pub proof fn lemma_same_rank(a: u64, b: u64)
    requires
        !is_nan_bits(a),
        !is_nan_bits(b),
        rank(a) == rank(b),
    ensures
        a == b || (magnitude(a) == 0 && magnitude(b) == 0),
{
}

} // verus!
