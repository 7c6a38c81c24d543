//! Half-open ranges and closed intervals over any ordered type.
use crate::error::{Error, ErrorKind};
use core::cmp::Ordering;
use core::ops::Sub;
use vstd::prelude::*;
use vstd::std_specs::cmp::PartialOrdSpec;
use vstd::std_specs::ops::SubSpec;

verus! {

/// `a < b`, as the type's own comparison has it.
pub open spec fn is_less<T: PartialOrd>(a: T, b: T) -> bool {
    a.partial_cmp_spec(&b) == Some(Ordering::Less)
}

/// `a <= b`, as the type's own comparison has it.
pub open spec fn is_at_most<T: PartialOrd>(a: T, b: T) -> bool {
    a.partial_cmp_spec(&b) == Some(Ordering::Less) || a.partial_cmp_spec(&b) == Some(
        Ordering::Equal,
    )
}

/// `a > b`, as the type's own comparison has it.
pub open spec fn is_greater<T: PartialOrd>(a: T, b: T) -> bool {
    a.partial_cmp_spec(&b) == Some(Ordering::Greater)
}

/// A range that holds `low` and everything above it that is below `high`.
#[derive(Debug, Clone, Copy, PartialEq, Eq, Hash)]
pub struct Range<T> {
    /// The lower end, which belongs to the range.
    pub low: T,
    /// The upper end, which does not.
    pub high: T,
}

impl<T: PartialOrd> Range<T> {
    /// Whether `x` lies in the range: `low <= x` and `high > x`.
    pub open spec fn spec_contains(&self, x: T) -> bool {
        is_at_most(self.low, x) && is_greater(self.high, x)
    }

    /// Whether `r` says what the type's comparison can answer on `x`: for
    /// an answer on how `low` stands to `x` and an answer on how `high`
    /// does, `r` says that `low` is equal or less and `high` is greater.
    pub open spec fn answers(&self, x: T, r: bool) -> bool {
        exists|below: Option<Ordering>, above: Option<Ordering>|
            {
                &&& #[trigger] call_ensures(T::partial_cmp, (&self.low, &x), below)
                &&& #[trigger] call_ensures(T::partial_cmp, (&self.high, &x), above)
                &&& r == ((below == Some(Ordering::Equal) || below == Some(Ordering::Less))
                    && above == Some(Ordering::Greater))
            }
    }

    /// Makes the range from `low` up to `high`.
    ///
    /// Unless `low < high`, an `ErrorKind::InvalidInput` error is returned.
    pub fn new(low: T, high: T) -> (r: Result<Self, Error>)
        ensures
            call_ensures(T::lt, (&low, &high), r is Ok),
            T::obeys_partial_cmp_spec() ==> (r is Ok <==> is_less(low, high)),
            r matches Ok(range) ==> range.low == low && range.high == high,
            r matches Err(e) ==> e.kind() == ErrorKind::InvalidInput,
    {
        if low < high {
            Ok(Self { low, high })
        } else {
            Err(Error::new(ErrorKind::InvalidInput))
        }
    }

    /// Whether `x` lies in the range.
    pub fn contains(&self, x: &T) -> (r: bool)
        ensures
            self.answers(*x, r),
            T::obeys_partial_cmp_spec() ==> r == self.spec_contains(*x),
    {
        match (self.low.partial_cmp(x), self.high.partial_cmp(x)) {
            (Some(Ordering::Equal), Some(Ordering::Greater))
            | (Some(Ordering::Less), Some(Ordering::Greater)) => true,
            _ => false,
        }
    }
}

impl<T: Sub<Output = T> + Clone> Range<T> {
    /// The distance from `low` to `high`.
    pub fn width(&self) -> (w: T)
        requires
            forall|h: T, l: T| cloned(self.high, h) && cloned(self.low, l) ==> h.sub_req(l),
        ensures
            exists|h: T, l: T|
                #[trigger] cloned(self.high, h) && #[trigger] cloned(self.low, l) && (
                T::obeys_sub_spec() ==> w == h.sub_spec(l)),
    {
        let h = self.high.clone();
        let l = self.low.clone();
        let w = h - l;
        assert(cloned(self.high, h) && cloned(self.low, l) && (T::obeys_sub_spec() ==> w
            == h.sub_spec(l)));
        w
    }
}

/// An interval that holds both of its ends and everything between them.
#[derive(Debug, Clone, Copy, PartialEq, Eq, Hash)]
pub struct MinMax<T> {
    min: T,
    max: T,
}

impl<T> MinMax<T> {
    /// The lower end.
    pub closed spec fn spec_min(&self) -> T {
        self.min
    }

    /// The upper end.
    pub closed spec fn spec_max(&self) -> T {
        self.max
    }

    /// Makes the interval without comparing its ends.
    ///
    /// Nothing checks that `min <= max`: an interval made here is well formed
    /// only if the caller saw to that.
    pub fn new_unchecked(min: T, max: T) -> (r: Self)
        ensures
            r.spec_min() == min,
            r.spec_max() == max,
    {
        Self { min, max }
    }

    /// Returns the lower end.
    pub fn min(&self) -> (r: &T)
        ensures
            *r == self.spec_min(),
    {
        &self.min
    }

    /// Returns the upper end.
    pub fn max(&self) -> (r: &T)
        ensures
            *r == self.spec_max(),
    {
        &self.max
    }
}

impl<T: Sub<Output = T> + Clone> MinMax<T> {
    /// The distance from the lower end to the upper end.
    pub fn width(&self) -> (w: T)
        requires
            forall|h: T, l: T|
                cloned(self.spec_max(), h) && cloned(self.spec_min(), l) ==> h.sub_req(l),
        ensures
            exists|h: T, l: T|
                #[trigger] cloned(self.spec_max(), h) && #[trigger] cloned(self.spec_min(), l) && (
                T::obeys_sub_spec() ==> w == h.sub_spec(l)),
    {
        let h = self.max.clone();
        let l = self.min.clone();
        let w = h - l;
        assert(cloned(self.spec_max(), h) && cloned(self.spec_min(), l) && (T::obeys_sub_spec()
            ==> w == h.sub_spec(l)));
        w
    }
}

impl<T: PartialOrd> MinMax<T> {
    /// Whether the ends are in order: `min <= max`.
    pub open spec fn wf(&self) -> bool {
        is_at_most(self.spec_min(), self.spec_max())
    }

    /// Whether `x` lies in the interval: `min <= x <= max`.
    pub open spec fn spec_contains(&self, x: T) -> bool {
        is_at_most(self.spec_min(), x) && is_at_most(x, self.spec_max())
    }

    /// Makes the interval from `min` to `max`.
    ///
    /// Unless `min <= max`, an `ErrorKind::InvalidInput` error is returned.
    pub fn new(min: T, max: T) -> (r: Result<Self, Error>)
        ensures
            call_ensures(T::le, (&min, &max), r is Ok),
            T::obeys_partial_cmp_spec() ==> (r is Ok <==> is_at_most(min, max)),
            r matches Ok(m) ==> m.spec_min() == min && m.spec_max() == max,
            r matches Ok(m) ==> (T::obeys_partial_cmp_spec() ==> m.wf()),
            r matches Err(e) ==> e.kind() == ErrorKind::InvalidInput,
    {
        if min <= max {
            Ok(Self { min, max })
        } else {
            Err(Error::new(ErrorKind::InvalidInput))
        }
    }

    /// Whether `x` lies in the interval.
    pub fn contains(&self, x: &T) -> (r: bool)
        ensures
            r ==> call_ensures(T::le, (&self.spec_min(), x), true) && call_ensures(
                T::le,
                (x, &self.spec_max()),
                true,
            ),
            !r ==> call_ensures(T::le, (&self.spec_min(), x), false) || call_ensures(
                T::le,
                (x, &self.spec_max()),
                false,
            ),
            T::obeys_partial_cmp_spec() ==> r == self.spec_contains(*x),
    {
        self.min <= *x && *x <= self.max
    }
}

} // verus!
