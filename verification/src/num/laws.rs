//! The order of the number types is a lawful one.
use super::{FiniteF64, NonNanF64};
use vstd::laws_cmp::obeys_partial_cmp_spec_properties;
use vstd::laws_eq::{obeys_eq, obeys_eq_spec_properties};
use vstd::prelude::*;
use vstd::std_specs::cmp::PartialOrdSpec;

verus! {

/// The comparisons of `FiniteF64` are those of a total order: equality is
/// an equivalence, less and greater mirror each other, and both carry over
/// a chain.
pub proof fn lemma_finite_obeys_order_laws()
    ensures
        obeys_eq::<FiniteF64>(),
        obeys_partial_cmp_spec_properties::<FiniteF64>(),
        forall|x: FiniteF64, y: FiniteF64| #[trigger] x.partial_cmp_spec(&y) is Some,
{
    reveal(obeys_eq_spec_properties);
    reveal(obeys_partial_cmp_spec_properties);
}

/// The comparisons of `NonNanF64` are those of a total order: equality is
/// an equivalence, less and greater mirror each other, and both carry over
/// a chain.
pub proof fn lemma_non_nan_obeys_order_laws()
    ensures
        obeys_eq::<NonNanF64>(),
        obeys_partial_cmp_spec_properties::<NonNanF64>(),
        forall|x: NonNanF64, y: NonNanF64| #[trigger] x.partial_cmp_spec(&y) is Some,
{
    reveal(obeys_eq_spec_properties);
    reveal(obeys_partial_cmp_spec_properties);
}

} // verus!
