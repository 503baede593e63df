//! The predicate model of the filter pipeline.
//!
//! A sequence value survives filtering only if every predicate in the
//! plan accepts it. Predicates carry only immutable captured data, so
//! they are plain values here: a comparison against a bound, or a parity
//! test. `FilterType`, `Filter` and `FilterState` are the plain
//! comparison-filter model a front end accumulates before it turns each
//! entry into a `Predicate`.
use vstd::prelude::*;

verus! {

use num_bigint::BigInt;

use crate::big::big_is_even;
use crate::big::big_le;
use crate::big::big_view;

/// A pure boolean test over one sequence value.
pub enum Predicate {
    /// Accepts values greater than or equal to the bound.
    Ge(BigInt),
    /// Accepts values less than or equal to the bound.
    Le(BigInt),
    /// Accepts even values.
    Even,
}

impl Predicate {
    /// Whether this predicate accepts the integer `v`.
    pub open spec fn accepts(self, v: int) -> bool {
        match self {
            Predicate::Ge(b) => v >= big_view(b),
            Predicate::Le(b) => v <= big_view(b),
            Predicate::Even => v % 2 == 0,
        }
    }

    /// Evaluates this predicate on one sequence value.
    pub fn matches_value(&self, v: &BigInt) -> (r: bool)
        ensures
            r == self.accepts(big_view(*v)),
    {
        match self {
            Predicate::Ge(b) => big_le(b, v),
            Predicate::Le(b) => big_le(v, b),
            Predicate::Even => big_is_even(v),
        }
    }
}

/// Whether every predicate of `preds` accepts the integer `v`.
pub open spec fn passes_all_spec(preds: Seq<Predicate>, v: int) -> bool {
    forall|i: int| 0 <= i < preds.len() ==> #[trigger] preds[i].accepts(v)
}

/// The subsequence of `vals` whose members every predicate accepts, in
/// their original order.
pub open spec fn filter_values(preds: Seq<Predicate>, vals: Seq<int>) -> Seq<int> {
    vals.filter(|v: int| passes_all_spec(preds, v))
}

/// Evaluates the whole predicate list on one sequence value.
pub fn passes_all(preds: &Vec<Predicate>, v: &BigInt) -> (r: bool)
    ensures
        r == passes_all_spec(preds@, big_view(*v)),
{
    let mut i: usize = 0;
    while i < preds.len()
        invariant
            0 <= i <= preds@.len(),
            forall|j: int| 0 <= j < i ==> #[trigger] preds@[j].accepts(big_view(*v)),
        decreases preds@.len() - i,
    {
        if !preds[i].matches_value(v) {
            return false;
        }
        i = i + 1;
    }
    true
}

/// Splitting a value list anywhere and filtering the parts yields the
/// same survivors, in the same order, as filtering the whole list: the
/// chunked pipeline can never reorder or change the surviving elements.
pub proof fn lemma_filter_values_split(preds: Seq<Predicate>, xs: Seq<int>, ys: Seq<int>)
    ensures
        filter_values(preds, xs + ys) == filter_values(preds, xs) + filter_values(preds, ys),
{
    Seq::<int>::filter_distributes_over_add(xs, ys, |v: int| passes_all_spec(preds, v));
}

/// The comparison kind of one front-end filter entry.
#[derive(Clone)]
pub enum FilterType {
    Ge,
    Le,
}

impl Default for FilterType {
    fn default() -> (r: Self)
        ensures
            r is Ge,
    {
        FilterType::Ge
    }
}

/// One accumulated comparison filter: a kind and its bound.
#[derive(Clone)]
pub struct Filter {
    pub filter_type: FilterType,
    pub value: BigInt,
}

impl Filter {
    /// Whether this comparison filter accepts the integer `v`.
    pub open spec fn accepts(self, v: int) -> bool {
        match self.filter_type {
            FilterType::Ge => v >= big_view(self.value),
            FilterType::Le => v <= big_view(self.value),
        }
    }

    /// The predicate that tests exactly what this comparison filter states.
    pub fn to_predicate(&self) -> (p: Predicate)
        ensures
            forall|v: int| p.accepts(v) == self.accepts(v),
    {
        match &self.filter_type {
            FilterType::Ge => Predicate::Ge(self.value.clone()),
            FilterType::Le => Predicate::Le(self.value.clone()),
        }
    }
}

/// The filter list a front end accumulates, plus the kind the next
/// entry will carry.
pub struct FilterState {
    pub filters: Vec<Filter>,
    pub filter_type: FilterType,
}

impl Default for FilterState {
    fn default() -> (r: Self)
        ensures
            r.filters@.len() == 0,
            r.filter_type is Ge,
    {
        FilterState { filters: Vec::new(), filter_type: FilterType::Ge }
    }
}

} // verus!
