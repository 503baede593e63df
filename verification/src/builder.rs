//! The configuration builder: a mutable accumulator for the seed pair,
//! the index range and the predicate list, consumed once by the task
//! layer as one immutable execution plan.
use vstd::prelude::*;

verus! {

use num_bigint::BigInt;

use crate::big::seed_view;
use crate::filter::Predicate;

/// The index interval held by an optional half-open range.
pub open spec fn range_opt_view(r: Option<(usize, usize)>) -> Option<(int, int)> {
    match r {
        Some((s, e)) => Some((s as int, e as int)),
        None => None,
    }
}

/// Accumulates starting pair, index range and predicates; each setter
/// hands the builder back so configuration can be chained.
pub struct FiboBuilder {
    start_nums: Option<(BigInt, BigInt)>,
    range_by_index: Option<(usize, usize)>,
    other_filters: Vec<Predicate>,
}

impl FiboBuilder {
    /// The seed pair of the plan, if one was set.
    pub closed spec fn seed_view(&self) -> Option<(int, int)> {
        seed_view(self.start_nums)
    }

    /// The half-open index range of the plan, if one was set.
    pub closed spec fn range_view(&self) -> Option<(int, int)> {
        range_opt_view(self.range_by_index)
    }

    /// The ordered predicate list of the plan.
    pub closed spec fn preds(&self) -> Seq<Predicate> {
        self.other_filters@
    }

    /// A plan with neither a range nor a predicate asks for nothing.
    pub open spec fn no_work(&self) -> bool {
        self.range_view() is None && self.preds().len() == 0
    }

    /// A range always comes from machine-sized indices, so its bounds
    /// are never negative.
    pub proof fn lemma_range_view_nonneg(&self)
        ensures
            match self.range_view() {
                Some((s, e)) => 0 <= s && 0 <= e,
                None => true,
            },
    {
    }

    pub fn get_filters(&self) -> (r: &Vec<Predicate>)
        ensures
            r@ == self.preds(),
    {
        &self.other_filters
    }

    pub fn get_range_by_id(&self) -> (r: Option<(usize, usize)>)
        ensures
            range_opt_view(r) == self.range_view(),
    {
        self.range_by_index
    }

    pub fn get_start_nums(&self) -> (r: Option<(BigInt, BigInt)>)
        ensures
            seed_view(r) == self.seed_view(),
    {
        match &self.start_nums {
            Some((a, b)) => Some((a.clone(), b.clone())),
            None => None,
        }
    }

    pub fn is_none_filter(&self) -> (r: bool)
        ensures
            r == self.no_work(),
    {
        self.range_by_index.is_none() && self.other_filters.len() == 0
    }

    /// Appends one predicate to the plan's filter list.
    pub fn add_filter(&mut self, filter: Predicate) -> (ret: &mut Self)
        ensures
            ret.seed_view() == old(self).seed_view(),
            ret.range_view() == old(self).range_view(),
            ret.preds() == old(self).preds().push(filter),
            *final(self) == *final(ret),
    {
        self.other_filters.push(filter);
        self
    }

    /// Replaces the plan's index range.
    pub fn set_range_by_id(&mut self, new_range: Option<(usize, usize)>) -> (ret: &mut Self)
        ensures
            ret.seed_view() == old(self).seed_view(),
            ret.range_view() == range_opt_view(new_range),
            ret.preds() == old(self).preds(),
            *final(self) == *final(ret),
    {
        self.range_by_index = new_range;
        self
    }

    /// Replaces the plan's seed pair.
    pub fn set_start_nums(&mut self, start_num: Option<(BigInt, BigInt)>) -> (ret: &mut Self)
        ensures
            ret.seed_view() == seed_view(start_num),
            ret.range_view() == old(self).range_view(),
            ret.preds() == old(self).preds(),
            *final(self) == *final(ret),
    {
        self.start_nums = start_num;
        self
    }
}

impl Default for FiboBuilder {
    /// An empty plan: no seed pair, no range, no predicates.
    fn default() -> (r: Self)
        ensures
            r.seed_view() is None,
            r.range_view() is None,
            r.preds().len() == 0,
    {
        FiboBuilder { start_nums: None, range_by_index: None, other_filters: Vec::new() }
    }
}

} // verus!
