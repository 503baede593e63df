//! The shared generator capability and the calculator facade.
//!
//! Both generation strategies are producers of the same lazy, infinite
//! stream of sequence values; `ImplementationFibo` captures that shared
//! construction contract, so callers pick a strategy by use case alone.
use vstd::prelude::*;

verus! {

use num_bigint::BigInt;

use crate::big::big_view;
use crate::big::seed_view;
use crate::builder::FiboBuilder;
use crate::fib_term;
use crate::implementation::lineal::LinealFibo;
use crate::implementation::matmul::MatmulFibo;
use crate::task::FiboTaskResult;
use crate::task::calculate_fibo_task::calculate_fibo_task;
use crate::task::calculate_fibo_task::task_events;
use crate::task::events_view;

/// A producer of a lazy, infinite sequence of exact integer values,
/// constructed from an optional seed pair.
///
/// `stream_at(k)` is the value that the producer will hand out on its
/// k-th future call (counting from zero), as a function of its current
/// state; each call returns the head of that stream and shifts it.
pub trait ImplementationFibo: Sized {
    /// The producer's internal state is consistent.
    spec fn wf(&self) -> bool;

    /// The value the k-th future `next_value` call will return.
    spec fn stream_at(&self, k: int) -> int;

    /// The stream a freshly constructed producer yields for a seed pair.
    spec fn init_stream(seed: Option<(int, int)>, k: int) -> int;

    /// Builds a fresh producer from an optional seed pair; an absent pair
    /// selects the canonical classic-sequence seeding.
    fn new(start_nums: Option<(BigInt, BigInt)>) -> (g: Self)
        ensures
            g.wf(),
            forall|k: int| 0 <= k ==> g.stream_at(k) == Self::init_stream(seed_view(start_nums), k),
    ;

    /// Returns the next sequence value and advances the state by one term.
    fn next_value(&mut self) -> (r: BigInt)
        requires
            old(self).wf(),
        ensures
            final(self).wf(),
            big_view(r) == old(self).stream_at(0),
            forall|k: int| 0 <= k ==> final(self).stream_at(k) == old(self).stream_at(k + 1),
    ;
}

/// Cross-implementation equivalence: for any seed pair and any index
/// n >= 3, the value the matrix generator's direct path answers at n
/// (term n - 1 of the seeded recurrence, by `MatmulFibo::calc_one`'s
/// contract) is exactly the value a linear generator seeded with the
/// same pair hands out on its (n - 2)-th call; at n = 2 and below the
/// direct path answers with the second seed value itself.
pub proof fn lemma_direct_matches_linear(a: int, b: int, n: int)
    requires
        n >= 3,
    ensures
        fib_term(a, b, n - 1) == LinealFibo::init_stream(Some((a, b)), n - 3),
{
}

/// A facade that binds one configuration plan to the two strategies:
/// bulk range work runs through the linear generator in the task layer,
/// single-index queries through the matrix generator's direct path.
pub struct FiboCalc {
    builder: FiboBuilder,
}

impl FiboCalc {
    /// The plan this calculator was given.
    pub closed spec fn plan(&self) -> FiboBuilder {
        self.builder
    }

    pub fn new(builder: FiboBuilder) -> (c: Self)
        ensures
            c.plan() == builder,
    {
        FiboCalc { builder }
    }

    /// Runs the plan to completion and hands back its whole ordered
    /// event stream; a background runner forwards the events to a
    /// consumer one by one.
    pub fn calc_events(self) -> (events: Vec<FiboTaskResult>)
        ensures
            events_view(events@) == task_events(
                self.plan().seed_view(),
                self.plan().range_view(),
                self.plan().preds(),
            ),
    {
        calculate_fibo_task(self.builder)
    }

    /// Computes the single term addressed by `n` through the matrix
    /// generator's O(log n) direct path, seeded from the plan.
    ///
    /// For n >= 2 the answer is the term of index n - 1 of the seeded
    /// recurrence; below that the direct path answers with the second
    /// seed value, never touching matrix arithmetic.
    pub fn calc_one_number(self, n: BigInt) -> (r: BigInt)
        ensures
            ({
                let (a, b) = match self.plan().seed_view() {
                    Some(p) => p,
                    None => (0int, 1int),
                };
                big_view(r) == if big_view(n) >= 2 {
                    fib_term(a, b, big_view(n) - 1)
                } else {
                    b
                }
            }),
    {
        let mut gen = MatmulFibo::new(self.builder.get_start_nums());
        gen.calc_one(n)
    }
}

} // verus!
