//! A Fibonacci-like sequence engine: two generators over an arbitrary seed
//! pair (a linear recurrence and a matrix-power fast path), a composable
//! comparison-filter pipeline evaluated over chunks, and a task orchestrator
//! that reports integer progress while it materializes a requested index
//! range of exact, arbitrary-precision values.
use vstd::prelude::*;

pub mod big;
pub mod builder;
pub mod calculator;
pub mod filter;
pub mod implementation;
pub mod input;
pub mod task;

pub use builder::FiboBuilder;
pub use calculator::FiboCalc;
pub use calculator::ImplementationFibo;
pub use filter::Filter;
pub use filter::FilterState;
pub use filter::FilterType;
pub use filter::Predicate;
pub use input::InputFields;
pub use input::InputMode;
pub use task::FiboTaskResult;

verus! {

/// The value of the recurrence t(0) = a, t(1) = b, t(n) = t(n-2) + t(n-1),
/// extended below zero by t(n) = a for n <= 0.
pub open spec fn fib_term(a: int, b: int, n: int) -> int
    decreases n,
{
    if n <= 0 {
        a
    } else if n == 1 {
        b
    } else {
        fib_term(a, b, n - 2) + fib_term(a, b, n - 1)
    }
}

/// Advancing the state pair of the recurrence by one step shifts every
/// later term by one index.
pub proof fn lemma_fib_shift(a: int, b: int, n: int)
    requires
        n >= 0,
    ensures
        fib_term(b, a + b, n) == fib_term(a, b, n + 1),
    decreases n,
{
    reveal_with_fuel(fib_term, 3);
    if n >= 2 {
        lemma_fib_shift(a, b, n - 1);
        lemma_fib_shift(a, b, n - 2);
    }
}

} // verus!
