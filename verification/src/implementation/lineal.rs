//! The linear generator: one exact addition per term.
//!
//! Its state is the last two values of the recurrence; every produced
//! value is their sum, and the state advances by exactly one term per
//! value produced.
use vstd::prelude::*;

verus! {

use num_bigint::BigInt;

use crate::big::big_add;
use crate::big::big_from_i64;
use crate::big::big_view;
use crate::calculator::ImplementationFibo;
use crate::fib_term;
use crate::lemma_fib_shift;

pub struct LinealFibo {
    pub last: BigInt,
    pub pre_last: BigInt,
}

impl ImplementationFibo for LinealFibo {
    open spec fn wf(&self) -> bool {
        true
    }

    open spec fn stream_at(&self, k: int) -> int {
        fib_term(big_view(self.pre_last), big_view(self.last), k + 2)
    }

    open spec fn init_stream(seed: Option<(int, int)>, k: int) -> int {
        match seed {
            Some((a, b)) => fib_term(a, b, k + 2),
            None => fib_term(-1, 1, k + 2),
        }
    }

    fn new(start_nums: Option<(BigInt, BigInt)>) -> (g: Self) {
        if let Some((start_num1, start_num2)) = start_nums {
            return LinealFibo { last: start_num2, pre_last: start_num1 };
        }
        Default::default()
    }

    fn next_value(&mut self) -> (r: BigInt) {
        let res = big_add(&self.last, &self.pre_last);
        self.pre_last = self.last.clone();
        self.last = res.clone();
        proof {
            reveal_with_fuel(fib_term, 3);
            let p = big_view(old(self).pre_last);
            let l = big_view(old(self).last);
            assert forall|k: int| 0 <= k implies self.stream_at(k) == old(self).stream_at(
                k + 1,
            ) by {
                lemma_fib_shift(p, l, k + 2);
            }
        }
        res
    }
}

impl Default for LinealFibo {
    /// The canonical seeding: the produced stream continues the classic
    /// sequence as 0, 1, 1, 2, 3, ...
    fn default() -> (g: Self)
        ensures
            big_view(g.pre_last) == -1,
            big_view(g.last) == 1,
    {
        LinealFibo { pre_last: big_from_i64(-1), last: big_from_i64(1) }
    }
}

} // verus!
