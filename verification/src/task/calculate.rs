//! The synchronous variant of the task: the same orchestration, handing
//! back the terminal value list directly instead of an event stream.
use vstd::prelude::*;

verus! {

use num_bigint::BigInt;

use crate::big::seq_view;
use crate::builder::FiboBuilder;
use crate::task::FiboTaskResult;
use crate::task::TaskEvent;
use crate::task::calculate_fibo_task::calculate_fibo_task;
use crate::task::calculate_fibo_task::lemma_task_events_shape;
use crate::task::calculate_fibo_task::task_result_values;
use crate::task::ev_view;

/// Runs one plan and returns its final, filtered, ordered value list:
/// exactly the list the event stream's terminal event carries.
pub fn calculate_fibonacci_task(builder: FiboBuilder) -> (r: Vec<BigInt>)
    ensures
        seq_view(r@) == task_result_values(
            builder.seed_view(),
            builder.range_view(),
            builder.preds(),
        ),
{
    let ghost seed = builder.seed_view();
    let ghost range = builder.range_view();
    let ghost preds = builder.preds();
    proof {
        builder.lemma_range_view_nonneg();
    }
    let mut events = calculate_fibo_task(builder);
    proof {
        lemma_task_events_shape(seed, range, preds);
        assert(events@.len() >= 1);
        assert(ev_view(events@.last()) == TaskEvent::Done(
            task_result_values(seed, range, preds),
        ));
    }
    let last = events.pop();
    match last {
        Some(FiboTaskResult::Result(values)) => values,
        _ => {
            proof {
                assert(false);
            }
            Vec::new()
        },
    }
}

} // verus!
