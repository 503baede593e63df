//! The task layer: output events and the orchestrator that emits them.
//!
//! A task run produces an ordered stream of events: zero or more
//! integer progress notifications strictly before the single terminal
//! result event. `TaskEvent` is the mathematical model of one event,
//! and `events_view` lifts a concrete event list to that model.
use vstd::prelude::*;

pub mod calculate;
pub mod calculate_fibo_task;

pub use calculate::calculate_fibonacci_task;
pub use calculate_fibo_task::apply_filters_with_progress;
pub use calculate_fibo_task::calculate_fibo_task;
pub use calculate_fibo_task::send_progress;

verus! {

use num_bigint::BigInt;

use crate::big::seq_view;

/// One event of the task's output stream.
pub enum FiboTaskResult {
    /// Percent of the work completed so far, an integer 0 to 100.
    Calculation(u8),
    /// The terminal event: the final, filtered, ordered value list.
    Result(Vec<BigInt>),
}

/// The mathematical model of one output event.
pub enum TaskEvent {
    Progress(int),
    Done(Seq<int>),
}

/// The model of one concrete event.
pub open spec fn ev_view(e: FiboTaskResult) -> TaskEvent {
    match e {
        FiboTaskResult::Calculation(p) => TaskEvent::Progress(p as int),
        FiboTaskResult::Result(v) => TaskEvent::Done(seq_view(v@)),
    }
}

/// The model of a whole event list.
pub open spec fn events_view(s: Seq<FiboTaskResult>) -> Seq<TaskEvent> {
    s.map_values(|e: FiboTaskResult| ev_view(e))
}

/// The reported percentage: the floating ratio processed / total scaled
/// to 100 and truncated toward zero, clamped so that a processed count
/// beyond the total can never report more than 100.
pub open spec fn progress_pct(processed: int, total: int) -> int
    recommends
        total >= 1,
{
    let raw = 100 * processed / total;
    if raw > 100 {
        100
    } else {
        raw
    }
}

/// A reported percentage is always an integer in [0, 100].
pub proof fn lemma_progress_pct_bounds(processed: int, total: int)
    requires
        0 <= processed,
        1 <= total,
    ensures
        0 <= progress_pct(processed, total) <= 100,
{
    assert(100 * processed / total >= 0) by (nonlinear_arith)
        requires
            processed >= 0,
            total >= 1,
    ;
}

} // verus!
