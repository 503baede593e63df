//! The orchestrator: Validating, Generating, Filtering, Completed.
//!
//! `task_events` is the exact event stream a plan produces; the
//! orchestrator's postcondition pins its output to it. Every failure
//! path degrades to an empty successful result, never an error.
use rayon::iter::IntoParallelRefIterator;
use rayon::iter::ParallelIterator;
use vstd::prelude::*;

verus! {

use num_bigint::BigInt;

use crate::big::big_view;
use crate::big::seq_view;
use crate::builder::FiboBuilder;
use crate::calculator::ImplementationFibo;
use crate::fib_term;
use crate::filter::Predicate;
use crate::filter::filter_values;
use crate::filter::lemma_filter_values_split;
use crate::filter::passes_all;
use crate::filter::passes_all_spec;
use crate::implementation::lineal::LinealFibo;
use crate::task::FiboTaskResult;
use crate::task::TaskEvent;
use crate::task::events_view;
use crate::task::lemma_progress_pct_bounds;
use crate::task::progress_pct;

broadcast use crate::big::group_seq_view;

/// Items per parallel filtering chunk.
pub const CHUNK_SIZE: usize = 1000;

/// How many of the first two indices fall inside the window [start, end).
pub open spec fn seed_count(start: int, end: int) -> int {
    (if start == 0 {
        1int
    } else {
        0int
    }) + (if start <= 1 && end > 1 {
        1int
    } else {
        0int
    })
}

/// How many produced terms the generator discards before the window.
pub open spec fn skip_count_spec(start: int) -> int {
    if start > 2 {
        start - 2
    } else {
        0
    }
}

/// How many terms the generator contributes to the buffer.
pub open spec fn gen_count(end: int) -> int {
    if end > 2 {
        end - 2
    } else {
        0
    }
}

/// The j-th term the generator appends to the buffer.
pub open spec fn gen_value(a: int, b: int, start: int, j: int) -> int {
    fib_term(a, b, 2 + skip_count_spec(start) + j)
}

/// The seed values pushed directly from the pair, in index order.
pub open spec fn seed_values(a: int, b: int, start: int, end: int) -> Seq<int> {
    (if start == 0 {
        seq![a]
    } else {
        Seq::<int>::empty()
    }) + (if start <= 1 && end > 1 {
        seq![b]
    } else {
        Seq::<int>::empty()
    })
}

/// The raw, unfiltered buffer the generating phase materializes: the
/// in-window seed values, then `end - 2` generated terms starting after
/// the skipped prefix.
pub open spec fn raw_values(a: int, b: int, start: int, end: int) -> Seq<int> {
    seed_values(a, b, start, end) + Seq::new(
        gen_count(end) as nat,
        |j: int| gen_value(a, b, start, j),
    )
}

/// Whether a progress event is emitted once `p` items have been
/// produced: always for the directly pushed seeds, and at every tenth
/// item and at the total from the generating loop.
pub open spec fn emits_progress_at(p: int, n_seeds: int, total: int) -> bool {
    p <= n_seeds || p % 10 == 0 || p == total
}

/// The progress events of the generating phase, for the first `upto`
/// produced items.
pub open spec fn gen_events(n_seeds: int, total: int, upto: int) -> Seq<TaskEvent>
    decreases upto,
{
    if upto <= 0 {
        Seq::empty()
    } else {
        gen_events(n_seeds, total, upto - 1) + (if emits_progress_at(upto, n_seeds, total) {
            seq![TaskEvent::Progress(progress_pct(upto, total))]
        } else {
            Seq::<TaskEvent>::empty()
        })
    }
}

/// The progress events of the chunked filtering loop over a buffer of
/// `total` items, starting after `done` already-filtered items.
pub open spec fn chunk_events(total: int, done: int) -> Seq<TaskEvent>
    decreases total - done,
{
    if done >= total {
        Seq::empty()
    } else {
        let next = if done + CHUNK_SIZE <= total {
            done + CHUNK_SIZE
        } else {
            total
        };
        seq![TaskEvent::Progress(progress_pct(next, total))] + chunk_events(total, next)
    }
}

/// The progress events of the whole filtering phase: none for an empty
/// buffer, a single 100 when there is nothing to filter, and one event
/// per chunk otherwise.
pub open spec fn filter_phase_events(no_preds: bool, len: int) -> Seq<TaskEvent> {
    if len == 0 {
        Seq::empty()
    } else if no_preds {
        seq![TaskEvent::Progress(100)]
    } else {
        chunk_events(len, 0)
    }
}

/// The final value list of a plan: the filtered raw buffer, or empty
/// whenever the plan asks for no work or fails validation.
pub open spec fn task_result_values(
    seed: Option<(int, int)>,
    range: Option<(int, int)>,
    preds: Seq<Predicate>,
) -> Seq<int> {
    match (seed, range) {
        (Some((a, b)), Some((s, e))) => if s <= e && e - s > 0 {
            filter_values(preds, raw_values(a, b, s, e))
        } else {
            Seq::empty()
        },
        _ => Seq::empty(),
    }
}

/// The exact event stream one task run emits for a plan: progress
/// events of the generating phase, then of the filtering phase, then
/// the single terminal result. Every validation failure short-circuits
/// to the terminal event alone, with an empty value list.
pub open spec fn task_events(
    seed: Option<(int, int)>,
    range: Option<(int, int)>,
    preds: Seq<Predicate>,
) -> Seq<TaskEvent> {
    if range is None && preds.len() == 0 {
        seq![TaskEvent::Done(Seq::empty())]
    } else {
        match (seed, range) {
            (Some((a, b)), Some((s, e))) => if s <= e && e - s > 0 {
                gen_events(seed_count(s, e), e - s, raw_values(a, b, s, e).len() as int)
                    + filter_phase_events(preds.len() == 0, raw_values(a, b, s, e).len() as int)
                    + seq![TaskEvent::Done(filter_values(preds, raw_values(a, b, s, e)))]
            } else {
                seq![TaskEvent::Done(Seq::empty())]
            },
            _ => seq![TaskEvent::Done(Seq::empty())],
        }
    }
}

/// A progress event carrying an integer percentage in [0, 100].
pub open spec fn bounded_progress(e: TaskEvent) -> bool {
    &&& e is Progress
    &&& 0 <= e->Progress_0
    &&& e->Progress_0 <= 100
}

proof fn lemma_gen_events_bounded(n_seeds: int, total: int, upto: int)
    requires
        total >= 1,
    ensures
        forall|i: int|
            0 <= i < gen_events(n_seeds, total, upto).len() ==> bounded_progress(
                #[trigger] gen_events(n_seeds, total, upto)[i],
            ),
    decreases upto,
{
    if upto > 0 {
        lemma_gen_events_bounded(n_seeds, total, upto - 1);
        lemma_progress_pct_bounds(upto, total);
        let prev = gen_events(n_seeds, total, upto - 1);
        let cur = gen_events(n_seeds, total, upto);
        assert forall|i: int| 0 <= i < cur.len() implies bounded_progress(cur[i]) by {
            if i < prev.len() {
                assert(cur[i] == prev[i]);
            } else {
                assert(cur[i] == TaskEvent::Progress(progress_pct(upto, total)));
            }
        }
    }
}

proof fn lemma_chunk_events_bounded(total: int, done: int)
    requires
        total >= 1,
        0 <= done,
    ensures
        forall|i: int|
            0 <= i < chunk_events(total, done).len() ==> bounded_progress(
                #[trigger] chunk_events(total, done)[i],
            ),
    decreases total - done,
{
    if done < total {
        let next = if done + CHUNK_SIZE <= total {
            done + CHUNK_SIZE
        } else {
            total
        };
        lemma_progress_pct_bounds(next, total);
        lemma_chunk_events_bounded(total, next);
        let tail = chunk_events(total, next);
        let cur = chunk_events(total, done);
        assert forall|i: int| 0 <= i < cur.len() implies bounded_progress(cur[i]) by {
            if i == 0 {
                assert(cur[i] == TaskEvent::Progress(progress_pct(next, total)));
            } else {
                assert(cur[i] == tail[i - 1]);
            }
        }
    }
}

proof fn lemma_chunk_events_last(total: int, done: int)
    requires
        0 <= done < total,
    ensures
        chunk_events(total, done).len() >= 1,
        chunk_events(total, done).last() == TaskEvent::Progress(progress_pct(total, total)),
    decreases total - done,
{
    reveal_with_fuel(chunk_events, 2);
    let next = if done + CHUNK_SIZE <= total {
        done + CHUNK_SIZE
    } else {
        total
    };
    if next < total {
        lemma_chunk_events_last(total, next);
        let tail = chunk_events(total, next);
        assert(tail.len() >= 1);
        assert(chunk_events(total, done).last() == tail.last());
    } else {
        assert(chunk_events(total, done) =~= seq![
            TaskEvent::Progress(progress_pct(total, total)),
        ]);
    }
}

/// Whenever a plan does real work, the event emitted immediately before
/// the terminal result is a progress event of exactly 100, with or
/// without predicates.
pub proof fn lemma_final_progress_is_complete(
    seed: Option<(int, int)>,
    range: Option<(int, int)>,
    preds: Seq<Predicate>,
)
    requires
        seed is Some,
        match range {
            Some((s, e)) => 0 <= s && s < e,
            None => false,
        },
    ensures
        task_events(seed, range, preds).len() >= 2,
        task_events(seed, range, preds)[task_events(seed, range, preds).len() - 2]
            == TaskEvent::Progress(100),
{
    let (a, b) = seed->0;
    let (s, e) = range->0;
    let raw_len = raw_values(a, b, s, e).len() as int;
    if s == 0 || s == 1 {
        assert(seed_values(a, b, s, e).len() >= 1);
    } else {
        assert(gen_count(e) >= 1);
    }
    assert(raw_len >= 1);
    vstd::arithmetic::div_mod::lemma_div_multiples_vanish(100, raw_len);
    assert(raw_len * 100 == 100 * raw_len) by (nonlinear_arith);
    assert(progress_pct(raw_len, raw_len) == 100);
    if preds.len() > 0 {
        lemma_chunk_events_last(raw_len, 0);
    }
}

/// The shape of every task's event stream: it holds at least one event;
/// every event before the last is a progress notification carrying an
/// integer percentage in [0, 100], whatever the plan and its item count;
/// and the last event is the single result event, carrying exactly the
/// plan's final value list. A plan whose range is inverted or empty thus
/// emits exactly one event, the empty result.
pub proof fn lemma_task_events_shape(
    seed: Option<(int, int)>,
    range: Option<(int, int)>,
    preds: Seq<Predicate>,
)
    requires
        match range {
            Some((s, e)) => 0 <= s && 0 <= e,
            None => true,
        },
    ensures
        task_events(seed, range, preds).len() >= 1,
        task_events(seed, range, preds).last() == TaskEvent::Done(
            task_result_values(seed, range, preds),
        ),
        forall|i: int|
            0 <= i < task_events(seed, range, preds).len() - 1 ==> bounded_progress(
                #[trigger] task_events(seed, range, preds)[i],
            ),
{
    let stream = task_events(seed, range, preds);
    if !(range is None && preds.len() == 0) {
        match (seed, range) {
            (Some((a, b)), Some((s, e))) => {
                if s <= e && e - s > 0 {
                    let raw_len = raw_values(a, b, s, e).len() as int;
                    let total = e - s;
                    if s == 0 || s == 1 {
                        assert(seed_values(a, b, s, e).len() >= 1);
                    } else {
                        assert(e > 2);
                        assert(gen_count(e) >= 1);
                    }
                    assert(raw_len >= 1);
                    lemma_gen_events_bounded(seed_count(s, e), total, raw_len);
                    if preds.len() > 0 {
                        lemma_chunk_events_bounded(raw_len, 0);
                    }
                    assert(stream.last() == TaskEvent::Done(
                        task_result_values(seed, range, preds),
                    ));
                }
            },
            _ => {},
        }
    }
}

/// Idempotence: the event stream, and with it the final value list, is
/// a pure function of the plan's seed pair, range and predicates — two
/// runs of one plan can differ in nothing.
pub proof fn lemma_task_deterministic(
    seed1: Option<(int, int)>,
    range1: Option<(int, int)>,
    preds1: Seq<Predicate>,
    seed2: Option<(int, int)>,
    range2: Option<(int, int)>,
    preds2: Seq<Predicate>,
)
    requires
        seed1 == seed2,
        range1 == range2,
        preds1 == preds2,
    ensures
        task_events(seed1, range1, preds1) == task_events(seed2, range2, preds2),
        task_result_values(seed1, range1, preds1) == task_result_values(seed2, range2, preds2),
{
}

/// A range [s, e) with s >= e asks for nothing: the task emits exactly
/// one event, the empty result.
pub proof fn lemma_inverted_range_single_event(
    seed: Option<(int, int)>,
    s: int,
    e: int,
    preds: Seq<Predicate>,
)
    requires
        s >= e,
    ensures
        task_events(seed, Some((s, e)), preds) =~= seq![TaskEvent::Done(Seq::<int>::empty())],
{
}

/// Appends one progress event: the percentage of `processed` out of
/// `total`, truncated and clamped to [0, 100].
pub fn send_progress(events: &mut Vec<FiboTaskResult>, processed: usize, total: usize)
    requires
        total >= 1,
    ensures
        events_view(final(events)@) == events_view(old(events)@).push(
            TaskEvent::Progress(progress_pct(processed as int, total as int)),
        ),
{
    let scaled: u128 = (processed as u128) * 100 / (total as u128);
    let p: u8 = if scaled > 100 {
        100u8
    } else {
        scaled as u8
    };
    events.push(FiboTaskResult::Calculation(p));
    proof {
        assert(scaled == 100 * (processed as int) / (total as int));
        assert(events_view(events@) =~= events_view(old(events)@).push(
            TaskEvent::Progress(progress_pct(processed as int, total as int)),
        ));
    }
}

/// Relies on rayon's `par_iter`, `ParallelIterator::filter`, `cloned`
/// and `collect` over one slice of the buffer: the collected vector
/// holds exactly the elements every predicate accepts, in slice order.
#[verifier::external_body]
fn par_filter_range(
    numbers: &Vec<BigInt>,
    from: usize,
    to: usize,
    filters: &Vec<Predicate>,
) -> (r: Vec<BigInt>)
    requires
        from <= to <= numbers@.len(),
    ensures
        seq_view(r@) == filter_values(filters@, seq_view(numbers@).subrange(from as int, to as int)),
{
    numbers[from..to].par_iter().filter(|n: &&BigInt| passes_all(filters, n)).cloned().collect()
}

/// A predicate list accepting everything filters nothing out.
proof fn lemma_filter_values_identity(preds: Seq<Predicate>, vals: Seq<int>)
    requires
        preds.len() == 0,
    ensures
        filter_values(preds, vals) == vals,
    decreases vals.len(),
{
    reveal_with_fuel(Seq::<_>::filter, 2);
    if vals.len() == 0 {
        assert(filter_values(preds, vals) =~= vals);
    } else {
        lemma_filter_values_identity(preds, vals.drop_last());
        assert(passes_all_spec(preds, vals.last()));
        assert(filter_values(preds, vals) =~= filter_values(preds, vals.drop_last()).push(
            vals.last(),
        ));
        assert(vals.drop_last().push(vals.last()) =~= vals);
    }
}

/// Applies the plan's predicates to the materialized buffer in chunks
/// of `CHUNK_SIZE`, each chunk evaluated in parallel, appending one
/// progress event per chunk; an empty predicate list passes the buffer
/// through unchanged behind a single 100% event, and an empty buffer
/// comes back untouched with no event at all.
#[verifier::loop_isolation(false)]
pub fn apply_filters_with_progress(
    events: &mut Vec<FiboTaskResult>,
    numbers: Vec<BigInt>,
    filters: &Vec<Predicate>,
) -> (res: Vec<BigInt>)
    ensures
        seq_view(res@) == filter_values(filters@, seq_view(numbers@)),
        events_view(final(events)@) == events_view(old(events)@) + filter_phase_events(
            filters@.len() == 0,
            numbers@.len() as int,
        ),
{
    let total_items = numbers.len();
    if total_items == 0 {
        proof {
            lemma_filter_values_identity(Seq::empty(), seq_view(numbers@));
            assert(filter_values(filters@, seq_view(numbers@)) =~= seq_view(numbers@));
            assert(events_view(events@) =~= events_view(events@) + Seq::<TaskEvent>::empty());
        }
        return numbers;
    }
    if filters.len() == 0 {
        send_progress(events, total_items, total_items);
        proof {
            lemma_filter_values_identity(filters@, seq_view(numbers@));
            vstd::arithmetic::div_mod::lemma_div_multiples_vanish(100, total_items as int);
            assert((total_items as int) * 100 == 100 * (total_items as int))
                by (nonlinear_arith);
            assert(progress_pct(total_items as int, total_items as int) == 100);
            assert(events_view(events@) =~= events_view(old(events)@) + seq![
                TaskEvent::Progress(100),
            ]);
        }
        return numbers;
    }
    let mut filtered: Vec<BigInt> = Vec::new();
    let mut processed: usize = 0;
    while processed < total_items
        invariant
            processed <= total_items,
            seq_view(filtered@) == filter_values(
                filters@,
                seq_view(numbers@).subrange(0, processed as int),
            ),
            events_view(events@) + chunk_events(total_items as int, processed as int)
                == events_view(old(events)@) + chunk_events(total_items as int, 0),
        decreases total_items - processed,
    {
        let chunk_end = if total_items - processed >= CHUNK_SIZE {
            processed + CHUNK_SIZE
        } else {
            total_items
        };
        let filtered_chunk = par_filter_range(&numbers, processed, chunk_end, filters);
        let ghost done_before: int = processed as int;
        let mut idx: usize = 0;
        while idx < filtered_chunk.len()
            invariant
                idx <= filtered_chunk@.len(),
                seq_view(filtered@) == filter_values(
                    filters@,
                    seq_view(numbers@).subrange(0, done_before),
                ) + seq_view(filtered_chunk@).subrange(0, idx as int),
            decreases filtered_chunk@.len() - idx,
        {
            filtered.push(filtered_chunk[idx].clone());
            idx = idx + 1;
            proof {
                assert(seq_view(filtered@) =~= filter_values(
                    filters@,
                    seq_view(numbers@).subrange(0, done_before),
                ) + seq_view(filtered_chunk@).subrange(0, idx as int));
            }
        }
        processed = chunk_end;
        send_progress(events, processed, total_items);
        proof {
            assert(seq_view(filtered_chunk@).subrange(0, filtered_chunk@.len() as int) =~= seq_view(
                filtered_chunk@,
            ));
            assert(seq_view(numbers@).subrange(done_before, processed as int) =~= seq_view(
                numbers@.subrange(done_before, processed as int),
            ));
            lemma_filter_values_split(
                filters@,
                seq_view(numbers@).subrange(0, done_before),
                seq_view(numbers@).subrange(done_before, processed as int),
            );
            assert(seq_view(numbers@).subrange(0, done_before) + seq_view(numbers@).subrange(
                done_before,
                processed as int,
            ) =~= seq_view(numbers@).subrange(0, processed as int));
            assert(chunk_events(total_items as int, done_before) =~= seq![
                TaskEvent::Progress(progress_pct(processed as int, total_items as int)),
            ] + chunk_events(total_items as int, processed as int));
            assert(events_view(events@) + chunk_events(total_items as int, processed as int)
                =~= events_view(old(events)@) + chunk_events(total_items as int, 0));
        }
    }
    proof {
        assert(seq_view(numbers@).subrange(0, total_items as int) =~= seq_view(numbers@));
        assert(chunk_events(total_items as int, total_items as int) =~= Seq::<TaskEvent>::empty());
        assert(events_view(events@) =~= events_view(events@) + Seq::<TaskEvent>::empty());
    }
    filtered
}

/// Runs one plan to completion: validates it, materializes the raw
/// buffer behind progress events, filters it in parallel chunks, and
/// closes the stream with the single terminal result event.
#[verifier::loop_isolation(false)]
#[verifier::rlimit(60)]
pub fn calculate_fibo_task(builder: FiboBuilder) -> (events: Vec<FiboTaskResult>)
    ensures
        events_view(events@) == task_events(
            builder.seed_view(),
            builder.range_view(),
            builder.preds(),
        ),
{
    let mut events: Vec<FiboTaskResult> = Vec::new();
    if builder.is_none_filter() {
        let empty_values: Vec<BigInt> = Vec::new();
        events.push(FiboTaskResult::Result(empty_values));
        proof {
            assert(seq_view(Seq::<BigInt>::empty()) =~= Seq::<int>::empty());
            assert(events_view(events@) =~= seq![TaskEvent::Done(Seq::<int>::empty())]);
        }
        return events;
    }
    let start_nums_opt = builder.get_start_nums();
    let range_opt = builder.get_range_by_id();
    let (start_nums, start, end) = match (start_nums_opt, range_opt) {
        (Some(pair), Some((s, e))) if s <= e => (pair, s, e),
        _ => {
            let empty_values: Vec<BigInt> = Vec::new();
            events.push(FiboTaskResult::Result(empty_values));
            proof {
                assert(seq_view(Seq::<BigInt>::empty()) =~= Seq::<int>::empty());
                assert(events_view(events@) =~= seq![TaskEvent::Done(Seq::<int>::empty())]);
            }
            return events;
        },
    };
    let total_items = end - start;
    if total_items == 0 {
        let empty_values: Vec<BigInt> = Vec::new();
        events.push(FiboTaskResult::Result(empty_values));
        proof {
            assert(seq_view(Seq::<BigInt>::empty()) =~= Seq::<int>::empty());
            assert(events_view(events@) =~= seq![TaskEvent::Done(Seq::<int>::empty())]);
        }
        return events;
    }
    let ghost a = big_view(start_nums.0);
    let ghost b = big_view(start_nums.1);
    let ghost n_seeds = seed_count(start as int, end as int);
    let mut result: Vec<BigInt> = Vec::new();
    let mut processed: usize = 0;

    if start == 0 {
        result.push(start_nums.0.clone());
        processed = processed + 1;
        send_progress(&mut events, processed, total_items);
    }
    if start <= 1 && end > 1 {
        result.push(start_nums.1.clone());
        processed = processed + 1;
        send_progress(&mut events, processed, total_items);
    }
    proof {
        reveal_with_fuel(gen_events, 3);
        assert(seq_view(result@) =~= seed_values(a, b, start as int, end as int));
        assert(processed == n_seeds);
        assert(events_view(events@) =~= gen_events(
            n_seeds,
            total_items as int,
            processed as int,
        ));
    }

    if end > 2 {
        let mut generator = LinealFibo::new(Some(start_nums));
        let skip_count = if start > 2 {
            start - 2
        } else {
            0
        };
        let take_count = end - 2;
        let mut i: usize = 0;
        while i < skip_count
            invariant
                i <= skip_count,
                generator.wf(),
                forall|k: int|
                    0 <= k ==> generator.stream_at(k) == fib_term(a, b, k + 2 + i),
            decreases skip_count - i,
        {
            let _skipped = generator.next_value();
            i = i + 1;
        }
        let mut j: usize = 0;
        while j < take_count
            invariant
                j <= take_count,
                generator.wf(),
                forall|k: int|
                    0 <= k ==> generator.stream_at(k) == fib_term(
                        a,
                        b,
                        k + 2 + skip_count_spec(start as int) + j,
                    ),
                processed == n_seeds + j,
                seq_view(result@) == seed_values(a, b, start as int, end as int) + Seq::new(
                    j as nat,
                    |jj: int| gen_value(a, b, start as int, jj),
                ),
                events_view(events@) == gen_events(n_seeds, total_items as int, processed as int),
            decreases take_count - j,
        {
            let num = generator.next_value();
            result.push(num);
            processed = processed + 1;
            if processed % 10 == 0 || processed == total_items {
                send_progress(&mut events, processed, total_items);
            }
            j = j + 1;
            proof {
                assert(seq_view(result@) =~= seed_values(a, b, start as int, end as int)
                    + Seq::new(j as nat, |jj: int| gen_value(a, b, start as int, jj)));
                assert(gen_events(n_seeds, total_items as int, processed as int) == gen_events(
                    n_seeds,
                    total_items as int,
                    processed as int - 1,
                ) + (if emits_progress_at(processed as int, n_seeds, total_items as int) {
                    seq![
                        TaskEvent::Progress(progress_pct(processed as int, total_items as int)),
                    ]
                } else {
                    Seq::<TaskEvent>::empty()
                }));
                if !emits_progress_at(processed as int, n_seeds, total_items as int) {
                    assert(events_view(events@) =~= events_view(events@)
                        + Seq::<TaskEvent>::empty());
                }
                assert(events_view(events@) =~= gen_events(
                    n_seeds,
                    total_items as int,
                    processed as int,
                ));
            }
        }
    }
    proof {
        assert(seq_view(result@) =~= raw_values(a, b, start as int, end as int));
    }

    let filters = builder.get_filters();
    let filtered_result = apply_filters_with_progress(&mut events, result, filters);
    events.push(FiboTaskResult::Result(filtered_result));
    proof {
        assert(events_view(events@) =~= task_events(
            builder.seed_view(),
            builder.range_view(),
            builder.preds(),
        ));
    }
    events
}

} // verus!
