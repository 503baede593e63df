use fibo_calc::FiboBuilder;
use fibo_calc::FiboTaskResult;
use fibo_calc::Predicate;
use fibo_calc::task::apply_filters_with_progress;
use fibo_calc::task::calculate_fibo_task;
use fibo_calc::task::send_progress;
use num_bigint::BigInt;

fn drain(events: Vec<FiboTaskResult>) -> (Vec<u8>, Option<Vec<BigInt>>) {
    let mut progresses = Vec::new();
    let mut result = None;
    for msg in events {
        match msg {
            FiboTaskResult::Calculation(p) => progresses.push(p),
            FiboTaskResult::Result(res) => {
                result = Some(res);
                break;
            }
        }
    }
    (progresses, result)
}

#[test]
fn test_none_filter() {
    let builder = FiboBuilder::default();
    let events = calculate_fibo_task(builder);
    assert_eq!(events.len(), 1);
    assert!(matches!(events[0], FiboTaskResult::Result(ref v) if v.is_empty()));
}

#[test]
fn test_invalid_range() {
    let mut builder = FiboBuilder::default();
    builder.set_range_by_id(Some((5, 3))); // start > end
    builder.set_start_nums(Some((0.into(), 1.into())));
    let events = calculate_fibo_task(builder);
    assert_eq!(events.len(), 1);
    assert!(matches!(events[0], FiboTaskResult::Result(ref v) if v.is_empty()));
}

#[test]
fn test_zero_items() {
    let mut builder = FiboBuilder::default();
    builder.set_range_by_id(Some((2, 2))); // empty range
    builder.set_start_nums(Some((0.into(), 1.into())));
    let events = calculate_fibo_task(builder);
    assert_eq!(events.len(), 1);
    assert!(matches!(events[0], FiboTaskResult::Result(ref v) if v.is_empty()));
}

#[test]
fn test_small_ranges() {
    let cases: Vec<((usize, usize), (i32, i32), Vec<u8>, Vec<i32>)> = vec![
        ((0, 1), (0, 1), vec![100], vec![0]),
        ((0, 2), (0, 1), vec![50, 100], vec![0, 1]),
        ((1, 2), (0, 1), vec![100], vec![1]),
    ];
    for (range, start, expected_progress, expected_result) in cases {
        let mut builder = FiboBuilder::default();
        builder.set_range_by_id(Some(range));
        builder.set_start_nums(Some((start.0.into(), start.1.into())));
        let events = calculate_fibo_task(builder);

        let mut progresses: Vec<u8> = vec![];
        let mut result = None;
        for msg in events {
            match msg {
                FiboTaskResult::Calculation(p) => {
                    // Only add progress if it's not a duplicate 100%
                    if progresses.last() != Some(&100) || p != 100 {
                        progresses.push(p);
                    }
                }
                FiboTaskResult::Result(res_vec) => {
                    result = Some(res_vec);
                    break;
                }
            }
        }

        let expected: Vec<BigInt> = expected_result.into_iter().map(Into::into).collect();
        assert_eq!(result.unwrap(), expected);
        assert_eq!(progresses, expected_progress);
    }
}

#[test]
fn test_range_with_progress_and_filter() {
    let mut builder = FiboBuilder::default();
    builder.set_range_by_id(Some((0, 12)));
    builder.set_start_nums(Some((0.into(), 1.into())));
    builder.add_filter(Predicate::Even);
    let events = calculate_fibo_task(builder);

    let (progress, result) = drain(events);

    assert!(!progress.is_empty(), "No progress updates received");
    assert_eq!(progress.last(), Some(&100), "Last progress should be 100%");

    let res = result.expect("No result received");
    let expected: Vec<BigInt> = vec![0, 2, 8, 34].into_iter().map(Into::into).collect();
    assert_eq!(res, expected);
}

#[test]
fn test_apply_filters_with_progress_empty() {
    let mut events: Vec<FiboTaskResult> = Vec::new();
    let numbers: Vec<BigInt> = vec![];
    let filters: Vec<Predicate> = vec![];
    let res = apply_filters_with_progress(&mut events, numbers.clone(), &filters);
    assert_eq!(res, numbers);
    // No progress message expected
    assert!(events.is_empty());
}

#[test]
fn test_apply_filters_with_progress_no_filters() {
    let mut events: Vec<FiboTaskResult> = Vec::new();
    let numbers: Vec<BigInt> = vec![1.into(), 2.into(), 3.into()];
    let filters: Vec<Predicate> = vec![];
    let res = apply_filters_with_progress(&mut events, numbers.clone(), &filters);
    assert_eq!(res, numbers);
    // Should send 100% progress
    assert_eq!(events.len(), 1);
    assert!(matches!(events[0], FiboTaskResult::Calculation(100)));
}

#[test]
fn test_apply_filters_with_progress_with_filters() {
    let mut events: Vec<FiboTaskResult> = Vec::new();
    let numbers: Vec<BigInt> = (0..10).map(Into::into).collect();
    let filters: Vec<Predicate> = vec![Predicate::Even];
    let res = apply_filters_with_progress(&mut events, numbers.clone(), &filters);
    let expected: Vec<BigInt> = (0..10).filter(|n| n % 2 == 0).map(Into::into).collect();
    assert_eq!(res, expected);
    // Should send progress at least once
    assert!(!events.is_empty());
    assert!(matches!(events[0], FiboTaskResult::Calculation(_)));
}

#[test]
fn test_send_progress_clamps() {
    let mut events: Vec<FiboTaskResult> = Vec::new();
    // processed > total_items
    send_progress(&mut events, 15, 10);
    assert!(matches!(events[0], FiboTaskResult::Calculation(100)));
    // processed == 0 reports 0
    send_progress(&mut events, 0, 10);
    assert!(matches!(events[1], FiboTaskResult::Calculation(0)));
}

#[test]
fn test_progress_sequence_exact() {
    // Twelve items: one event per seed, one at the tenth item, one at
    // the total, and one per filtering chunk.
    let mut builder = FiboBuilder::default();
    builder.set_range_by_id(Some((0, 12)));
    builder.set_start_nums(Some((0.into(), 1.into())));
    builder.add_filter(Predicate::Even);
    let events = calculate_fibo_task(builder);
    let (progress, result) = drain(events);
    assert_eq!(progress, vec![8, 16, 83, 100, 100]);
    assert!(result.is_some());
}

#[test]
fn test_window_starting_past_two() {
    // With start > 2 the generator skips start - 2 produced terms and
    // then takes end - 2 of them, so the buffer runs past the window
    // and the processed count passes the total; the reported
    // percentage stays clamped at 100.
    let mut builder = FiboBuilder::default();
    builder.set_range_by_id(Some((5, 9)));
    builder.set_start_nums(Some((0.into(), 1.into())));
    let events = calculate_fibo_task(builder);
    let (progress, result) = drain(events);
    assert_eq!(progress, vec![100, 100]);
    let expected: Vec<BigInt> =
        vec![5, 8, 13, 21, 34, 55, 89].into_iter().map(Into::into).collect();
    assert_eq!(result.unwrap(), expected);
}

#[test]
fn test_progress_in_range() {
    let mut builder = FiboBuilder::default();
    builder.set_range_by_id(Some((0, 57)));
    builder.set_start_nums(Some((0.into(), 1.into())));
    builder.add_filter(Predicate::Even);
    let events = calculate_fibo_task(builder);
    let count = events.len();
    for (i, msg) in events.into_iter().enumerate() {
        match msg {
            FiboTaskResult::Calculation(p) => {
                assert!(p <= 100);
                assert!(i < count - 1);
            }
            FiboTaskResult::Result(_) => assert_eq!(i, count - 1),
        }
    }
}
