use fibo_calc::FiboBuilder;
use fibo_calc::FiboCalc;
use fibo_calc::FiboTaskResult;
use fibo_calc::Filter;
use fibo_calc::FilterState;
use fibo_calc::FilterType;
use fibo_calc::InputFields;
use fibo_calc::InputMode;
use fibo_calc::Predicate;
use fibo_calc::task::calculate_fibo_task;
use fibo_calc::task::calculate_fibonacci_task;
use num_bigint::BigInt;

#[test]
fn test_builder_accessors() {
    let mut builder = FiboBuilder::default();
    assert!(builder.is_none_filter());
    assert!(builder.get_range_by_id().is_none());
    assert!(builder.get_start_nums().is_none());
    assert!(builder.get_filters().is_empty());

    builder
        .set_start_nums(Some((BigInt::from(2), BigInt::from(3))))
        .set_range_by_id(Some((1, 9)))
        .add_filter(Predicate::Even);

    assert!(!builder.is_none_filter());
    assert_eq!(builder.get_range_by_id(), Some((1, 9)));
    assert_eq!(
        builder.get_start_nums(),
        Some((BigInt::from(2), BigInt::from(3)))
    );
    assert_eq!(builder.get_filters().len(), 1);
}

#[test]
fn test_calc_one_number() {
    let calc = FiboCalc::new(FiboBuilder::default());
    assert_eq!(calc.calc_one_number(BigInt::from(10)), BigInt::from(34));

    let mut builder = FiboBuilder::default();
    builder.set_start_nums(Some((BigInt::from(0), BigInt::from(1))));
    let calc = FiboCalc::new(builder);
    assert_eq!(calc.calc_one_number(BigInt::from(10)), BigInt::from(34));

    let mut builder = FiboBuilder::default();
    builder.set_start_nums(Some((BigInt::from(2), BigInt::from(3))));
    let calc = FiboCalc::new(builder);
    // terms from (2, 3): 2, 3, 5, 8, 13, ...; the direct path at 5
    // answers the term of index 4.
    assert_eq!(calc.calc_one_number(BigInt::from(5)), BigInt::from(13));
}

#[test]
fn test_predicate_variants() {
    let ge = Predicate::Ge(BigInt::from(5));
    assert!(ge.matches_value(&BigInt::from(5)));
    assert!(ge.matches_value(&BigInt::from(6)));
    assert!(!ge.matches_value(&BigInt::from(4)));

    let le = Predicate::Le(BigInt::from(5));
    assert!(le.matches_value(&BigInt::from(5)));
    assert!(le.matches_value(&BigInt::from(4)));
    assert!(!le.matches_value(&BigInt::from(6)));

    let even = Predicate::Even;
    assert!(even.matches_value(&BigInt::from(0)));
    assert!(even.matches_value(&BigInt::from(-4)));
    assert!(!even.matches_value(&BigInt::from(3)));
    assert!(!even.matches_value(&BigInt::from(-7)));
}

#[test]
fn test_filter_to_predicate() {
    let filter = Filter { filter_type: FilterType::Ge, value: BigInt::from(7) };
    let p = filter.to_predicate();
    assert!(p.matches_value(&BigInt::from(7)));
    assert!(!p.matches_value(&BigInt::from(6)));

    let filter = Filter { filter_type: FilterType::Le, value: BigInt::from(7) };
    let p = filter.to_predicate();
    assert!(p.matches_value(&BigInt::from(7)));
    assert!(!p.matches_value(&BigInt::from(8)));
}

#[test]
fn test_filter_state_default() {
    let state = FilterState::default();
    assert!(state.filters.is_empty());
    assert!(matches!(state.filter_type, FilterType::Ge));
}

#[test]
fn test_input_defaults() {
    let fields = InputFields::default();
    assert_eq!(fields.start1, "0");
    assert_eq!(fields.start2, "1");
    assert_eq!(fields.range_start, "0");
    assert_eq!(fields.range_end, "20");
    assert_eq!(fields.filter_value, "10");
    assert!(InputMode::Normal == InputMode::Normal);
    assert!(InputMode::Start1 != InputMode::FilterValue);
}

#[test]
fn test_calculate_fibonacci_task_values() {
    let mut builder = FiboBuilder::default();
    builder.set_range_by_id(Some((0, 12)));
    builder.set_start_nums(Some((BigInt::from(0), BigInt::from(1))));
    let values = calculate_fibonacci_task(builder);
    let expected: Vec<BigInt> =
        vec![0, 1, 1, 2, 3, 5, 8, 13, 21, 34, 55, 89].into_iter().map(Into::into).collect();
    assert_eq!(values, expected);

    let mut builder = FiboBuilder::default();
    builder.set_range_by_id(Some((0, 12)));
    builder.set_start_nums(Some((BigInt::from(0), BigInt::from(1))));
    builder.add_filter(Predicate::Even);
    let values = calculate_fibonacci_task(builder);
    let expected: Vec<BigInt> = vec![0, 2, 8, 34].into_iter().map(Into::into).collect();
    assert_eq!(values, expected);
}

fn make_plan() -> FiboBuilder {
    let mut builder = FiboBuilder::default();
    builder.set_range_by_id(Some((0, 30)));
    builder.set_start_nums(Some((BigInt::from(3), BigInt::from(4))));
    builder.add_filter(Predicate::Ge(BigInt::from(10)));
    builder
}

#[test]
fn test_task_idempotent() {
    let first = calculate_fibo_task(make_plan());
    let second = calculate_fibo_task(make_plan());
    assert_eq!(first.len(), second.len());
    for (a, b) in first.iter().zip(second.iter()) {
        match (a, b) {
            (FiboTaskResult::Calculation(p1), FiboTaskResult::Calculation(p2)) => {
                assert_eq!(p1, p2);
            }
            (FiboTaskResult::Result(v1), FiboTaskResult::Result(v2)) => assert_eq!(v1, v2),
            _ => panic!("event streams of identical plans diverged"),
        }
    }
}

#[test]
fn test_chunked_filter_preserves_order() {
    // Enough items for three parallel chunks.
    let total: usize = 2500;
    let mut builder = FiboBuilder::default();
    builder.set_range_by_id(Some((0, total)));
    builder.set_start_nums(Some((BigInt::from(0), BigInt::from(1))));
    let raw = calculate_fibonacci_task(builder);
    assert_eq!(raw.len(), total);

    let mut builder = FiboBuilder::default();
    builder.set_range_by_id(Some((0, total)));
    builder.set_start_nums(Some((BigInt::from(0), BigInt::from(1))));
    builder.add_filter(Predicate::Even);
    let filtered = calculate_fibonacci_task(builder);

    let expected: Vec<BigInt> =
        raw.iter().filter(|v| (*v % BigInt::from(2)) == BigInt::from(0)).cloned().collect();
    assert_eq!(filtered, expected);
}
