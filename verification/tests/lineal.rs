use fibo_calc::ImplementationFibo;
use fibo_calc::implementation::lineal::LinealFibo;
use num_bigint::BigInt;

#[test]
fn test_default_values() {
    let fibo = LinealFibo::default();
    assert_eq!(fibo.pre_last, BigInt::from(-1));
    assert_eq!(fibo.last, BigInt::from(1));
}

#[test]
fn test_default_builder_in_new_method() {
    let fibo = LinealFibo::new(None);
    assert_eq!(fibo.pre_last, BigInt::from(-1));
    assert_eq!(fibo.last, BigInt::from(1));
}

#[test]
fn test_new_with_start_nums() {
    let cases: Vec<(i32, i32, i32)> = vec![(0, 1, 1), (2, 3, 5), (-5, 8, 3)];
    for (start1, start2, expected_next) in cases {
        let mut fibo = LinealFibo::new(Some((BigInt::from(start1), BigInt::from(start2))));
        assert_eq!(fibo.pre_last, BigInt::from(start1));
        assert_eq!(fibo.last, BigInt::from(start2));
        let next = fibo.next_value();
        assert_eq!(next, BigInt::from(expected_next));
    }
}

#[test]
fn test_sequence() {
    let mut fibo = LinealFibo::new(Some((BigInt::from(0), BigInt::from(1))));
    let expected = vec![1, 2, 3, 5, 8, 13, 21, 34, 55, 89];
    for val in expected {
        assert_eq!(fibo.next_value(), BigInt::from(val));
    }
}

#[test]
fn test_iterator_trait() {
    let mut fibo = LinealFibo::default();
    let mut vals: Vec<BigInt> = Vec::new();
    for _ in 0..5 {
        vals.push(fibo.next_value());
    }
    let expected = vec![
        BigInt::from(0),
        BigInt::from(1),
        BigInt::from(1),
        BigInt::from(2),
        BigInt::from(3),
    ];
    assert_eq!(vals, expected);
}
