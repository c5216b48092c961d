use symbol_stats::aggregate::Aggregate;
use symbol_stats::truncation::truncated_divisor;
use symbol_stats::value::{is_nan_bits, max_of, min_of, order_key_of, NEG_INFINITY, POS_INFINITY};

#[test]
fn divisor_is_power_of_ten_or_count() {
    assert_eq!(truncated_divisor(0, 5), 1);
    assert_eq!(truncated_divisor(1, 150), 10);
    assert_eq!(truncated_divisor(2, 150), 100);
    assert_eq!(truncated_divisor(3, 150), 150);
    assert_eq!(truncated_divisor(1, 10), 10);
    assert_eq!(truncated_divisor(4, 0), 0);
}

#[test]
fn divisor_does_not_overflow() {
    assert_eq!(truncated_divisor(20, usize::MAX), usize::MAX);
    assert_eq!(truncated_divisor(u32::MAX, 7), 7);
    assert_eq!(truncated_divisor(19, usize::MAX), 10_000_000_000_000_000_000);
}

#[test]
fn min_and_max_skip_nan() {
    let nan = f64::NAN.to_bits();
    let two = 2.0f64.to_bits();
    assert_eq!(min_of(nan, two), two);
    assert_eq!(min_of(two, nan), two);
    assert_eq!(max_of(nan, two), two);
    assert_eq!(max_of(two, nan), two);
    assert!(is_nan_bits(nan));
    assert!(is_nan_bits((-f64::NAN).to_bits()));
    assert!(!is_nan_bits(POS_INFINITY));
    assert!(!is_nan_bits(NEG_INFINITY));
}

#[test]
fn min_and_max_follow_number_order() {
    let neg = (-3.5f64).to_bits();
    let pos = 0.25f64.to_bits();
    let big_neg = (-1e10f64).to_bits();
    assert_eq!(min_of(neg, pos), neg);
    assert_eq!(min_of(pos, neg), neg);
    assert_eq!(max_of(neg, pos), pos);
    assert_eq!(min_of(neg, big_neg), big_neg);
    assert_eq!(max_of(neg, big_neg), neg);
    assert_eq!(min_of(POS_INFINITY, pos), pos);
    assert_eq!(max_of(NEG_INFINITY, neg), neg);
    assert_eq!(min_of(0.0f64.to_bits(), (-0.0f64).to_bits()), (-0.0f64).to_bits());
    assert!(order_key_of(big_neg) < order_key_of(neg));
    assert!(order_key_of(neg) < order_key_of(pos));
}

#[test]
fn aggregate_folds_each_value() {
    let mut a = Aggregate::new();
    assert_eq!(a.min(), f64::INFINITY.to_bits());
    assert_eq!(a.max(), f64::NEG_INFINITY.to_bits());
    assert_eq!(a.last(), 0.0f64.to_bits());
    assert_eq!(a.count(), 0);
    for v in [4.0f64, -1.0, 8.0, 2.0] {
        a.update(v.to_bits());
    }
    assert_eq!(a.min(), (-1.0f64).to_bits());
    assert_eq!(a.max(), 8.0f64.to_bits());
    assert_eq!(a.last(), 2.0f64.to_bits());
    assert_eq!(a.count(), 4);
}
