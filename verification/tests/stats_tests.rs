use xtract::error::ProfileError;
use xtract::stats::{
    get_numeric_features, get_string_features, isqrt_u128, max_value, min_value, sum_values,
};

#[test]
fn numeric_features_exact() {
    let vals: Vec<i64> = vec![1, 2, 3, 4];
    let f = get_numeric_features(&vals).unwrap();
    assert_eq!(f.min, 1);
    assert_eq!(f.max, 4);
    assert_eq!(f.mean.num, 10);
    assert_eq!(f.mean.den, 4);
    // population variance = (n * sum_sq - sum^2) / n^2 = (4*30 - 100) / 16
    assert_eq!(f.variance.num, 20);
    assert_eq!(f.variance.den, 16);
    // std = isqrt(20) / 4
    assert_eq!(f.std.num, 4);
    assert_eq!(f.std.den, 4);
    assert!(f.hist.is_none());
}

#[test]
fn min_le_mean_le_max_cross_multiplied() {
    let vals: Vec<i64> = vec![-7, 3, 12, 0, 5];
    let f = get_numeric_features(&vals).unwrap();
    let n = f.mean.den as i128;
    assert!((f.min as i128) * n <= f.mean.num);
    assert!(f.mean.num <= (f.max as i128) * n);
}

#[test]
fn std_squared_brackets_variance_numerator() {
    let vals: Vec<i64> = vec![2, 9, 4, 4, 11, -3];
    let f = get_numeric_features(&vals).unwrap();
    let s = f.std.num;
    assert!(s >= 0);
    assert!(s * s <= f.variance.num);
    assert!(f.variance.num < (s + 1) * (s + 1));
}

#[test]
fn constant_column_zero_variance() {
    let vals: Vec<i64> = vec![5, 5, 5];
    let f = get_numeric_features(&vals).unwrap();
    assert_eq!(f.min, 5);
    assert_eq!(f.max, 5);
    assert_eq!(f.variance.num, 0);
    assert_eq!(f.std.num, 0);
}

#[test]
fn empty_numeric_column_fails() {
    let vals: Vec<i64> = vec![];
    assert_eq!(get_numeric_features(&vals).unwrap_err(), ProfileError::EmptyColumn);
}

#[test]
fn extremes_and_sum() {
    let vals: Vec<i64> = vec![i64::MAX, i64::MIN, 0];
    assert_eq!(min_value(&vals), i64::MIN);
    assert_eq!(max_value(&vals), i64::MAX);
    assert_eq!(sum_values(&vals), (i64::MAX as i128) + (i64::MIN as i128));
}

#[test]
fn isqrt_values() {
    assert_eq!(isqrt_u128(0), 0);
    assert_eq!(isqrt_u128(1), 1);
    assert_eq!(isqrt_u128(3), 1);
    assert_eq!(isqrt_u128(4), 2);
    assert_eq!(isqrt_u128(24), 4);
    assert_eq!(isqrt_u128(25), 5);
    assert_eq!(isqrt_u128(u128::MAX), (1u128 << 64) - 1);
}

#[test]
fn string_features_exact() {
    let vals: Vec<String> = vec!["Hello".to_string(), "WORLD".to_string(), "abc".to_string()];
    let f = get_string_features(&vals).unwrap();
    assert_eq!(f.min_len, 3);
    assert_eq!(f.max_len, 5);
    assert_eq!(f.avg_len.num, 13);
    assert_eq!(f.avg_len.den, 3);
    assert_eq!(f.n_capitalized, 1);
    assert_eq!(f.n_uppercase, 1);
    assert_eq!(f.n_lowercase, 1);
}

#[test]
fn string_features_case_rules() {
    // a single upper-case letter is both capitalized and fully upper-case
    let vals: Vec<String> = vec!["A".to_string()];
    let f = get_string_features(&vals).unwrap();
    assert_eq!(f.n_capitalized, 1);
    assert_eq!(f.n_uppercase, 1);
    assert_eq!(f.n_lowercase, 0);
    // digits and mixed case count for none of the three
    let vals2: Vec<String> = vec!["a1".to_string(), "aB".to_string()];
    let f2 = get_string_features(&vals2).unwrap();
    assert_eq!(f2.n_capitalized, 0);
    assert_eq!(f2.n_uppercase, 0);
    assert_eq!(f2.n_lowercase, 0);
}

#[test]
fn empty_string_column_fails() {
    let vals: Vec<String> = vec![];
    assert_eq!(get_string_features(&vals).unwrap_err(), ProfileError::EmptyColumn);
}
