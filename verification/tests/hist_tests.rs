use xtract::hist::build_histogram;

#[test]
fn counts_sum_to_value_count() {
    let vals: Vec<i64> = (1..=20).collect();
    let h = build_histogram(&vals, 10);
    assert_eq!(h.bins.len(), 10);
    assert_eq!(h.counts.len(), 10);
    let total: usize = h.counts.iter().sum();
    assert_eq!(total, 20);
}

#[test]
fn extremes_fall_into_first_and_last_bucket() {
    let vals: Vec<i64> = vec![0, 10];
    let h = build_histogram(&vals, 10);
    assert_eq!(h.counts[0], 1);
    assert_eq!(h.counts[9], 1);
    for k in 1..9 {
        assert_eq!(h.counts[k], 0);
    }
}

#[test]
fn boundary_ties_resolve_to_lower_bucket() {
    // range 0..10 in ten buckets: 5 sits on the boundary between bucket
    // four and bucket five, and must land in the lower one
    let vals: Vec<i64> = vec![0, 5, 10];
    let h = build_histogram(&vals, 10);
    assert_eq!(h.counts[4], 1);
    assert_eq!(h.counts[5], 0);
}

#[test]
fn constant_column_all_in_first_bucket() {
    let vals: Vec<i64> = vec![7, 7, 7];
    let h = build_histogram(&vals, 10);
    assert_eq!(h.counts[0], 3);
    let total: usize = h.counts.iter().sum();
    assert_eq!(total, 3);
}

#[test]
fn bucket_starts_are_exact_fractions() {
    // min 1, max 20: bucket k starts at 1 + k * 19 / 10,
    // carried as (10 * 1 + k * 19) / 10
    let vals: Vec<i64> = (1..=20).collect();
    let h = build_histogram(&vals, 10);
    for k in 0..10 {
        assert_eq!(h.bins[k].num, 10 + (k as i128) * 19);
        assert_eq!(h.bins[k].den, 10);
    }
}

#[test]
fn negative_range() {
    let vals: Vec<i64> = vec![-10, -1, -10, -5];
    let h = build_histogram(&vals, 10);
    let total: usize = h.counts.iter().sum();
    assert_eq!(total, 4);
    assert_eq!(h.bins[0].num, -100);
    assert_eq!(h.bins[0].den, 10);
    // the two least values share the first bucket
    assert_eq!(h.counts[0], 2);
    // the greatest value lands in the last bucket
    assert_eq!(h.counts[9], 1);
}
