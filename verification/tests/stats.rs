use montecore::{SampleCounts, Tensor};

#[test]
fn counts_respect_validity_mask() {
    let mut c = SampleCounts::new(2);

    c.record(&[true, false]);

    assert_eq!(c.count(), 1);
    assert_eq!(c.valid_count(0), 1);
    assert_eq!(c.valid_count(1), 0);
    assert_eq!(c.pair_valid_count(0, 0), 1);
    assert_eq!(c.pair_valid_count(0, 1), 0);
    assert_eq!(c.pair_valid_count(1, 1), 0);
}

#[test]
fn new_counts_are_empty() {
    let c = SampleCounts::new(3);
    assert_eq!(c.count(), 0);
    assert_eq!(c.dim(), 3);
    for i in 0..3 {
        assert_eq!(c.valid_count(i), 0);
    }
    assert_eq!(c.covariance_divisor(0, 0), None);
}

fn counts_of(rows: &[[bool; 2]]) -> SampleCounts {
    let mut c = SampleCounts::new(2);
    for r in rows {
        c.record(r);
    }
    c
}

fn snapshot(c: &SampleCounts) -> (usize, Vec<usize>, Vec<usize>) {
    let dim = c.dim();
    let counts = (0..dim).map(|i| c.valid_count(i)).collect();
    let pairs = (0..dim).flat_map(|i| (0..dim).map(move |j| (i, j))).map(|(i, j)| c.pair_valid_count(i, j)).collect();
    (c.count(), counts, pairs)
}

#[test]
fn merge_sums_counts() {
    let mut a = counts_of(&[[true, true], [true, false]]);
    let b = counts_of(&[[false, true]]);

    a.merge(&b);

    assert_eq!(snapshot(&a), (3, vec![2, 2], vec![2, 1, 1, 2]));
}

#[test]
fn merge_is_commutative_on_counts() {
    let a = counts_of(&[[true, true], [true, false], [false, false]]);
    let b = counts_of(&[[false, true], [true, true]]);

    let mut ab = a.clone();
    ab.merge(&b);
    let mut ba = b.clone();
    ba.merge(&a);

    assert_eq!(snapshot(&ab), snapshot(&ba));
}

#[test]
fn merge_is_associative_on_counts() {
    let a = counts_of(&[[true, true]]);
    let b = counts_of(&[[false, true], [true, false]]);
    let c = counts_of(&[[false, false], [true, true], [true, true]]);

    let mut left = a.clone();
    left.merge(&b);
    left.merge(&c);

    let mut bc = b.clone();
    bc.merge(&c);
    let mut right = a.clone();
    right.merge(&bc);

    assert_eq!(snapshot(&left), snapshot(&right));
}

#[test]
fn merging_into_empty_adopts_the_other() {
    let b = counts_of(&[[false, true], [true, true]]);
    let mut empty = SampleCounts::new(2);
    empty.merge(&b);
    assert_eq!(snapshot(&empty), snapshot(&b));

    let mut b2 = b.clone();
    b2.merge(&SampleCounts::new(2));
    assert_eq!(snapshot(&b2), snapshot(&b));
}

#[test]
fn record_equals_merge_of_one_sample() {
    let mut recorded = counts_of(&[[true, false], [true, true]]);
    recorded.record(&[false, true]);

    let mut merged = counts_of(&[[true, false], [true, true]]);
    merged.merge(&counts_of(&[[false, true]]));

    assert_eq!(snapshot(&recorded), snapshot(&merged));
}

#[test]
fn batch_records_rows_in_order() {
    let flags = Tensor::from_shape_vec(vec![3, 2], vec![true, true, true, false, false, false]).unwrap();
    let mut c = SampleCounts::new(2);
    c.record_batch(&flags);

    assert_eq!(snapshot(&c), (3, vec![2, 1], vec![2, 1, 1, 1]));
    assert_eq!(c.covariance_divisor(0, 0), Some(1));
    assert_eq!(c.covariance_divisor(0, 1), None);
    assert_eq!(c.covariance_divisor(1, 1), None);
}

#[test]
fn batch_recording_equals_merging_the_batch() {
    let flags = Tensor::from_shape_vec(vec![3, 2], vec![true, false, true, true, false, true]).unwrap();

    let mut one_by_one = counts_of(&[[true, true], [false, false]]);
    one_by_one.record_batch(&flags);

    let mut batch = SampleCounts::new(2);
    batch.record_batch(&flags);
    let mut merged = counts_of(&[[true, true], [false, false]]);
    merged.merge(&batch);

    assert_eq!(snapshot(&one_by_one), snapshot(&merged));
    assert_eq!(snapshot(&one_by_one), (5, vec![3, 3], vec![3, 2, 2, 3]));
}

#[test]
fn invalid_samples_do_not_count_in_the_covariance_divisor() {
    // Samples {1.0, 3.0, 100.0 (invalid)}: the variance is that of {1.0, 3.0},
    // whose divisor is 2 - 1 = 1.
    let mut c = SampleCounts::new(1);
    c.record(&[true]);
    c.record(&[true]);
    c.record(&[false]);

    assert_eq!(c.count(), 3);
    assert_eq!(c.valid_count(0), 2);
    assert_eq!(c.covariance_divisor(0, 0), Some(1));

    let deviations = [1.0f64 - 2.0, 3.0 - 2.0];
    let m2: f64 = deviations.iter().map(|d| d * d).sum();
    assert_eq!(m2 / c.covariance_divisor(0, 0).unwrap() as f64, 2.0);
}
