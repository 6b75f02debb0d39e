use montecore::{EvalResult, Operator, OperatorError, Tensor};

fn matrix<T>(rows: usize, cols: usize, data: Vec<T>) -> Tensor<T> {
    Tensor::from_shape_vec(vec![rows, cols], data).unwrap()
}

#[test]
fn eval_result_rejects_mismatched_shapes() {
    let value = matrix(3, 2, vec![0.0f64; 6]);
    let valid = matrix(3, 3, vec![true; 9]);

    assert!(EvalResult::try_from_parts(value, valid).is_err());
}

#[test]
fn eval_result_mismatch_reports_both_shapes() {
    let value = matrix(3, 2, vec![0.0f64; 6]);
    let valid = matrix(3, 3, vec![true; 9]);

    match EvalResult::try_from_parts(value, valid) {
        Err(OperatorError::ShapeMismatch { found, expected }) => {
            assert_eq!(expected, vec![3, 2]);
            assert_eq!(found, vec![3, 3]);
        }
        _ => panic!("expected a shape mismatch"),
    }
}

#[test]
fn eval_result_invalidates_nans() {
    let value = matrix(2, 2, vec![1., f64::NAN, 3., 4.]);
    let valid = matrix(2, 2, vec![true; 4]);

    let res = EvalResult::try_from_parts(value, valid);
    assert!(res.is_ok());

    let mut res = res.unwrap();

    let nan_mask: Vec<bool> = res.value().as_slice().iter().map(|x| x.is_nan()).collect();
    res.invalidate_where(&nan_mask);

    let (_v, m) = res.split();

    let expected = vec![true, false, true, true];

    assert_eq!(expected, m.as_slice().to_vec());
    assert_eq!(m.shape(), &[2, 2]);
}

#[test]
fn eval_result_invalidates_infinite() {
    let value = matrix(2, 2, vec![1., f64::INFINITY, 3., 4.]);
    let valid = matrix(2, 2, vec![true; 4]);

    let res = EvalResult::try_from_parts(value, valid);
    assert!(res.is_ok());

    let mut res = res.unwrap();

    let inf_mask: Vec<bool> = res.value().as_slice().iter().map(|x| x.is_infinite()).collect();
    res.invalidate_where(&inf_mask);

    let (_v, m) = res.split();

    let expected = vec![true, false, true, true];

    assert_eq!(expected, m.as_slice().to_vec());
}

#[test]
fn invalidation_never_revalidates() {
    let value = Tensor::from_vec(vec![1.0f64, 2.0, 3.0]);
    let valid = Tensor::from_vec(vec![false, true, true]);
    let mut res = EvalResult::try_from_parts(value, valid).unwrap();

    res.invalidate_where(&[false, false, true]);

    assert_eq!(res.valid().as_slice(), &[false, true, false]);
    assert_eq!(res.value().as_slice(), &[1.0, 2.0, 3.0]);
}

#[test]
fn all_valid_returns_true_when_all_valid() {
    let value = matrix(2, 2, vec![1., 2., 3., 4.]);
    let valid = matrix(2, 2, vec![true; 4]);

    let res = EvalResult::try_from_parts(value, valid);
    assert!(res.is_ok());

    let res = res.unwrap();

    assert!(res.all_valid());
}

#[test]
fn all_valid_returns_false_when_not_all_valid() {
    let value = matrix(2, 2, vec![1., 2., 3., 4.]);
    let valid = matrix(2, 2, vec![true, false, true, true]);

    let res = EvalResult::try_from_parts(value, valid);
    assert!(res.is_ok());

    let res = res.unwrap();

    assert!(!res.all_valid());
}

#[test]
fn eval_result_preserves_shapes() {
    let value = matrix(5, 2, vec![0.0f64; 10]);
    let valid = matrix(5, 2, vec![true; 10]);

    let res = EvalResult::try_from_parts(value, valid).unwrap();
    let (v, m) = res.split();

    assert_eq!(v.shape(), &[5, 2]);
    assert_eq!(m.shape(), &[5, 2]);
}

#[test]
fn eval_result_roundtrip_split() {
    let value = matrix(4, 2, vec![1.0f64; 8]);
    let valid = matrix(4, 2, vec![true; 8]);

    let res = EvalResult::try_from_parts(value, valid).unwrap();
    let (v1, v2) = res.split();

    assert_eq!(v1.shape(), &[4, 2]);
    assert_eq!(v1.as_slice(), &[1.0f64; 8]);
    assert_eq!(v2.shape(), &[4, 2]);
    assert_eq!(v2.as_slice(), &[true; 8]);
}

struct IdentityOp;

impl Operator<f64> for IdentityOp {
    fn dim_in(&self) -> usize {
        2
    }
    fn dim_out(&self) -> usize {
        2
    }

    fn apply(&self, x: &[f64]) -> Result<EvalResult<f64>, OperatorError> {
        let valid = Tensor::from_vec(vec![true; 2]);
        Ok(EvalResult::try_from_parts(Tensor::from_vec(x.to_vec()), valid).unwrap())
    }
}

#[test]
fn batch_matches_rowwise() {
    let op = IdentityOp;

    let inputs = matrix(3, 2, vec![1., 2., 3., 4., 5., 6.]);

    let batch = op.apply_batch(&inputs).unwrap();

    assert_eq!(batch.value().shape(), &[3, 2]);
    assert_eq!(batch.value().as_slice(), &[1., 2., 3., 4., 5., 6.]);
    assert!(batch.all_valid());
}

struct Reciprocal;

impl Operator<f64> for Reciprocal {
    fn dim_in(&self) -> usize {
        1
    }
    fn dim_out(&self) -> usize {
        1
    }

    fn apply(&self, x: &[f64]) -> Result<EvalResult<f64>, OperatorError> {
        if x[0] == 0.0 {
            return EvalResult::try_from_parts(Tensor::from_vec(vec![0.0]), Tensor::from_vec(vec![false]));
        }
        EvalResult::try_from_parts(Tensor::from_vec(vec![1.0 / x[0]]), Tensor::from_vec(vec![true]))
    }
}

#[test]
fn batch_keeps_validity_of_each_row() {
    let inputs = matrix(3, 1, vec![2.0, 0.0, 4.0]);

    let batch = Reciprocal.apply_batch(&inputs).unwrap();

    assert_eq!(batch.value().shape(), &[3, 1]);
    assert_eq!(batch.value().as_slice(), &[0.5, 0.0, 0.25]);
    assert_eq!(batch.valid().as_slice(), &[true, false, true]);
}

#[test]
fn batch_rejects_wrong_input_width() {
    let inputs = matrix(2, 3, vec![0.0; 6]);

    match IdentityOp.apply_batch(&inputs) {
        Err(OperatorError::InconsistentInputDim { found, expected }) => {
            assert_eq!(found, 3);
            assert_eq!(expected, 2);
        }
        _ => panic!("expected an input dimension error"),
    }
}

struct Overfull;

impl Operator<f64> for Overfull {
    fn dim_in(&self) -> usize {
        1
    }
    fn dim_out(&self) -> usize {
        1
    }

    fn apply(&self, x: &[f64]) -> Result<EvalResult<f64>, OperatorError> {
        EvalResult::try_from_parts(Tensor::from_vec(vec![x[0], x[0]]), Tensor::from_vec(vec![true, true]))
    }
}

#[test]
fn checked_apply_rejects_wrong_output_count() {
    match Overfull.apply_checked(&[1.0]) {
        Err(OperatorError::InconsistentOutputDim { found, expected }) => {
            assert_eq!(found, 2);
            assert_eq!(expected, 1);
        }
        _ => panic!("expected an output dimension error"),
    }
    assert!(Overfull.apply_batch(&matrix(1, 1, vec![1.0])).is_err());
}

#[test]
fn checked_apply_rejects_wrong_input_count() {
    match Reciprocal.apply_checked(&[1.0, 2.0]) {
        Err(OperatorError::InconsistentInputDim { found, expected }) => {
            assert_eq!(found, 2);
            assert_eq!(expected, 1);
        }
        _ => panic!("expected an input dimension error"),
    }
}

#[test]
fn stack_rows_reports_first_bad_row() {
    let ok = EvalResult::try_from_parts(Tensor::from_vec(vec![1.0f64]), Tensor::from_vec(vec![true])).unwrap();
    let bad = EvalResult::try_from_parts(Tensor::from_vec(vec![1.0f64, 2.0, 3.0]), Tensor::from_vec(vec![true; 3])).unwrap();
    match montecore::operator::stack_rows(vec![ok, bad], 1) {
        Err(OperatorError::InconsistentOutputDim { found, expected }) => {
            assert_eq!(found, 3);
            assert_eq!(expected, 1);
        }
        _ => panic!("expected an output dimension error"),
    }
}

#[test]
fn tensor_checks_element_count() {
    assert!(Tensor::from_shape_vec(vec![2, 3], vec![0u8; 6]).is_some());
    assert!(Tensor::from_shape_vec(vec![2, 3], vec![0u8; 5]).is_none());
    assert!(Tensor::from_shape_vec(vec![usize::MAX, 2, 0], Vec::<u8>::new()).is_some());
    assert!(Tensor::from_shape_vec(vec![usize::MAX, 2], Vec::<u8>::new()).is_none());
    let t = Tensor::from_shape_vec(vec![2, 3], vec![1, 2, 3, 4, 5, 6]).unwrap();
    assert_eq!(t.row(1), vec![4, 5, 6]);
    assert_eq!(t.len(), 6);
    assert_eq!(t.ndim(), 2);
}

#[test]
fn check_output_passes_matching_results_through() {
    let res = EvalResult::try_from_parts(Tensor::from_vec(vec![1.0f64, 2.0]), Tensor::from_vec(vec![true, false]));
    let out = montecore::operator::check_output(res, 2).unwrap();
    assert_eq!(out.value().as_slice(), &[1.0, 2.0]);
    assert_eq!(out.valid().as_slice(), &[true, false]);

    let res = EvalResult::try_from_parts(Tensor::from_vec(vec![1.0f64, 2.0]), Tensor::from_vec(vec![true, false]));
    assert!(matches!(
        montecore::operator::check_output(res, 3),
        Err(OperatorError::InconsistentOutputDim { found: 2, expected: 3 })
    ));
}

#[test]
fn tensor_set_replaces_one_element() {
    let mut t = Tensor::from_shape_vec(vec![2, 2], vec![1, 2, 3, 4]).unwrap();
    t.set(2, 9);
    assert_eq!(t.as_slice(), &[1, 2, 9, 4]);
    assert_eq!(t.shape(), &[2, 2]);
    assert_eq!(t.shape_vec(), vec![2, 2]);
    assert_eq!(t.into_vec(), vec![1, 2, 9, 4]);
}

#[test]
fn batch_of_no_rows_is_empty() {
    let inputs = matrix(0, 2, Vec::<f64>::new());
    let batch = IdentityOp.apply_batch(&inputs).unwrap();
    assert_eq!(batch.value().shape(), &[0, 2]);
    assert_eq!(batch.valid().shape(), &[0, 2]);
}

#[test]
fn batch_stops_at_first_failing_row() {
    let inputs = matrix(2, 1, vec![1.0, 2.0]);
    assert!(matches!(
        Overfull.apply_batch(&inputs),
        Err(OperatorError::InconsistentOutputDim { found: 2, expected: 1 })
    ));
}

#[test]
fn clones_keep_values_and_mask() {
    let res = EvalResult::try_from_parts(Tensor::from_vec(vec![1.0f64, 2.0]), Tensor::from_vec(vec![true, false])).unwrap();
    let copy = res.clone();
    assert_eq!(copy.value().as_slice(), res.value().as_slice());
    assert_eq!(copy.valid().as_slice(), res.valid().as_slice());
    assert_eq!(copy.value().shape(), &[2]);
}

#[test]
fn batch_mask_feeds_the_counts() {
    let inputs = matrix(3, 1, vec![2.0, 0.0, 4.0]);
    let batch = Reciprocal.apply_batch(&inputs).unwrap();

    assert_eq!(batch.valid().shape(), &[3, 1]);
    let mut counts = montecore::SampleCounts::new(1);
    counts.record_batch(batch.valid());
    assert_eq!(counts.count(), 3);
    assert_eq!(counts.valid_count(0), 2);
}
