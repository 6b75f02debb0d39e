use montecore::{InputShape, LatinHypercubeSampler, SampleError, SamplingMethod, TransformKind};
use ndarray_rand::rand::{rngs::StdRng, SeedableRng};

fn sorted(mut v: Vec<usize>) -> Vec<usize> {
    v.sort();
    v
}

#[test]
fn lhs_uses_each_stratum_once() {
    let mut rng = StdRng::seed_from_u64(42);
    let n = 100;

    let strata = LatinHypercubeSampler::strata(n, &mut rng);

    for (i, s) in sorted(strata).iter().enumerate() {
        let lower = i as f64 / n as f64;
        let upper = (i + 1) as f64 / n as f64;
        let x = *s as f64 / n as f64;
        assert!(x >= lower);
        assert!(x < upper);
    }
}

#[test]
fn lhs_stratifies_every_dimension() {
    let mut rng = StdRng::seed_from_u64(42);
    let n = 100;

    for _dim in 0..3 {
        let strata = LatinHypercubeSampler::strata(n, &mut rng);
        assert_eq!(sorted(strata), (0..n).collect::<Vec<_>>());
    }
}

#[test]
fn lhs_strata_are_shuffled() {
    let mut rng = StdRng::seed_from_u64(7);
    let strata = LatinHypercubeSampler::strata(100, &mut rng);
    assert_ne!(strata, (0..100).collect::<Vec<_>>());
}

#[test]
fn lhs_same_seed_gives_same_strata() {
    let a = LatinHypercubeSampler::strata(1000, &mut StdRng::seed_from_u64(123));
    let b = LatinHypercubeSampler::strata(1000, &mut StdRng::seed_from_u64(123));
    assert_eq!(a, b);
}

#[test]
fn lhs_strata_of_tiny_designs() {
    let mut rng = StdRng::seed_from_u64(1);
    assert_eq!(LatinHypercubeSampler::strata(0, &mut rng), Vec::<usize>::new());
    assert_eq!(LatinHypercubeSampler::strata(1, &mut rng), vec![0]);
}

#[test]
fn rejects_mismatched_mean_scaling_lengths() {
    let input = InputShape::Independent { means: 2, marginal_scale: 1 };

    assert!(input.compile_plan(SamplingMethod::Gaussian).is_err());
    match input.compile_plan(SamplingMethod::LatinHypercube) {
        Err(SampleError::VectorShapeError { expected, found }) => {
            assert_eq!(expected, 2);
            assert_eq!(found, 1);
        }
        _ => panic!("expected a vector shape error"),
    }
}

#[test]
fn rejects_mismatched_mean_covariance_dimensions() {
    let input = InputShape::Correlated { means: 2, rows: 3, cols: 3 };

    match input.compile_plan(SamplingMethod::Gaussian) {
        Err(SampleError::MatrixShapeError { expected, found }) => {
            assert_eq!(expected, (2, 2));
            assert_eq!(found, (3, 3));
        }
        _ => panic!("expected a matrix shape error"),
    }
}

#[test]
fn lhs_rejects_correlated_inputs() {
    let input = InputShape::Correlated { means: 2, rows: 2, cols: 2 };

    match input.compile_plan(SamplingMethod::LatinHypercube) {
        Err(SampleError::InvalidPattern(msg)) => {
            assert_eq!(msg, "called an lhs sampling routine with correlated data");
        }
        _ => panic!("expected an invalid pattern"),
    }
}

#[test]
fn plans_pick_the_affine_map() {
    let independent = InputShape::Independent { means: 3, marginal_scale: 3 };
    let correlated = InputShape::Correlated { means: 2, rows: 2, cols: 2 };

    assert_eq!(independent.compile_plan(SamplingMethod::Gaussian).unwrap(), TransformKind::Diagonal);
    assert_eq!(independent.compile_plan(SamplingMethod::LatinHypercube).unwrap(), TransformKind::Diagonal);
    assert_eq!(correlated.compile_plan(SamplingMethod::Gaussian).unwrap(), TransformKind::CholeskyFactor);
}

#[test]
fn non_square_covariance_is_rejected() {
    let input = InputShape::Correlated { means: 2, rows: 2, cols: 3 };
    assert!(matches!(
        input.compile_plan(SamplingMethod::Gaussian),
        Err(SampleError::MatrixShapeError { expected: (2, 2), found: (2, 3) })
    ));
}
