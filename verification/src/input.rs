//! Input models and sampling designs.
use vstd::prelude::*;
use vstd::std_specs::convert::FromSpecImpl;

use ndarray_rand::rand::rngs::StdRng;

verus! {

#[verifier::external_type_specification]
#[verifier::external_body]
pub struct ExLinalgError(ndarray_linalg::error::LinalgError);

#[verifier::external_type_specification]
#[verifier::external_body]
pub struct ExStdRng(StdRng);

/// Failures while compiling an input specification for sampling.
#[derive(Debug)]
pub enum SampleError {
    /// The input specification does not suit the sampling method.
    InvalidPattern(&'static str),
    /// The covariance matrix has no Cholesky factor.
    Linalg(ndarray_linalg::error::LinalgError),
    /// The scales and the means differ in length.
    VectorShapeError { expected: usize, found: usize },
    /// The covariance matrix is not square of the dimension of the means.
    MatrixShapeError { expected: (usize, usize), found: (usize, usize) },
}

impl From<ndarray_linalg::error::LinalgError> for SampleError {
    fn from(err: ndarray_linalg::error::LinalgError) -> (r: Self) {
        SampleError::Linalg(err)
    }
}

impl FromSpecImpl<ndarray_linalg::error::LinalgError> for SampleError {
    open spec fn obeys_from_spec() -> bool {
        true
    }

    open spec fn from_spec(err: ndarray_linalg::error::LinalgError) -> Self {
        SampleError::Linalg(err)
    }
}

/// How the input space is explored.
#[derive(Debug, Clone, Copy, PartialEq, Eq, Structural)]
pub enum SamplingMethod {
    /// Independent standard normal draws.
    Gaussian,
    /// Stratified draws: each axis of the unit cube is cut into as many
    /// strata as there are samples, and each stratum is hit once.
    LatinHypercube,
}

/// The reference space in which a sampler draws its latent samples.
pub trait ReferenceSpace {}

/// The space of standard normal vectors.
pub struct GaussianSpace;

/// The unit cube.
pub struct UnitCubeSpace;

impl ReferenceSpace for GaussianSpace {}

impl ReferenceSpace for UnitCubeSpace {}

/// Draws independent standard normal samples.
pub struct GaussianSampler;

/// Draws Latin hypercube samples in the unit cube.
pub struct LatinHypercubeSampler;

/// The shapes of an input specification: the length of the means, and of the
/// marginal scales or the covariance matrix.
#[derive(Debug, Clone, Copy, PartialEq, Eq, Structural)]
pub enum InputShape {
    Independent { means: usize, marginal_scale: usize },
    Correlated { means: usize, rows: usize, cols: usize },
}

/// The form of the affine map from the reference space to the inputs.
#[derive(Debug, Clone, Copy, PartialEq, Eq, Structural)]
pub enum TransformKind {
    /// Scale each latent coordinate by its marginal scale.
    Diagonal,
    /// Multiply by the Cholesky factor of the covariance matrix.
    CholeskyFactor,
}

/// The message of the error for correlated inputs under Latin hypercube sampling.
pub open spec fn lhs_correlated_message() -> Seq<char> {
    "called an lhs sampling routine with correlated data"@
}

impl InputShape {
    /// Checks that an input specification of this shape can be sampled with
    /// `method`, and chooses the affine map.
    ///
    /// Independent inputs need as many scales as means. Correlated inputs
    /// need a square covariance matrix of that dimension, and only Gaussian
    /// sampling supports them.
    pub fn compile_plan(&self, method: SamplingMethod) -> (r: Result<TransformKind, SampleError>)
        ensures
            match *self {
                InputShape::Independent { means, marginal_scale } => if marginal_scale != means {
                    r matches Err(SampleError::VectorShapeError { expected, found }) && expected
                        == means && found == marginal_scale
                } else {
                    r == Ok::<TransformKind, SampleError>(TransformKind::Diagonal)
                },
                InputShape::Correlated { means, rows, cols } => match method {
                    SamplingMethod::Gaussian => if rows != means || cols != means {
                        r matches Err(SampleError::MatrixShapeError { expected, found }) && expected == (
                        means, means) && found == (rows, cols)
                    } else {
                        r == Ok::<TransformKind, SampleError>(TransformKind::CholeskyFactor)
                    },
                    SamplingMethod::LatinHypercube => r matches Err(SampleError::InvalidPattern(msg))
                        && msg@ == lhs_correlated_message(),
                },
            },
    {
        match *self {
            InputShape::Independent { means, marginal_scale } => {
                if marginal_scale != means {
                    return Err(SampleError::VectorShapeError { found: marginal_scale, expected: means });
                }
                Ok(TransformKind::Diagonal)
            },
            InputShape::Correlated { means, rows, cols } => match method {
                SamplingMethod::Gaussian => {
                    if rows != means || cols != means {
                        return Err(
                            SampleError::MatrixShapeError { found: (rows, cols), expected: (means, means) },
                        );
                    }
                    Ok(TransformKind::CholeskyFactor)
                },
                SamplingMethod::LatinHypercube => {
                    Err(SampleError::InvalidPattern("called an lhs sampling routine with correlated data"))
                },
            },
        }
    }
}


/// The strata `0, 1, ..., n - 1` in order.
pub open spec fn strata_in_order(n: nat) -> Seq<usize> {
    Seq::new(n, |i: int| i as usize)
}

/// `perm` lists each of the strata `0..n` exactly once.
pub open spec fn each_stratum_once(perm: Seq<usize>, n: nat) -> bool {
    &&& perm.len() == n
    &&& forall|i: int| 0 <= i < perm.len() ==> #[trigger] perm[i] < n
    &&& forall|k: usize| k < n ==> #[trigger] perm.contains(k)
    &&& perm.no_duplicates()
}

/// A sequence with the elements of `0..n` is a permutation of the strata:
/// each stratum occurs exactly once.
pub proof fn lemma_permutation_hits_each_stratum_once(perm: Seq<usize>, n: nat)
    requires
        perm.to_multiset() == strata_in_order(n).to_multiset(),
        n <= usize::MAX + 1,
    ensures
        each_stratum_once(perm, n),
{
    broadcast use vstd::seq_lib::group_to_multiset_ensures;

    let id = strata_in_order(n);
    assert(id.no_duplicates());
    id.lemma_multiset_has_no_duplicates();
    assert forall|x: usize| perm.to_multiset().contains(x) implies perm.to_multiset().count(x) == 1 by {
        assert(id.to_multiset().contains(x));
    }
    perm.lemma_multiset_has_no_duplicates_conv();
    assert(perm.to_multiset().len() == id.to_multiset().len());
    assert(perm.len() == id.len());
    assert forall|i: int| 0 <= i < perm.len() implies #[trigger] perm[i] < n by {
        assert(perm.contains(perm[i]));
        assert(perm.to_multiset().count(perm[i]) > 0);
        assert(id.contains(perm[i]));
    }
    assert forall|k: usize| k < n implies #[trigger] perm.contains(k) by {
        assert(id[k as int] == k);
        assert(id.contains(k));
        assert(id.to_multiset().count(k) > 0);
    }
}

/// Shuffles `v` in place with `rng`.
///
/// Calls `rand::seq::SliceRandom::shuffle`, which permutes the slice by
/// swaps (a Fisher-Yates shuffle). The contract claims only that the result
/// is a permutation of the input; which permutation comes out depends on the
/// state of the generator and is left unsaid.
#[verifier::external_body]
fn shuffle_indices(v: &mut Vec<usize>, rng: &mut StdRng)
    ensures
        final(v)@.to_multiset() == old(v)@.to_multiset(),
{
    ndarray_rand::rand::seq::SliceRandom::shuffle(v.as_mut_slice(), rng)
}

impl LatinHypercubeSampler {
    /// The strata of one axis of a Latin hypercube design of `n` samples:
    /// sample `i` falls into stratum `[s[i] / n, (s[i] + 1) / n)`.
    ///
    /// The strata `0..n` are shuffled with `rng`, so each stratum is used by
    /// exactly one sample. The draws of `rng` are those of shuffling a column
    /// of `n` values.
    pub fn strata(n: usize, rng: &mut StdRng) -> (s: Vec<usize>)
        ensures
            s@.to_multiset() == strata_in_order(n as nat).to_multiset(),
            each_stratum_once(s@, n as nat),
    {
        let mut s: Vec<usize> = Vec::new();
        let mut k: usize = 0;
        while k < n
            invariant
                k <= n,
                s@ == strata_in_order(k as nat),
            decreases n - k,
        {
            s.push(k);
            proof {
                assert(s@ =~= strata_in_order((k + 1) as nat));
            }
            k = k + 1;
        }
        shuffle_indices(&mut s, rng);
        proof {
            lemma_permutation_hits_each_stratum_once(s@, n as nat);
        }
        s
    }
}
} // verus!
