//! Uncertainty propagation by Monte Carlo simulation: the verified core.
//!
//! This crate holds the decision logic, the validity bookkeeping and the
//! shape discipline of a Monte Carlo engine. The floating-point estimators
//! that sit around it live in the companion application crate.
use vstd::prelude::*;

pub mod controller;
pub mod tensor;
pub mod operator;
pub mod stats;
pub mod input;

pub use controller::{AdaptiveController, ConvergenceCriterion, StopDecision, StopReason};
pub use input::{
    GaussianSampler, GaussianSpace, InputShape, LatinHypercubeSampler, ReferenceSpace, SampleError,
    SamplingMethod, TransformKind, UnitCubeSpace,
};
pub use operator::{EvalResult, Operator, OperatorError};
pub use stats::SampleCounts;
pub use tensor::Tensor;

use vstd::std_specs::convert::FromSpecImpl;

verus! {

/// Failures of a Monte Carlo run.
#[derive(Debug)]
pub enum MontecoreError {
    /// The operator failed structurally.
    Operator(OperatorError),
    /// The input specification could not be compiled for sampling.
    Sampler(SampleError),
}

impl From<OperatorError> for MontecoreError {
    fn from(err: OperatorError) -> (r: Self) {
        MontecoreError::Operator(err)
    }
}

impl FromSpecImpl<OperatorError> for MontecoreError {
    open spec fn obeys_from_spec() -> bool {
        true
    }

    open spec fn from_spec(err: OperatorError) -> Self {
        MontecoreError::Operator(err)
    }
}

impl From<SampleError> for MontecoreError {
    fn from(err: SampleError) -> (r: Self) {
        MontecoreError::Sampler(err)
    }
}

impl FromSpecImpl<SampleError> for MontecoreError {
    open spec fn obeys_from_spec() -> bool {
        true
    }

    open spec fn from_spec(err: SampleError) -> Self {
        MontecoreError::Sampler(err)
    }
}

/// Settings of a Monte Carlo run.
#[derive(Clone)]
pub struct MonteCarloOptions<E> {
    /// Seed of the random generator; equal seeds give equal runs.
    pub seed: u64,
    /// Samples drawn per batch.
    pub batch_size: usize,
    /// Samples drawn before convergence may end the run.
    pub min_samples: usize,
    /// Samples after which the run ends in any case.
    pub max_samples: usize,
    /// Tolerance of the relative standard error of the mean.
    pub rel_tol: E,
}

} // verus!
