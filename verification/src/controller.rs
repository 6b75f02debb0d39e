//! When to stop sampling.
use vstd::prelude::*;

verus! {

/// Whether the engine should draw another batch.
#[derive(Debug, Clone, Copy, PartialEq, Eq, Structural)]
pub enum StopDecision {
    Continue,
    Stop { reason: StopReason },
}

/// Why a run ended.
#[derive(Debug, Clone, Copy, PartialEq, Eq, Structural)]
pub enum StopReason {
    RelativeToleranceReached,
    MaxSamplesReached,
}

/// The statistical test that decides convergence of the mean estimate.
pub enum ConvergenceCriterion<E> {
    AbsoluteMeanError { tol: E },
    RelativeMeanError { rel_tol: E },
}

/// Stops a run once the estimate has converged and enough samples were
/// drawn, or once the sample budget is spent.
pub struct AdaptiveController<E> {
    min_samples: usize,
    max_samples: usize,
    criterion: ConvergenceCriterion<E>,
    /// The z-score of the confidence level, in hundredths (196 stands for 1.96).
    confidence_centi: u32,
}

/// The decision of the controller for a given convergence outcome and sample count.
///
/// Convergence only counts once `min_samples` samples were drawn; the budget
/// `max_samples` stops the run in any case.
pub open spec fn stop_decision(converged: bool, count: nat, min_samples: nat, max_samples: nat) -> StopDecision {
    if converged && count >= min_samples {
        StopDecision::Stop { reason: StopReason::RelativeToleranceReached }
    } else if count >= max_samples {
        StopDecision::Stop { reason: StopReason::MaxSamplesReached }
    } else {
        StopDecision::Continue
    }
}

impl<E> AdaptiveController<E> {
    pub closed spec fn min_bound(&self) -> nat {
        self.min_samples as nat
    }

    pub closed spec fn max_bound(&self) -> nat {
        self.max_samples as nat
    }

    pub closed spec fn rule(&self) -> ConvergenceCriterion<E> {
        self.criterion
    }

    pub closed spec fn confidence_hundredths(&self) -> nat {
        self.confidence_centi as nat
    }

    /// A controller that tests the relative error of the mean against `rel_tol`
    /// at the 95% confidence level (z = 1.96).
    pub fn new(min_samples: usize, max_samples: usize, rel_tol: E) -> (c: Self)
        ensures
            c.min_bound() == min_samples,
            c.max_bound() == max_samples,
            c.rule() == (ConvergenceCriterion::RelativeMeanError { rel_tol }),
            c.confidence_hundredths() == 196,
    {
        AdaptiveController {
            min_samples,
            max_samples,
            criterion: ConvergenceCriterion::RelativeMeanError { rel_tol },
            confidence_centi: 196,
        }
    }

    /// Samples drawn before convergence may end a run.
    pub fn min_samples(&self) -> (m: usize)
        ensures
            m == self.min_bound(),
    {
        self.min_samples
    }

    /// Samples after which a run ends in any case.
    pub fn max_samples(&self) -> (m: usize)
        ensures
            m == self.max_bound(),
    {
        self.max_samples
    }

    /// The convergence test.
    pub fn criterion(&self) -> (c: &ConvergenceCriterion<E>)
        ensures
            *c == self.rule(),
    {
        &self.criterion
    }

    /// Decides whether to stop after `count` samples, given whether the
    /// convergence criterion holds of the current statistics.
    pub fn should_stop(&self, converged: bool, count: usize) -> (d: StopDecision)
        ensures
            d == stop_decision(converged, count as nat, self.min_bound(), self.max_bound()),
            converged && count >= self.min_bound() ==> d == (StopDecision::Stop {
                reason: StopReason::RelativeToleranceReached,
            }),
            !(converged && count >= self.min_bound()) && count >= self.max_bound() ==> d == (
            StopDecision::Stop { reason: StopReason::MaxSamplesReached }),
            !(converged && count >= self.min_bound()) && count < self.max_bound() ==> d
                == StopDecision::Continue,
    {
        if converged && count >= self.min_samples {
            return StopDecision::Stop { reason: StopReason::RelativeToleranceReached };
        }
        if count >= self.max_samples {
            return StopDecision::Stop { reason: StopReason::MaxSamplesReached };
        }
        StopDecision::Continue
    }
}


/// The run stops exactly when the estimate has converged with at least
/// `min_samples` samples, or when `max_samples` samples were drawn.
pub proof fn lemma_stops_iff(converged: bool, count: nat, min_samples: nat, max_samples: nat)
    ensures
        (stop_decision(converged, count, min_samples, max_samples) is Stop) <==> ((converged && count
            >= min_samples) || count >= max_samples),
{
}

/// Convergence ends a run only once `min_samples` samples were drawn.
pub proof fn lemma_convergence_needs_min_samples(
    converged: bool,
    count: nat,
    min_samples: nat,
    max_samples: nat,
)
    ensures
        stop_decision(converged, count, min_samples, max_samples) == (StopDecision::Stop {
            reason: StopReason::RelativeToleranceReached,
        }) ==> converged && count >= min_samples,
        stop_decision(converged, count, min_samples, max_samples) == (StopDecision::Stop {
            reason: StopReason::MaxSamplesReached,
        }) ==> count >= max_samples,
{
}

/// Once the budget is spent the run stops, whatever the statistics say; so a
/// run that draws batches of `batch_size >= 1` samples stops after at most
/// `ceil(max_samples / batch_size)` batches.
pub proof fn lemma_budget_bounds_batches(
    converged: bool,
    batches: nat,
    batch_size: nat,
    min_samples: nat,
    max_samples: nat,
)
    requires
        batch_size >= 1,
        batches * batch_size >= max_samples,
    ensures
        stop_decision(converged, batches * batch_size, min_samples, max_samples) is Stop,
        (max_samples + batch_size - 1) / (batch_size as int) * batch_size >= max_samples,
{
    let k = (max_samples + batch_size - 1) / (batch_size as int);
    let m = max_samples as int;
    let b = batch_size as int;
    assert(k * b >= m) by (nonlinear_arith)
        requires
            b >= 1,
            k == (m + b - 1) / b,
            m >= 0,
    ;
}
/// Convergence after the minimum sample count is reported as such whatever
/// the budget: a run whose last batch overshot `max_samples` but converged
/// stops with `RelativeToleranceReached`. The budget only decides when the
/// estimate has not converged (or too few samples were drawn).
pub proof fn lemma_convergence_takes_precedence(
    converged: bool,
    count: nat,
    min_samples: nat,
    max_samples: nat,
)
    ensures
        converged && count >= min_samples ==> stop_decision(converged, count, min_samples, max_samples)
            == (StopDecision::Stop { reason: StopReason::RelativeToleranceReached }),
        !(converged && count >= min_samples) && count >= max_samples ==> stop_decision(
            converged,
            count,
            min_samples,
            max_samples,
        ) == (StopDecision::Stop { reason: StopReason::MaxSamplesReached }),
        !(converged && count >= min_samples) && count < max_samples ==> stop_decision(
            converged,
            count,
            min_samples,
            max_samples,
        ) == StopDecision::Continue,
{
}

} // verus!
