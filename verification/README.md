# montecore

Uncertainty propagation by Monte Carlo simulation, with a verified core.

A run samples an input model (independent or correlated inputs, Gaussian or
Latin hypercube sampling), evaluates a user-supplied `Operator` on each
sample, accumulates validity-aware streaming statistics, and stops once the
mean has converged (after a minimum number of samples) or the sample budget
is spent.

## Layout

- `src/` — the library, verified with Verus:
  - `controller.rs`: the stopping rule (`AdaptiveController::should_stop`) and
    its laws (when a run stops, that convergence needs the minimum sample
    count, and that the decision stops a run once the budget is spent, so
    that batches of at least one sample end within ⌈max/batch⌉ batches; the
    loop itself runs in `app/`, where this is not proved);
  - `tensor.rs`: `Tensor`, a dense row-major array of any rank whose element
    count always matches its shape;
  - `operator.rs`: `EvalResult` (values with a validity mask of the same
    shape), `OperatorError`, and the `Operator` trait. Its dimensions and its
    evaluation are named by spec functions (`spec_dim_in`, `spec_dim_out`,
    `spec_apply`, over the views `EvalView` and `ErrorView`);
    `apply_checked` is stated exactly over them, and
    `apply_batch` as the row-by-row checked evaluation of the input rows,
    stacked, with the first failing row's error;
  - `stats.rs`: `SampleCounts`, the counts of samples and of valid samples per
    component and per pair of components, with recording, batch recording and
    merging, the monoid laws of merging, and per-pair covariance divisors
    that leave out samples in which either component is invalid;
  - `input.rs`: sampling methods, the compile-time checks of input shapes
    (`InputShape::compile_plan`), and the Latin hypercube strata
    (`LatinHypercubeSampler::strata`, each stratum used exactly once);
  - `lib.rs`: `MonteCarloOptions` and `MontecoreError`.
- `app/` — the floating-point part: input models and their Cholesky factors,
  normal and uniform draws, Welford/Chan moment accumulation, convergence
  tests, and the run loop (`MonteCarlo::run`), built on the library.
- `tests/` — tests of the library.
