use montecore::{AdaptiveController, SampleCounts, StopDecision, StopReason, Tensor};

#[test]
fn convergence_stops_only_after_min_samples() {
    let c = AdaptiveController::new(100, 1000, 1e-3f64);

    assert_eq!(c.should_stop(true, 99), StopDecision::Continue);
    assert_eq!(
        c.should_stop(true, 100),
        StopDecision::Stop { reason: StopReason::RelativeToleranceReached }
    );
}

#[test]
fn budget_stops_the_run() {
    let c = AdaptiveController::new(100, 1000, 1e-3f64);

    assert_eq!(c.should_stop(false, 999), StopDecision::Continue);
    assert_eq!(c.should_stop(false, 1000), StopDecision::Stop { reason: StopReason::MaxSamplesReached });
    assert_eq!(c.should_stop(false, 5000), StopDecision::Stop { reason: StopReason::MaxSamplesReached });
}

#[test]
fn convergence_wins_over_budget() {
    let c = AdaptiveController::new(512, 512, 1e-3f64);

    assert_eq!(
        c.should_stop(true, 512),
        StopDecision::Stop { reason: StopReason::RelativeToleranceReached }
    );
    assert_eq!(c.should_stop(false, 512), StopDecision::Stop { reason: StopReason::MaxSamplesReached });
}

#[test]
fn controller_keeps_its_settings() {
    let c = AdaptiveController::new(10, 20, 0.5f64);
    assert_eq!(c.min_samples(), 10);
    assert_eq!(c.max_samples(), 20);
    match c.criterion() {
        montecore::ConvergenceCriterion::RelativeMeanError { rel_tol } => assert_eq!(*rel_tol, 0.5),
        _ => panic!("expected a relative criterion"),
    }
}

#[test]
fn budget_bounds_the_number_of_batches() {
    let controller = AdaptiveController::new(512, 1000, 1e-3f64);
    let batch = Tensor::from_shape_vec(vec![128, 2], vec![true; 256]).unwrap();
    let mut counts = SampleCounts::new(2);

    let mut batches = 0;
    let reason = loop {
        counts.record_batch(&batch);
        batches += 1;
        if let StopDecision::Stop { reason } = controller.should_stop(false, counts.count()) {
            break reason;
        }
    };

    assert_eq!(reason, StopReason::MaxSamplesReached);
    assert_eq!(batches, (1000 + 128 - 1) / 128);
    assert_eq!(counts.count(), 1024);
}
