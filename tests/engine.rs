use antidebug::engine::environment::EnvironmentState;
use antidebug::engine::policy::{DecisionEngine, DetectionSource, Verdict};
use antidebug::engine::responses::{apply_response, fake_computation, Response};

fn engine_with_score(score: u32) -> DecisionEngine {
    let mut e = DecisionEngine::new();
    e.report(DetectionSource::Timing, score, "set up");
    e
}

#[test]
fn verdict_thresholds() {
    let expected = [
        (19, Verdict::Clean),
        (20, Verdict::Suspicious),
        (49, Verdict::Suspicious),
        (50, Verdict::Instrumented),
        (89, Verdict::Instrumented),
        (90, Verdict::Deceptive),
    ];
    for (score, verdict) in expected {
        let e = engine_with_score(score);
        assert_eq!(e.get_score(), score);
        assert_eq!(e.decide(), verdict);
    }
}

#[test]
fn contradiction_forces_deceptive() {
    let mut e = DecisionEngine::new();
    e.record_contradiction(DetectionSource::Timing, DetectionSource::Ptrace, "test");
    assert_eq!(e.get_score(), 30);
    assert_eq!(e.decide(), Verdict::Deceptive);
    assert_eq!(e.get_contradictions().len(), 1);
    assert_eq!(e.get_contradictions()[0].description, "test");
}

#[test]
fn confidence_scales_contribution() {
    let mut e = DecisionEngine::new();
    e.report_with_confidence(DetectionSource::Jitter, 25, 700, "a");
    assert_eq!(e.get_score(), 17);
    e.report_with_confidence(DetectionSource::Jitter, 30, 800, "b");
    assert_eq!(e.get_score(), 41);
    e.report_with_confidence(DetectionSource::Int3, 1, 100, "c");
    assert_eq!(e.get_score(), 41);
    assert_eq!(e.get_source_weight(DetectionSource::Jitter), 41);
    assert_eq!(e.get_source_weight(DetectionSource::Int3), 0);
    assert_eq!(e.get_source_weight(DetectionSource::Timing), 0);
    assert_eq!(e.get_history().len(), 3);
    assert_eq!(e.get_history()[2].effective_weight(), 0);
}

#[test]
fn null_reports_are_kept_but_add_nothing() {
    let mut e = DecisionEngine::new();
    e.report(DetectionSource::Timing, 0, "zero weight");
    e.report_with_confidence(DetectionSource::Ptrace, 80, 0, "zero confidence");
    assert_eq!(e.get_score(), 0);
    assert_eq!(e.get_history().len(), 2);
    assert_eq!(e.get_history()[1].details, "zero confidence");
    assert!(!e.has_detection(DetectionSource::Ptrace));
}

#[test]
fn score_saturates() {
    let mut e = DecisionEngine::new();
    e.report(DetectionSource::Timing, u32::MAX, "a");
    e.report(DetectionSource::Timing, 5, "b");
    assert_eq!(e.get_score(), u32::MAX);
    assert_eq!(e.get_source_weight(DetectionSource::Timing), u32::MAX);
}

#[test]
fn report_order_does_not_matter() {
    let mut a = DecisionEngine::new();
    a.report(DetectionSource::Timing, 40, "t");
    a.report_with_confidence(DetectionSource::Jitter, 25, 700, "j");
    a.report(DetectionSource::Ptrace, 70, "p");
    let mut b = DecisionEngine::new();
    b.report(DetectionSource::Ptrace, 70, "p");
    b.report(DetectionSource::Timing, 40, "t");
    b.report_with_confidence(DetectionSource::Jitter, 25, 700, "j");
    assert_eq!(a.get_score(), b.get_score());
    assert_eq!(a.get_score(), 127);
    assert_eq!(a.decide(), b.decide());
    assert_eq!(a.get_history()[0].source, DetectionSource::Timing);
    assert_eq!(b.get_history()[0].source, DetectionSource::Ptrace);
}

#[test]
fn damping_lowers_score_only_inside_unit_interval() {
    let mut e = engine_with_score(100);
    e.apply_environmental_adjustment(0);
    assert_eq!(e.get_score(), 100);
    e.apply_environmental_adjustment(1000);
    assert_eq!(e.get_score(), 100);
    e.apply_environmental_adjustment(5000);
    assert_eq!(e.get_score(), 100);
    e.apply_environmental_adjustment(700);
    assert_eq!(e.get_score(), 70);
    // damping applies at most once
    e.apply_environmental_adjustment(700);
    assert_eq!(e.get_score(), 70);
    let mut z = DecisionEngine::new();
    z.apply_environmental_adjustment(500);
    assert_eq!(z.get_score(), 0);
}

#[test]
fn heavy_timing_without_tracer_is_a_contradiction() {
    let mut e = DecisionEngine::new();
    e.report(DetectionSource::Jitter, 70, "amplification");
    e.analyze_contradictions();
    assert_eq!(e.get_contradictions().len(), 1);
    assert_eq!(e.get_contradictions()[0].source_a, DetectionSource::Timing);
    assert_eq!(e.get_contradictions()[0].source_b, DetectionSource::Ptrace);
    assert_eq!(e.get_score(), 100);
    assert_eq!(e.decide(), Verdict::Deceptive);
}

#[test]
fn timing_explained_by_tracer_is_no_contradiction() {
    let mut e = DecisionEngine::new();
    e.report(DetectionSource::Jitter, 70, "amplification");
    e.report(DetectionSource::Ptrace, 70, "tracer");
    e.analyze_contradictions();
    assert!(e.get_contradictions().is_empty());
    let mut f = DecisionEngine::new();
    f.report(DetectionSource::Timing, 40, "only forty");
    f.analyze_contradictions();
    assert!(f.get_contradictions().is_empty());
    let mut g = DecisionEngine::new();
    g.report(DetectionSource::Timing, 30, "t");
    g.report(DetectionSource::Jitter, 11, "j");
    g.report_with_confidence(DetectionSource::HardwareBreakpoint, 10, 400, "hw");
    g.analyze_contradictions();
    assert!(g.get_contradictions().is_empty());
    // any evidence from the debug registers explains the timing, even of weight 0
    let mut h = DecisionEngine::new();
    h.report(DetectionSource::Jitter, 50, "j");
    h.report(DetectionSource::HardwareBreakpoint, 0, "hw");
    h.analyze_contradictions();
    assert!(h.get_contradictions().is_empty());
    assert_eq!(h.get_score(), 50);
}

#[test]
fn summary_lists_sources_and_contradictions() {
    let mut e = DecisionEngine::new();
    e.report(DetectionSource::Jitter, 70, "amplification");
    e.report(DetectionSource::Int3, 0, "padding");
    e.analyze_contradictions();
    assert_eq!(
        e.summary(),
        "Score: 100 | Result: Deceptive\nEvidence by source:\n  Int3: 0\n  Jitter: 70\nContradictions:\n  Timing vs Ptrace: Heavy timing anomaly but no tracer detected - possible ptrace hiding\n"
    );
    let clean = DecisionEngine::new();
    assert_eq!(clean.summary(), "Score: 0 | Result: Clean\nEvidence by source:\n");
}

#[test]
fn environment_factor() {
    assert_eq!(EnvironmentState::from_readings(None, None).adjustment_factor, 1000);
    assert_eq!(EnvironmentState::from_readings(Some("performance"), Some(false)).adjustment_factor, 1000);
    assert_eq!(EnvironmentState::from_readings(Some("schedutil"), None).adjustment_factor, 700);
    assert_eq!(EnvironmentState::from_readings(Some("ondemand"), Some(true)).adjustment_factor, 630);
    assert_eq!(EnvironmentState::from_readings(Some("conservative"), None).adjustment_factor, 700);
    assert_eq!(EnvironmentState::from_readings(Some("userspace"), Some(true)).adjustment_factor, 810);
    let p = EnvironmentState::from_readings(Some("powersave"), Some(true));
    assert_eq!(p.adjustment_factor, 450);
    assert_eq!(p.warnings.len(), 2);
    assert_eq!(p.cpu_governor.as_deref(), Some("powersave"));
    assert_eq!(
        EnvironmentState::from_readings(Some("powersave"), Some(true)).adjustment_factor,
        p.adjustment_factor
    );
}

#[test]
fn powersave_with_smt_damps_to_suspicious() {
    let env = EnvironmentState::from_readings(Some("powersave"), Some(true));
    let mut e = engine_with_score(100);
    e.apply_environmental_adjustment(env.adjustment_factor);
    assert_eq!(e.get_score(), 45);
    assert_eq!(e.decide(), Verdict::Suspicious);
}

#[test]
fn responses_and_exit_codes() {
    assert_eq!(apply_response(Verdict::Clean), Response::Proceed);
    assert_eq!(apply_response(Verdict::Suspicious), Response::Throttle);
    assert_eq!(apply_response(Verdict::Instrumented), Response::Terminate(0xC0DE));
    assert_eq!(apply_response(Verdict::Deceptive), Response::Terminate(0xDEAD));
    assert_eq!(fake_computation(), 499_999_500_000);
}
