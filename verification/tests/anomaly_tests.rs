use simple_profiler::anomaly::{AnomalyEngine, Phase, Severity, Transition};
use simple_profiler::anomaly_storage::{
    closed_event_cutoff_ms, decode_state, evidence_kind, parse_optional_severity,
    prelude_start_ms, EvidenceKind, StorageError,
};
use simple_profiler::config::{AnomalyConfig, AnomalyRuleConfig};
use simple_profiler::model::Metric;

fn metric(at_seconds: i64, value: f64) -> Metric {
    Metric::new(
        at_seconds * 1_000,
        "system",
        "cpu.total.usage",
        value.to_bits(),
        "percent",
    )
}

fn test_config() -> AnomalyConfig {
    AnomalyConfig {
        evidence_interval_seconds: 10,
        rules: vec![AnomalyRuleConfig {
            id: "cpu".to_owned(),
            metric_name: "cpu.total.usage".to_owned(),
            trigger_seconds: 10,
            critical_trigger_seconds: 5,
            recovery_seconds: 10,
            min_samples: 3,
            critical_min_samples: 2,
            recovery_min_samples: 3,
            max_sample_gap_seconds: 6,
            ..AnomalyRuleConfig::default()
        }],
        ..AnomalyConfig::default()
    }
}

#[test]
fn sustained_warning_opens_and_hysteresis_closes_it() {
    let mut engine = AnomalyEngine::new(&test_config());
    let first = engine.evaluate_batch(&vec![metric(0, 91.0)]);
    let second = engine.evaluate_batch(&vec![metric(5, 92.0)]);
    let third = engine.evaluate_batch(&vec![metric(10, 93.0)]);

    assert_eq!(first[0].transition, Transition::NoChange);
    assert_eq!(second[0].transition, Transition::NoChange);
    assert_eq!(third[0].transition, Transition::Open);
    engine.attach_event(&third[0].key, 7, 10_000);

    assert_eq!(
        engine.evaluate_batch(&vec![metric(15, 80.0)])[0].transition,
        Transition::NoChange
    );
    assert_eq!(
        engine.evaluate_batch(&vec![metric(20, 74.0)])[0].transition,
        Transition::NoChange
    );
    assert_eq!(
        engine.evaluate_batch(&vec![metric(25, 74.0)])[0].transition,
        Transition::NoChange
    );
    assert_eq!(
        engine.evaluate_batch(&vec![metric(30, 74.0)])[0].transition,
        Transition::Close
    );
}

#[test]
fn a_data_gap_resets_pending_detection() {
    let mut engine = AnomalyEngine::new(&test_config());
    engine.evaluate_batch(&vec![metric(0, 91.0)]);
    engine.evaluate_batch(&vec![metric(5, 92.0)]);

    let after_gap = engine.evaluate_batch(&vec![metric(30, 93.0)]);

    assert_eq!(after_gap[0].transition, Transition::NoChange);
    assert_eq!(
        engine
            .state(&after_gap[0].key)
            .expect("state")
            .pending_samples,
        1
    );
}

#[test]
fn duplicate_or_older_samples_are_ignored() {
    let mut engine = AnomalyEngine::new(&test_config());
    engine.evaluate_batch(&vec![metric(5, 91.0)]);

    assert!(engine.evaluate_batch(&vec![metric(5, 92.0)]).is_empty());
    assert!(engine.evaluate_batch(&vec![metric(4, 92.0)]).is_empty());
}

#[test]
fn a_short_spike_does_not_open_an_event() {
    let mut engine = AnomalyEngine::new(&test_config());
    engine.evaluate_batch(&vec![metric(0, 99.0)]);
    let normal = engine.evaluate_batch(&vec![metric(5, 50.0)]);

    assert_eq!(normal[0].transition, Transition::NoChange);
    assert_eq!(
        engine.state(&normal[0].key).expect("state").phase,
        Phase::Normal
    );
}

#[test]
fn an_open_warning_escalates_after_sustained_critical_samples() {
    let mut engine = AnomalyEngine::new(&test_config());
    engine.evaluate_batch(&vec![metric(0, 91.0)]);
    engine.evaluate_batch(&vec![metric(5, 92.0)]);
    let opened = engine.evaluate_batch(&vec![metric(10, 93.0)]);
    engine.attach_event(&opened[0].key, 8, 10_000);

    assert_eq!(
        engine.evaluate_batch(&vec![metric(15, 98.0)])[0].transition,
        Transition::NoChange
    );
    let escalated = engine.evaluate_batch(&vec![metric(20, 99.0)]);

    assert_eq!(escalated[0].transition, Transition::Escalate);
    assert_eq!(escalated[0].state.severity, Some(Severity::Critical));
}

#[test]
fn non_finite_values_and_other_metrics_are_skipped() {
    let mut engine = AnomalyEngine::new(&test_config());
    assert!(engine.evaluate_batch(&vec![metric(0, f64::NAN)]).is_empty());
    assert!(engine
        .evaluate_batch(&vec![metric(1, f64::INFINITY)])
        .is_empty());
    let other = Metric::new(2_000, "system", "memory.usage", 99.0_f64.to_bits(), "percent");
    assert!(engine.evaluate_batch(&vec![other]).is_empty());
    assert!(engine.states().is_empty());
}

#[test]
fn disabled_detection_evaluates_nothing() {
    let mut engine = AnomalyEngine::new(&AnomalyConfig {
        enabled: false,
        ..test_config()
    });
    assert!(engine.evaluate_batch(&vec![metric(0, 99.0)]).is_empty());
}

#[test]
fn restored_states_resume_detection() {
    let mut first = AnomalyEngine::new(&test_config());
    first.evaluate_batch(&vec![metric(0, 91.0)]);
    first.evaluate_batch(&vec![metric(5, 92.0)]);
    let saved = first.states();
    assert_eq!(saved.len(), 1);

    let mut second = AnomalyEngine::new(&test_config());
    for (key, state) in saved {
        second.restore(key, state);
    }
    let third = second.evaluate_batch(&vec![metric(10, 93.0)]);
    assert_eq!(third[0].transition, Transition::Open);
}

#[test]
fn severities_and_phases_round_trip_through_their_names() {
    assert_eq!(Severity::parse(Severity::Critical.as_str()), Some(Severity::Critical));
    assert_eq!(Severity::parse("fatal"), None);
    assert_eq!(Phase::parse(Phase::Recovering.as_str()), Some(Phase::Recovering));
    assert_eq!(
        parse_optional_severity(Some("bogus")),
        Err(StorageError::InvalidSeverity)
    );
    assert_eq!(parse_optional_severity(None), Ok(None));
    let mut engine = AnomalyEngine::new(&test_config());
    let evaluation = engine.evaluate_batch(&vec![metric(0, 91.0)]);
    assert!(decode_state("pending", Some("warning"), None, evaluation[0].state).is_ok());
    assert!(decode_state("sleeping", None, None, evaluation[0].state).is_err());
}

#[test]
fn storage_windows_saturate() {
    assert_eq!(prelude_start_ms(600_000, 5), 300_000);
    assert_eq!(prelude_start_ms(i64::MIN + 5, 5), i64::MIN);
    assert_eq!(
        closed_event_cutoff_ms(400 * 86_400_000, 365),
        35 * 86_400_000
    );
    assert_eq!(
        evidence_kind(Transition::Close, true, true),
        Some(EvidenceKind::Recovery)
    );
    assert_eq!(evidence_kind(Transition::NoChange, false, false), None);
}
