use eventhorizon::telemetry::{label, metric_name, TelemetryError, DEFAULT_LOG_FILTER};

#[test]
fn metric_name_constants_are_stable() {
    assert_eq!(metric_name::INTENT_LATENCY_MS, "eh_intent_latency_ms");
    assert_eq!(metric_name::INTENT_COUNT, "eh_intent_count_total");
    assert_eq!(metric_name::INTENT_ERROR_COUNT, "eh_intent_error_count_total");
}

#[test]
fn label_constants_are_stable() {
    assert_eq!(label::ENTITY, "entity");
    assert_eq!(label::ACTION, "action");
    assert_eq!(label::OUTCOME, "outcome");
    assert_eq!(label::CODE, "code");
}

#[test]
fn telemetry_error_messages() {
    assert_eq!(DEFAULT_LOG_FILTER, "info,eh=debug");
    assert_eq!(
        TelemetryError::InvalidFilter("eh=loud".into(), "bad level".into()).message(),
        "invalid log filter \"eh=loud\": bad level"
    );
    assert_eq!(TelemetryError::TracingInit("taken".into()).message(), "tracing subscriber init failed: taken");
}
