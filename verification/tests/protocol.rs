use eventhorizon::artifact::Artifact;
use eventhorizon::protocol::{error_code_name, ErrorCode, ErrorResponse, ResponseEnvelope};

#[test]
fn error_response_constructors() {
    let e = ErrorResponse::new(ErrorCode::InvalidIntent, "missing required field 'entity'".to_string());
    assert_eq!(e.code, ErrorCode::InvalidIntent);
    assert_eq!(e.message, "missing required field 'entity'");
    assert!(e.retry_after_ms.is_none());
    let r = ErrorResponse::with_retry(ErrorCode::RateLimited, "slow down".to_string(), 1500);
    assert_eq!(r.retry_after_ms, Some(1500));
}

#[test]
fn error_code_wire_names_are_snake_case() {
    assert_eq!(error_code_name(ErrorCode::UnknownEntity), "unknown_entity");
    assert_eq!(error_code_name(ErrorCode::OverBudget), "over_budget");
    assert_eq!(error_code_name(ErrorCode::ConnectorError), "connector_error");
}

#[test]
fn response_is_success_or_error() {
    let ok = ResponseEnvelope::Success(Artifact { rows: vec![], source_kind: "mysql".into(), source_id: None });
    assert!(ok.is_success());
    assert!(!ok.is_error());
    let err = ResponseEnvelope::Error(ErrorResponse::new(ErrorCode::Internal, "x".into()));
    assert!(err.is_error());
    assert!(!err.is_success());
}
