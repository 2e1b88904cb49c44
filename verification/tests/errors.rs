use moonrabbit::errors::{
    log_error, ChainApiError, Fault, InvalidCandidate, JaegerError, RecoveryError,
    RuntimeApiError, ValidationError,
};

#[test]
fn jaeger_messages() {
    assert_eq!(JaegerError::AlreadyLaunched.message(), "Already launched the collector thread");
    assert_eq!(JaegerError::MissingConfiguration.message(), "Missing jaeger configuration");
}

#[test]
fn api_errors_display_their_message() {
    let e = RuntimeApiError::from("state unavailable".to_string());
    assert_eq!(e.to_string(), "state unavailable");
    let c = ChainApiError::from("no block".to_string());
    assert_eq!(c.to_string(), "no block");
    assert_eq!(ChainApiError::from_str("no header").to_string(), "no header");
}

#[test]
fn recovery_errors_compare() {
    assert_eq!(RecoveryError::Invalid, RecoveryError::Invalid);
    assert_ne!(RecoveryError::Invalid, RecoveryError::Unavailable);
}

#[test]
fn validation_errors_carry_their_cause() {
    let e = ValidationError::InvalidCandidate(InvalidCandidate::WorkerReportedError("boom".to_string()));
    match e.clone() {
        ValidationError::InvalidCandidate(InvalidCandidate::WorkerReportedError(m)) => assert_eq!(m, "boom"),
        _ => panic!("wrong variant"),
    }
    assert!(matches!(
        ValidationError::InvalidCandidate(InvalidCandidate::HardTimeout),
        ValidationError::InvalidCandidate(InvalidCandidate::HardTimeout)
    ));
    assert!(matches!(ValidationError::InternalError("x".to_string()), ValidationError::InternalError(_)));
    assert!(matches!(InvalidCandidate::AmbigiousWorkerDeath, InvalidCandidate::AmbigiousWorkerDeath));
}

#[test]
fn log_error_eats_non_fatal_errors_only() {
    let ok: Result<(), Fault<&str, u8>> = Ok(());
    assert_eq!(log_error(ok), Ok(()));
    let non_fatal: Result<(), Fault<&str, u8>> = Err(Fault::NonFatal("retry"));
    assert_eq!(log_error(non_fatal), Ok(()));
    let fatal: Result<(), Fault<&str, u8>> = Err(Fault::Fatal(7));
    assert_eq!(log_error(fatal), Err(7));
}

#[test]
fn recovery_errors_print_their_name() {
    assert_eq!(RecoveryError::Invalid.debug_name(), "Invalid");
    assert_eq!(RecoveryError::Unavailable.debug_name(), format!("{:?}", RecoveryError::Unavailable));
}
