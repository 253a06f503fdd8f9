use native_notify::lifecycle::NotificationState;
use native_notify::{
    DeliveryProgress, LifecycleErrorDetails, LifecycleErrorType, NotificationLifecycle,
    RetryPolicy, TransitionReason,
};

#[test]
fn test_lifecycle_state_transitions() {
    let mut lifecycle = NotificationLifecycle::default();

    assert_eq!(lifecycle.state, NotificationState::Created);

    let result = lifecycle.transition_to(
        NotificationState::Validating,
        TransitionReason::Initial,
        None,
    );
    assert!(result.is_ok());
    assert_eq!(lifecycle.state, NotificationState::Validating);

    let result = lifecycle.transition_to(
        NotificationState::PlatformRouting,
        TransitionReason::ValidationCompleted,
        None,
    );
    assert!(result.is_ok());
    assert_eq!(lifecycle.state, NotificationState::PlatformRouting);

    let result = lifecycle.transition_to(
        NotificationState::Queued,
        TransitionReason::PlatformCapabilitiesResolved,
        None,
    );
    assert!(result.is_ok());
    assert_eq!(lifecycle.state, NotificationState::Queued);
}

#[test]
fn test_retry_policy_backoff() {
    let policy = RetryPolicy::default();

    let first_delay = policy.calculate_next_delay(0);
    let second_delay = policy.calculate_next_delay(1);
    let third_delay = policy.calculate_next_delay(2);

    assert!(second_delay >= first_delay);
    assert!(third_delay >= second_delay);
}

#[test]
fn test_expiration_checking() {
    let mut lifecycle = NotificationLifecycle::default();

    lifecycle.expiration.ttl_millis = Some(60_000);

    assert!(!lifecycle.is_expired());
}

#[test]
fn test_delivery_progress() {
    let lifecycle = NotificationLifecycle::default();

    let progress = lifecycle.delivery_progress();
    assert_eq!(progress, DeliveryProgress::NotStarted);
}

#[test]
fn test_should_retry() {
    let mut lifecycle = NotificationLifecycle::default();

    assert!(!lifecycle.should_retry());

    let error_details = LifecycleErrorDetails {
        error_type: LifecycleErrorType::NetworkError,
        message: "Test error".to_string(),
        retry_count: 0,
        last_attempt: None,
        platform_errors: Vec::new(),
    };

    let _ = lifecycle.transition_to(
        NotificationState::Validating,
        TransitionReason::Initial,
        None,
    );
    let _ = lifecycle.transition_to(
        NotificationState::Failed(error_details),
        TransitionReason::ValidationFailed,
        None,
    );

    assert!(lifecycle.should_retry());
}

#[test]
fn test_state_history_tracking() {
    let mut lifecycle = NotificationLifecycle::default();

    assert!(!lifecycle.state_history.is_empty());

    let _ = lifecycle.transition_to(
        NotificationState::Validating,
        TransitionReason::Initial,
        None,
    );

    assert!(lifecycle.state_history.len() >= 2);
}

#[test]
fn fresh_lifecycle_breaker_defaults() {
    let lifecycle = native_notify::NotificationLifecycle::new();
    assert_eq!(lifecycle.retry_policy.max_attempts, 3);
    assert_eq!(lifecycle.retry_policy.current_attempt, 0);
    assert_eq!(lifecycle.retry_policy.circuit_breaker_threshold, 5);
    assert_eq!(lifecycle.retry_policy.circuit_breaker_timeout_millis, 300_000);
    assert_eq!(lifecycle.expiration.ttl_millis, Some(3_600_000));
}
