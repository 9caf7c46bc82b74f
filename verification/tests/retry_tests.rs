use securenotify_sdk::errors::SecureNotifyError;
use securenotify_sdk::retry::{calculate_backoff, retry_delay_ms, with_retry, RetryConfig, ScriptedOperation};

fn config_no_jitter() -> RetryConfig {
    RetryConfig::new().with_jitter(false)
}

#[test]
fn backoff_grows_exponentially_and_caps() {
    let cfg = config_no_jitter();
    assert_eq!(calculate_backoff(0, &cfg), 1000);
    assert_eq!(calculate_backoff(1, &cfg), 2000);
    assert_eq!(calculate_backoff(2, &cfg), 4000);
    assert_eq!(calculate_backoff(3, &cfg), 8000);
    assert_eq!(calculate_backoff(4, &cfg), 16000);
    assert_eq!(calculate_backoff(5, &cfg), 30000);
    assert_eq!(calculate_backoff(60, &cfg), 30000);
}

#[test]
fn backoff_respects_custom_multiplier() {
    let cfg = RetryConfig::new()
        .with_initial_delay(100)
        .with_max_delay(10000)
        .with_backoff_multiplier(150)
        .with_jitter(false);
    assert_eq!(calculate_backoff(0, &cfg), 100);
    assert_eq!(calculate_backoff(1, &cfg), 150);
    assert_eq!(calculate_backoff(2, &cfg), 225);
    // integer growth floors: 225 * 150 / 100 = 337
    assert_eq!(calculate_backoff(3, &cfg), 337);
}

#[test]
fn backoff_never_exceeds_max_delay() {
    let cfg = RetryConfig::new()
        .with_initial_delay(7000)
        .with_max_delay(9000)
        .with_jitter(false);
    for attempt in 0..40 {
        assert!(calculate_backoff(attempt, &cfg) <= 9000);
    }
}

#[test]
fn jitter_adds_at_most_a_tenth() {
    let cfg = RetryConfig::new().with_jitter(true);
    for attempt in 0..4 {
        let base = calculate_backoff(attempt, &cfg);
        for _ in 0..20 {
            let d = retry_delay_ms(attempt, &cfg);
            assert!(base <= d && d <= base + base / 10);
        }
    }
}

#[test]
fn no_jitter_delay_is_exact() {
    let cfg = config_no_jitter();
    assert_eq!(retry_delay_ms(2, &cfg), 4000);
}

#[test]
fn retry_returns_success_after_retryable_failures() {
    let script = vec![
        Err(SecureNotifyError::network_error("boom".to_string())),
        Err(SecureNotifyError::timeout_error("slow".to_string())),
        Ok("done".to_string()),
    ];
    let mut op = ScriptedOperation::new(script);
    let cfg = RetryConfig::new().with_max_retries(3).with_jitter(false);
    let r = with_retry(&mut op, &cfg);
    assert_eq!(r.unwrap(), "done");
    // exactly three invocations, with attempt indices in order, and one
    // backoff sleep between consecutive attempts
    assert_eq!(op.call_count(), 3);
    assert_eq!(op.attempt_history(), &vec![0, 1, 2]);
    assert_eq!(op.pause_history(), &vec![1000, 2000]);
}

#[test]
fn retry_fails_fast_on_non_retryable_error() {
    let script = vec![
        Err(SecureNotifyError::auth_error("bad key".to_string())),
        Ok("never".to_string()),
    ];
    let mut op = ScriptedOperation::new(script);
    let cfg = RetryConfig::new().with_max_retries(3).with_jitter(false);
    let r = with_retry(&mut op, &cfg);
    match r {
        Err(SecureNotifyError::AuthError(m)) => assert_eq!(m, "bad key"),
        _ => panic!("expected the AuthError back"),
    }
    // a single invocation and no backoff sleep
    assert_eq!(op.attempt_history(), &vec![0]);
    assert_eq!(op.pause_count(), 0);
}

#[test]
fn retry_returns_last_error_when_exhausted() {
    let script = vec![
        Err(SecureNotifyError::network_error("first".to_string())),
        Err(SecureNotifyError::network_error("second".to_string())),
        Err(SecureNotifyError::network_error("third".to_string())),
    ];
    let mut op = ScriptedOperation::new(script);
    let cfg = RetryConfig::new().with_max_retries(2).with_jitter(false);
    let r = with_retry(&mut op, &cfg);
    match r {
        Err(SecureNotifyError::NetworkError(m)) => assert_eq!(m, "third"),
        _ => panic!("expected the last NetworkError back"),
    }
    assert_eq!(op.attempt_history(), &vec![0, 1, 2]);
    assert_eq!(op.pause_count(), 2);
}

#[test]
fn retry_pauses_follow_the_backoff_policy() {
    let script = vec![
        Err(SecureNotifyError::network_error("a".to_string())),
        Err(SecureNotifyError::network_error("b".to_string())),
        Ok("ok".to_string()),
    ];
    let mut op = ScriptedOperation::new(script);
    let cfg = RetryConfig::new().with_jitter(false);
    assert!(with_retry(&mut op, &cfg).is_ok());
    // without jitter the engine sleeps exactly the computed delays
    assert_eq!(op.pause_history(), &vec![1000, 2000]);
}

#[test]
fn retry_respects_retryable_status_codes() {
    let script = vec![
        Err(SecureNotifyError::api_error("503".to_string(), "busy".to_string(), 503)),
        Ok("ok".to_string()),
    ];
    let mut op = ScriptedOperation::new(script);
    let cfg = RetryConfig::new().with_jitter(false);
    assert_eq!(with_retry(&mut op, &cfg).unwrap(), "ok");
    assert_eq!(op.call_count(), 2);

    let script = vec![
        Err(SecureNotifyError::api_error("400".to_string(), "bad".to_string(), 400)),
        Ok("never".to_string()),
    ];
    let mut op = ScriptedOperation::new(script);
    let r = with_retry(&mut op, &cfg);
    assert!(r.is_err());
    assert_eq!(op.call_count(), 1);
}
