use securenotify_sdk::errors::{is_retryable_error, is_retryable_status, ManagerError, SecureNotifyError};
use securenotify_sdk::types::{ChannelType, ConnectionState, EncryptionAlgorithm, MessagePriority};

#[test]
fn test_message_priority() {
    assert_eq!(MessagePriority::Critical.value(), 100);
    assert_eq!(MessagePriority::High.value(), 75);
    assert_eq!(MessagePriority::Normal.value(), 50);
    assert_eq!(MessagePriority::Low.value(), 25);
    assert_eq!(MessagePriority::Bulk.value(), 0);

    assert_eq!(MessagePriority::from_value(100), MessagePriority::Critical);
    assert_eq!(MessagePriority::from_value(75), MessagePriority::High);
    assert_eq!(MessagePriority::from_value(50), MessagePriority::Normal);
    assert_eq!(MessagePriority::from_value(25), MessagePriority::Low);
    assert_eq!(MessagePriority::from_value(0), MessagePriority::Bulk);
}

#[test]
fn test_channel_type() {
    assert_eq!(ChannelType::Public.as_str(), "public");
    assert_eq!(ChannelType::Encrypted.as_str(), "encrypted");
    assert_eq!(ChannelType::Temporary.as_str(), "temporary");
}

#[test]
fn test_encryption_algorithm() {
    assert_eq!(EncryptionAlgorithm::Rsa2048.as_str(), "RSA-2048");
    assert_eq!(EncryptionAlgorithm::Rsa4096.as_str(), "RSA-4096");
    assert_eq!(
        EncryptionAlgorithm::EccSecp256K1.as_str(),
        "ECC-SECP256K1"
    );
}

#[test]
fn test_connection_state() {
    assert_eq!(ConnectionState::Disconnected.as_str(), "disconnected");
    assert_eq!(ConnectionState::Connecting.as_str(), "connecting");
    assert_eq!(ConnectionState::Connected.as_str(), "connected");
    assert_eq!(ConnectionState::Reconnecting.as_str(), "reconnecting");
}

#[test]
fn test_error_types() {
    let api_error = SecureNotifyError::ApiError {
        code: "INVALID_KEY".to_string(),
        message: "The key is invalid".to_string(),
        status: 400,
    };
    assert!(api_error.is_api_error());
    assert_eq!(api_error.code(), "INVALID_KEY");
    assert_eq!(api_error.status(), 400);

    let network_error = SecureNotifyError::NetworkError("Connection refused".to_string());
    assert!(network_error.is_network_error());
    assert!(network_error.code().starts_with("NETWORK_ERROR"));

    let timeout_error = SecureNotifyError::TimeoutError("Request timed out".to_string());
    assert!(timeout_error.code().starts_with("TIMEOUT_ERROR"));
}

#[test]
fn error_messages_carry_kind_and_payload() {
    let e = SecureNotifyError::ApiError {
        code: "C1".to_string(),
        message: "broke".to_string(),
        status: 500,
    };
    assert_eq!(e.message(), "API error: C1 - broke");
    assert_eq!(
        SecureNotifyError::auth_error("denied".to_string()).message(),
        "Authentication error: denied"
    );
    assert_eq!(
        SecureNotifyError::network_error("down".to_string()).message(),
        "Network error: down"
    );
}

#[test]
fn retryable_statuses_are_exactly_the_five() {
    for status in [429u16, 500, 502, 503, 504] {
        assert!(is_retryable_status(status));
    }
    for status in [200u16, 400, 401, 403, 404, 418, 501, 505] {
        assert!(!is_retryable_status(status));
    }
}

#[test]
fn retryable_errors_by_kind() {
    assert!(is_retryable_error(&SecureNotifyError::network_error("x".to_string())));
    assert!(is_retryable_error(&SecureNotifyError::connection_error("x".to_string())));
    assert!(is_retryable_error(&SecureNotifyError::timeout_error("x".to_string())));
    assert!(is_retryable_error(&SecureNotifyError::api_error("429".to_string(), "x".to_string(), 429)));
    assert!(!is_retryable_error(&SecureNotifyError::api_error("404".to_string(), "x".to_string(), 404)));
    assert!(!is_retryable_error(&SecureNotifyError::auth_error("x".to_string())));
    assert!(!is_retryable_error(&SecureNotifyError::serialization_error("x".to_string())));
    assert!(!is_retryable_error(&SecureNotifyError::Unknown("x".to_string())));
}

#[test]
fn manager_errors_surface_as_api_errors() {
    let e = ManagerError::KeyManager("no such key".to_string()).into_error();
    assert!(e.is_api_error());
    assert_eq!(e.code(), "KEY_MANAGER_ERROR");
    assert_eq!(e.status(), 500);
    let e = ManagerError::PublishManager("queue full".to_string()).into_error();
    assert_eq!(e.code(), "PUBLISH_MANAGER_ERROR");
    assert_eq!(e.message(), "API error: PUBLISH_MANAGER_ERROR - queue full");
}

#[test]
fn error_constructors_round_trip() {
    let e = SecureNotifyError::api_error("X".to_string(), "m".to_string(), 502);
    assert_eq!(e.status(), 502);
    assert!(SecureNotifyError::connection_error("m".to_string()).code().starts_with("CONNECTION_ERROR"));
    assert!(SecureNotifyError::serialization_error("m".to_string()).code().starts_with("SERIALIZATION_ERROR"));
    assert!(SecureNotifyError::auth_error("m".to_string()).code().starts_with("AUTH_ERROR"));
}
