use securenotify_sdk::client::{create_client, create_client_with_defaults, SecureNotifyClient};
use securenotify_sdk::errors::SecureNotifyError;
use securenotify_sdk::http::{join_url, response_outcome};
use securenotify_sdk::strutil::{bytes_to_hex, u64_to_string};
use securenotify_sdk::types::ConnectionState;

#[test]
fn test_client_builder() {
    let client = SecureNotifyClient::builder()
        .base_url("https://api.example.com".to_string())
        .api_key("test-key".to_string())
        .timeout(10000)
        .max_retries(2)
        .build();

    assert!(client.is_ok());
    let client = client.unwrap();
    assert_eq!(client.base_url(), "https://api.example.com");
}

#[test]
fn test_client_builder_without_api_key() {
    let client = SecureNotifyClient::builder()
        .base_url("https://api.example.com".to_string())
        .build();

    assert!(client.is_err());
    match client {
        Err(SecureNotifyError::AuthError(msg)) => {
            assert!(msg.contains("API key"));
        }
        _ => panic!("Expected AuthError"),
    }
}

#[test]
fn create_client_helpers_validate_the_key() {
    let c = create_client("https://example.org".to_string(), "k".to_string()).unwrap();
    assert_eq!(c.base_url(), "https://example.org");
    assert!(create_client_with_defaults(String::new()).is_err());
    let c = create_client_with_defaults("k".to_string()).unwrap();
    assert_eq!(c.base_url(), "https://api.securenotify.dev");
    assert_eq!(c.connection_state(), ConnectionState::Disconnected);
}

#[test]
fn masked_key_hides_the_middle() {
    let c = SecureNotifyClient::new("https://x".to_string(), "abcd123456wxyz".to_string());
    assert_eq!(c.api_key_masked(), "abcd...wxyz");
    let c = SecureNotifyClient::new("https://x".to_string(), "short".to_string());
    assert_eq!(c.api_key_masked(), "***");
}

#[test]
fn join_url_collapses_slashes() {
    assert_eq!(join_url("https://api.example.com/", "/api/keys"), "https://api.example.com/api/keys");
    assert_eq!(join_url("https://api.example.com", "api/keys"), "https://api.example.com/api/keys");
    assert_eq!(join_url("https://api.example.com//", "///api"), "https://api.example.com/api");
}

#[test]
fn response_outcome_classifies_statuses() {
    assert_eq!(response_outcome(200, "body".to_string()), Ok("body".to_string()));
    assert!(response_outcome(204, String::new()).is_ok());
    match response_outcome(404, "missing".to_string()) {
        Err(SecureNotifyError::ApiError { code, message, status }) => {
            assert_eq!(code, "404");
            assert_eq!(message, "missing");
            assert_eq!(status, 404);
        }
        _ => panic!("a 404 must become an ApiError"),
    }
    assert!(response_outcome(500, String::new()).is_err());
    assert!(response_outcome(199, String::new()).is_err());
    assert!(response_outcome(300, String::new()).is_err());
}

#[test]
fn decimal_rendering_is_plain() {
    assert_eq!(u64_to_string(0), "0");
    assert_eq!(u64_to_string(7), "7");
    assert_eq!(u64_to_string(1234567890), "1234567890");
    assert_eq!(u64_to_string(u64::MAX), "18446744073709551615");
}

#[test]
fn hex_rendering_is_two_lowercase_digits_per_byte() {
    assert_eq!(bytes_to_hex(&vec![]), "");
    assert_eq!(bytes_to_hex(&vec![0x00, 0xff, 0x1a]), "00ff1a");
    assert_eq!(bytes_to_hex(&vec![0xab, 0xcd, 0xef]), "abcdef");
}
