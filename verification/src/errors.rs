//! The SDK's error taxonomy and the retryability rule shared by the retry
//! engine and the streaming connection manager.

use vstd::prelude::*;
use vstd::string::StringExecFns;

verus! {

/// Every failure the SDK reports, classified by kind. Retryability is a
/// pure function of this classification (see [`spec_is_retryable`]).
#[derive(Debug, PartialEq, Eq)]
pub enum SecureNotifyError {
    ApiError { code: String, message: String, status: u16 },
    NetworkError(String),
    ConnectionError(String),
    TimeoutError(String),
    SerializationError(String),
    AuthError(String),
    Unknown(String),
}

impl Clone for SecureNotifyError {
    fn clone(&self) -> (r: Self)
        ensures
            r == *self,
    {
        match self {
            SecureNotifyError::ApiError { code, message, status } => SecureNotifyError::ApiError {
                code: code.clone(),
                message: message.clone(),
                status: *status,
            },
            SecureNotifyError::NetworkError(m) => SecureNotifyError::NetworkError(m.clone()),
            SecureNotifyError::ConnectionError(m) => SecureNotifyError::ConnectionError(m.clone()),
            SecureNotifyError::TimeoutError(m) => SecureNotifyError::TimeoutError(m.clone()),
            SecureNotifyError::SerializationError(m) => SecureNotifyError::SerializationError(
                m.clone(),
            ),
            SecureNotifyError::AuthError(m) => SecureNotifyError::AuthError(m.clone()),
            SecureNotifyError::Unknown(m) => SecureNotifyError::Unknown(m.clone()),
        }
    }
}

impl SecureNotifyError {
    /// The machine-readable code of an error: the server's code for an API
    /// error, and a fixed kind prefix followed by the message otherwise.
    pub open spec fn spec_code(self) -> Seq<char> {
        match self {
            SecureNotifyError::ApiError { code, .. } => code@,
            SecureNotifyError::NetworkError(m) => "NETWORK_ERROR: "@ + m@,
            SecureNotifyError::ConnectionError(m) => "CONNECTION_ERROR: "@ + m@,
            SecureNotifyError::TimeoutError(m) => "TIMEOUT_ERROR: "@ + m@,
            SecureNotifyError::SerializationError(m) => "SERIALIZATION_ERROR: "@ + m@,
            SecureNotifyError::AuthError(m) => "AUTH_ERROR: "@ + m@,
            SecureNotifyError::Unknown(m) => "UNKNOWN_ERROR: "@ + m@,
        }
    }

    /// The human-readable description of an error.
    pub open spec fn spec_message(self) -> Seq<char> {
        match self {
            SecureNotifyError::ApiError { code, message, .. } => "API error: "@ + code@ + " - "@
                + message@,
            SecureNotifyError::NetworkError(m) => "Network error: "@ + m@,
            SecureNotifyError::ConnectionError(m) => "Connection error: "@ + m@,
            SecureNotifyError::TimeoutError(m) => "Timeout error: "@ + m@,
            SecureNotifyError::SerializationError(m) => "Serialization error: "@ + m@,
            SecureNotifyError::AuthError(m) => "Authentication error: "@ + m@,
            SecureNotifyError::Unknown(m) => "Unknown error: "@ + m@,
        }
    }

    /// The HTTP status attached to an API error; other kinds carry none.
    pub open spec fn spec_status(self) -> u16 {
        match self {
            SecureNotifyError::ApiError { status, .. } => status,
            _ => 0,
        }
    }

    pub fn api_error(code: String, message: String, status: u16) -> (r: Self)
        ensures
            r == (SecureNotifyError::ApiError { code, message, status }),
    {
        SecureNotifyError::ApiError { code, message, status }
    }

    pub fn network_error(message: String) -> (r: Self)
        ensures
            r == SecureNotifyError::NetworkError(message),
    {
        SecureNotifyError::NetworkError(message)
    }

    pub fn connection_error(message: String) -> (r: Self)
        ensures
            r == SecureNotifyError::ConnectionError(message),
    {
        SecureNotifyError::ConnectionError(message)
    }

    pub fn timeout_error(message: String) -> (r: Self)
        ensures
            r == SecureNotifyError::TimeoutError(message),
    {
        SecureNotifyError::TimeoutError(message)
    }

    pub fn serialization_error(message: String) -> (r: Self)
        ensures
            r == SecureNotifyError::SerializationError(message),
    {
        SecureNotifyError::SerializationError(message)
    }

    pub fn auth_error(message: String) -> (r: Self)
        ensures
            r == SecureNotifyError::AuthError(message),
    {
        SecureNotifyError::AuthError(message)
    }

    pub fn code(&self) -> (r: String)
        ensures
            r@ == self.spec_code(),
    {
        match self {
            SecureNotifyError::ApiError { code, .. } => code.clone(),
            SecureNotifyError::NetworkError(m) => String::from_str("NETWORK_ERROR: ").concat(
                m.as_str(),
            ),
            SecureNotifyError::ConnectionError(m) => String::from_str("CONNECTION_ERROR: ").concat(
                m.as_str(),
            ),
            SecureNotifyError::TimeoutError(m) => String::from_str("TIMEOUT_ERROR: ").concat(
                m.as_str(),
            ),
            SecureNotifyError::SerializationError(m) => String::from_str(
                "SERIALIZATION_ERROR: ",
            ).concat(m.as_str()),
            SecureNotifyError::AuthError(m) => String::from_str("AUTH_ERROR: ").concat(m.as_str()),
            SecureNotifyError::Unknown(m) => String::from_str("UNKNOWN_ERROR: ").concat(m.as_str()),
        }
    }

    pub fn message(&self) -> (r: String)
        ensures
            r@ == self.spec_message(),
    {
        match self {
            SecureNotifyError::ApiError { code, message, .. } => String::from_str(
                "API error: ",
            ).concat(code.as_str()).concat(" - ").concat(message.as_str()),
            SecureNotifyError::NetworkError(m) => String::from_str("Network error: ").concat(
                m.as_str(),
            ),
            SecureNotifyError::ConnectionError(m) => String::from_str("Connection error: ").concat(
                m.as_str(),
            ),
            SecureNotifyError::TimeoutError(m) => String::from_str("Timeout error: ").concat(
                m.as_str(),
            ),
            SecureNotifyError::SerializationError(m) => String::from_str(
                "Serialization error: ",
            ).concat(m.as_str()),
            SecureNotifyError::AuthError(m) => String::from_str("Authentication error: ").concat(
                m.as_str(),
            ),
            SecureNotifyError::Unknown(m) => String::from_str("Unknown error: ").concat(m.as_str()),
        }
    }

    pub fn status(&self) -> (r: u16)
        ensures
            r == self.spec_status(),
    {
        match self {
            SecureNotifyError::ApiError { status, .. } => *status,
            _ => 0,
        }
    }

    pub fn is_api_error(&self) -> (r: bool)
        ensures
            r == (self is ApiError),
    {
        match self {
            SecureNotifyError::ApiError { .. } => true,
            _ => false,
        }
    }

    pub fn is_network_error(&self) -> (r: bool)
        ensures
            r == (self is NetworkError),
    {
        match self {
            SecureNotifyError::NetworkError(_) => true,
            _ => false,
        }
    }
}

/// Errors raised by the endpoint manager layer, one variant per manager.
#[derive(Debug, Clone)]
pub enum ManagerError {
    KeyManager(String),
    ChannelManager(String),
    PublishManager(String),
    SubscribeManager(String),
    ApiKeyManager(String),
}

impl ManagerError {
    /// The payload carried by any variant.
    pub open spec fn spec_payload(self) -> Seq<char> {
        match self {
            ManagerError::KeyManager(m) => m@,
            ManagerError::ChannelManager(m) => m@,
            ManagerError::PublishManager(m) => m@,
            ManagerError::SubscribeManager(m) => m@,
            ManagerError::ApiKeyManager(m) => m@,
        }
    }

    /// The API error code each manager's failures surface under.
    pub open spec fn spec_code(self) -> Seq<char> {
        match self {
            ManagerError::KeyManager(_) => "KEY_MANAGER_ERROR"@,
            ManagerError::ChannelManager(_) => "CHANNEL_MANAGER_ERROR"@,
            ManagerError::PublishManager(_) => "PUBLISH_MANAGER_ERROR"@,
            ManagerError::SubscribeManager(_) => "SUBSCRIBE_MANAGER_ERROR"@,
            ManagerError::ApiKeyManager(_) => "API_KEY_MANAGER_ERROR"@,
        }
    }

    /// A manager error surfaces as an `ApiError` with status 500, the
    /// manager's fixed code, and the original payload as the message.
    pub fn into_error(self) -> (r: SecureNotifyError)
        ensures
            r is ApiError,
            r->code@ == self.spec_code(),
            r->message@ == self.spec_payload(),
            r->status == 500,
    {
        match self {
            ManagerError::KeyManager(m) => SecureNotifyError::ApiError {
                code: String::from_str("KEY_MANAGER_ERROR"),
                message: m,
                status: 500,
            },
            ManagerError::ChannelManager(m) => SecureNotifyError::ApiError {
                code: String::from_str("CHANNEL_MANAGER_ERROR"),
                message: m,
                status: 500,
            },
            ManagerError::PublishManager(m) => SecureNotifyError::ApiError {
                code: String::from_str("PUBLISH_MANAGER_ERROR"),
                message: m,
                status: 500,
            },
            ManagerError::SubscribeManager(m) => SecureNotifyError::ApiError {
                code: String::from_str("SUBSCRIBE_MANAGER_ERROR"),
                message: m,
                status: 500,
            },
            ManagerError::ApiKeyManager(m) => SecureNotifyError::ApiError {
                code: String::from_str("API_KEY_MANAGER_ERROR"),
                message: m,
                status: 500,
            },
        }
    }
}

/// HTTP status codes on which a request is worth retrying.
pub open spec fn spec_is_retryable_status(status: u16) -> bool {
    status == 429 || status == 500 || status == 502 || status == 503 || status == 504
}

/// Retryable error kinds: transport-level failures, and API errors whose
/// status is itself retryable. Authentication, serialization and unknown
/// failures fail fast.
pub open spec fn spec_is_retryable(error: SecureNotifyError) -> bool {
    match error {
        SecureNotifyError::NetworkError(_) => true,
        SecureNotifyError::ConnectionError(_) => true,
        SecureNotifyError::TimeoutError(_) => true,
        SecureNotifyError::ApiError { status, .. } => spec_is_retryable_status(status),
        _ => false,
    }
}

pub fn is_retryable_status(status: u16) -> (r: bool)
    ensures
        r == spec_is_retryable_status(status),
{
    status == 429 || status == 500 || status == 502 || status == 503 || status == 504
}

pub fn is_retryable_error(error: &SecureNotifyError) -> (r: bool)
    ensures
        r == spec_is_retryable(*error),
{
    match error {
        SecureNotifyError::NetworkError(_) => true,
        SecureNotifyError::ConnectionError(_) => true,
        SecureNotifyError::TimeoutError(_) => true,
        SecureNotifyError::ApiError { status, .. } => is_retryable_status(*status),
        _ => false,
    }
}

} // verus!
