//! Request and response payloads of the REST endpoints, as plain data.
//! Serialization lives with the surrounding I/O layer; here the shapes
//! are what the managers and tests work with.

use vstd::prelude::*;

verus! {

/// Response from registering a public key.
#[derive(Debug, Clone)]
pub struct RegisterPublicKeyResponse {
    pub channel_id: String,
    pub created_at: String,
    pub expires_at: Option<String>,
}

/// Response from creating a channel.
#[derive(Debug, Clone)]
pub struct ChannelCreateResponse {
    pub id: String,
    pub name: String,
    pub channel_type: String,
    pub created_at: String,
    pub expires_at: Option<String>,
    pub is_active: bool,
}

/// Request to publish a message.
#[derive(Debug, Clone)]
pub struct MessagePublishRequest {
    pub message: String,
    pub priority: Option<u8>,
    pub sender: Option<String>,
    pub cache: Option<bool>,
    pub encrypted: Option<bool>,
    pub signature: Option<String>,
}

/// Response from publishing a message.
#[derive(Debug, Clone)]
pub struct MessagePublishResponse {
    pub message_id: String,
    pub timestamp: String,
    pub channel: String,
}

/// A stored message.
#[derive(Debug, Clone)]
pub struct MessageInfo {
    pub id: String,
    pub channel: String,
    pub message: String,
    pub encrypted: bool,
    pub created_at: String,
    pub sender: Option<String>,
    pub priority: Option<u8>,
}

/// Request to create an API key.
#[derive(Debug, Clone)]
pub struct ApiKeyCreateRequest {
    pub name: String,
    pub user_id: Option<String>,
    pub permissions: Option<Vec<String>>,
    pub expires_at: Option<String>,
}

/// Response from creating an API key; the full key appears only here.
#[derive(Debug, Clone)]
pub struct ApiKeyCreateResponse {
    pub id: String,
    pub key_prefix: String,
    pub api_key: String,
    pub name: String,
    pub created_at: String,
    pub expires_at: Option<String>,
}

/// A stored API key, without its secret part.
#[derive(Debug, Clone)]
pub struct ApiKeyInfo {
    pub id: String,
    pub key_prefix: String,
    pub name: String,
    pub user_id: Option<String>,
    pub permissions: Option<Vec<String>>,
    pub is_active: bool,
    pub created_at: String,
    pub last_used_at: Option<String>,
    pub expires_at: Option<String>,
}

/// One active subscription.
#[derive(Debug, Clone)]
pub struct SubscriptionInfo {
    pub id: String,
    pub channel_id: String,
    pub started_at: String,
    pub is_active: bool,
}

/// The generic envelope every endpoint answers with.
#[derive(Debug, Clone)]
pub struct ApiResponse<T> {
    pub success: bool,
    pub data: Option<T>,
    pub error: Option<ApiErrorDetails>,
}

/// The error half of an [`ApiResponse`].
#[derive(Debug, Clone)]
pub struct ApiErrorDetails {
    pub code: String,
    pub message: String,
}

} // verus!
