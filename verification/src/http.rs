//! The request-pipeline pieces every HTTP call shares: configuration,
//! URL joining, and the classification of a response into a payload or an
//! API error. The transport itself lives with the surrounding I/O layer.

use vstd::prelude::*;
use vstd::string::StringExecFns;
use crate::errors::SecureNotifyError;
use crate::strutil::{
    spec_dec, spec_trim_end_char, spec_trim_start_char, trim_end_char, trim_start_char,
    u64_to_string,
};

verus! {

/// Configuration of the HTTP client: where to call, the credential, and
/// the retry policy attached to every request. Durations are in
/// milliseconds and the backoff multiplier in percent.
#[derive(Debug, Clone)]
pub struct HttpClientConfig {
    pub base_url: String,
    pub api_key: String,
    pub timeout_ms: u64,
    pub max_retries: u32,
    pub initial_delay_ms: u64,
    pub max_delay_ms: u64,
    pub backoff_multiplier_percent: u32,
}

impl HttpClientConfig {
    /// The stock configuration: thirty-second timeout, three retries,
    /// delays growing from one second by a factor of two up to thirty
    /// seconds.
    pub fn new(base_url: String, api_key: String) -> (r: Self)
        ensures
            r.base_url@ == base_url@,
            r.api_key@ == api_key@,
            r.timeout_ms == 30000,
            r.max_retries == 3,
            r.initial_delay_ms == 1000,
            r.max_delay_ms == 30000,
            r.backoff_multiplier_percent == 200,
    {
        HttpClientConfig {
            base_url,
            api_key,
            timeout_ms: 30000,
            max_retries: 3,
            initial_delay_ms: 1000,
            max_delay_ms: 30000,
            backoff_multiplier_percent: 200,
        }
    }
}

/// The URL of an endpoint under a base: extra slashes between the two are
/// collapsed to exactly one.
pub open spec fn spec_join_url(base: Seq<char>, endpoint: Seq<char>) -> Seq<char> {
    spec_trim_end_char(base, '/') + "/"@ + spec_trim_start_char(endpoint, '/')
}

/// Join a base URL and an endpoint path with exactly one slash.
pub fn join_url(base: &str, endpoint: &str) -> (r: String)
    ensures
        r@ == spec_join_url(base@, endpoint@),
{
    let mut out: String = trim_end_char(base, '/');
    out.append("/");
    let tail: String = trim_start_char(endpoint, '/');
    out.append(tail.as_str());
    out
}

/// Whether an HTTP status is a success.
pub open spec fn spec_is_success_status(status: u16) -> bool {
    200 <= status < 300
}

/// Classify a response: a success status passes the body through, and
/// any other status becomes an `ApiError` carrying the status, its
/// decimal rendering as the code, and the body as the message.
pub fn response_outcome(status: u16, body: String) -> (r: Result<String, SecureNotifyError>)
    ensures
        spec_is_success_status(status) ==> r == Ok::<String, SecureNotifyError>(body),
        !spec_is_success_status(status) ==> (r matches Err(e) && e matches
            SecureNotifyError::ApiError { code, message, status: st } && code@ == spec_dec(
            status as nat,
        ) && message == body && st == status),
{
    if 200 <= status && status < 300 {
        Ok(body)
    } else {
        Err(
            SecureNotifyError::ApiError {
                code: u64_to_string(status as u64),
                message: body,
                status,
            },
        )
    }
}

} // verus!
