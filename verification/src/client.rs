//! The client handle and its builder: identity, credential handling, and
//! the validation performed when a client is assembled.

use vstd::prelude::*;
use vstd::string::StrSliceExecFns;
use vstd::string::StringExecFns;
use crate::errors::SecureNotifyError;
use crate::types::ConnectionState;

verus! {

/// A handle on the notification service: the address called, the
/// credential attached to every call.
#[derive(Debug, Clone)]
pub struct SecureNotifyClient {
    pub base_url: String,
    pub api_key: String,
    pub timeout_ms: u64,
    pub max_retries: u32,
    pub initial_delay_ms: u64,
    pub max_delay_ms: u64,
    pub backoff_multiplier_percent: u32,
}

/// The masked rendering of a credential: long keys keep their first and
/// last four characters around an ellipsis; short ones are fully hidden.
pub open spec fn spec_masked_key(key: Seq<char>) -> Seq<char> {
    if key.len() > 8 {
        key.subrange(0, 4) + "..."@ + key.subrange(key.len() - 4, key.len() as int)
    } else {
        "***"@
    }
}

impl SecureNotifyClient {
    pub fn new(base_url: String, api_key: String) -> (r: Self)
        ensures
            r.base_url@ == base_url@,
            r.api_key@ == api_key@,
            r.timeout_ms == 30000,
            r.max_retries == 3,
            r.initial_delay_ms == 1000,
            r.max_delay_ms == 30000,
            r.backoff_multiplier_percent == 200,
    {
        SecureNotifyClient {
            base_url,
            api_key,
            timeout_ms: 30000,
            max_retries: 3,
            initial_delay_ms: 1000,
            max_delay_ms: 30000,
            backoff_multiplier_percent: 200,
        }
    }

    pub fn builder() -> (r: ClientBuilder)
        ensures
            r.base_url@ == "https://api.securenotify.dev"@,
            r.api_key@ == Seq::<char>::empty(),
            r.spec_has_defaults(),
    {
        ClientBuilder::new()
    }

    pub fn base_url(&self) -> (r: String)
        ensures
            r@ == self.base_url@,
    {
        self.base_url.clone()
    }

    /// The credential in masked form, safe to log.
    pub fn api_key_masked(&self) -> (r: String)
        ensures
            r@ == spec_masked_key(self.api_key@),
    {
        let key = self.api_key.as_str();
        let n: usize = key.unicode_len();
        if n > 8 {
            let head = key.substring_char(0, 4);
            let tail = key.substring_char(n - 4, n);
            head.to_owned().concat("...").concat(tail)
        } else {
            String::from_str("***")
        }
    }

    /// The plain client keeps no stream open.
    pub fn connection_state(&self) -> (r: ConnectionState)
        ensures
            r == ConnectionState::Disconnected,
    {
        ConnectionState::Disconnected
    }
}

/// Assembles a client, validating what must be present.
#[derive(Debug, Clone)]
pub struct ClientBuilder {
    pub base_url: String,
    pub api_key: String,
    pub timeout_ms: u64,
    pub max_retries: u32,
    pub initial_delay_ms: u64,
    pub max_delay_ms: u64,
    pub backoff_multiplier_percent: u32,
}

impl ClientBuilder {
    /// Whether a builder carries the stock numeric settings.
    pub open spec fn spec_has_defaults(self) -> bool {
        self.timeout_ms == 30000 && self.max_retries == 3 && self.initial_delay_ms == 1000
            && self.max_delay_ms == 30000 && self.backoff_multiplier_percent == 200
    }

    pub fn new() -> (r: Self)
        ensures
            r.base_url@ == "https://api.securenotify.dev"@,
            r.api_key@ == Seq::<char>::empty(),
            r.spec_has_defaults(),
    {
        ClientBuilder {
            base_url: String::from_str("https://api.securenotify.dev"),
            api_key: String::new(),
            timeout_ms: 30000,
            max_retries: 3,
            initial_delay_ms: 1000,
            max_delay_ms: 30000,
            backoff_multiplier_percent: 200,
        }
    }

    pub fn base_url(self, base_url: String) -> (r: Self)
        ensures
            r == (ClientBuilder { base_url, ..self }),
    {
        ClientBuilder { base_url, ..self }
    }

    pub fn api_key(self, api_key: String) -> (r: Self)
        ensures
            r == (ClientBuilder { api_key, ..self }),
    {
        ClientBuilder { api_key, ..self }
    }

    pub fn timeout(self, timeout_ms: u64) -> (r: Self)
        ensures
            r == (ClientBuilder { timeout_ms, ..self }),
    {
        ClientBuilder { timeout_ms, ..self }
    }

    pub fn max_retries(self, max_retries: u32) -> (r: Self)
        ensures
            r == (ClientBuilder { max_retries, ..self }),
    {
        ClientBuilder { max_retries, ..self }
    }

    pub fn initial_delay_ms(self, initial_delay_ms: u64) -> (r: Self)
        ensures
            r == (ClientBuilder { initial_delay_ms, ..self }),
    {
        ClientBuilder { initial_delay_ms, ..self }
    }

    pub fn max_delay_ms(self, max_delay_ms: u64) -> (r: Self)
        ensures
            r == (ClientBuilder { max_delay_ms, ..self }),
    {
        ClientBuilder { max_delay_ms, ..self }
    }

    pub fn backoff_multiplier(self, backoff_multiplier_percent: u32) -> (r: Self)
        ensures
            r == (ClientBuilder { backoff_multiplier_percent, ..self }),
    {
        ClientBuilder { backoff_multiplier_percent, ..self }
    }

    /// Assemble the client. A missing credential is an authentication
    /// error; everything else passes through unchanged.
    pub fn build(self) -> (r: Result<SecureNotifyClient, SecureNotifyError>)
        ensures
            self.api_key@.len() == 0 ==> (r matches Err(e) && e matches
                SecureNotifyError::AuthError(m) && m@ == "API key is required"@),
            self.api_key@.len() > 0 ==> (r matches Ok(c) && c == (SecureNotifyClient {
                base_url: self.base_url,
                api_key: self.api_key,
                timeout_ms: self.timeout_ms,
                max_retries: self.max_retries,
                initial_delay_ms: self.initial_delay_ms,
                max_delay_ms: self.max_delay_ms,
                backoff_multiplier_percent: self.backoff_multiplier_percent,
            })),
    {
        if self.api_key.as_str().unicode_len() == 0 {
            Err(SecureNotifyError::AuthError(String::from_str("API key is required")))
        } else {
            Ok(
                SecureNotifyClient {
                    base_url: self.base_url,
                    api_key: self.api_key,
                    timeout_ms: self.timeout_ms,
                    max_retries: self.max_retries,
                    initial_delay_ms: self.initial_delay_ms,
                    max_delay_ms: self.max_delay_ms,
                    backoff_multiplier_percent: self.backoff_multiplier_percent,
                },
            )
        }
    }
}

impl Default for ClientBuilder {
    fn default() -> (r: Self)
        ensures
            r.base_url@ == "https://api.securenotify.dev"@,
            r.api_key@ == Seq::<char>::empty(),
            r.spec_has_defaults(),
    {
        ClientBuilder::new()
    }
}

/// Assemble a client from an address and a credential, with the stock
/// settings.
pub fn create_client(base_url: String, api_key: String) -> (r: Result<
    SecureNotifyClient,
    SecureNotifyError,
>)
    ensures
        api_key@.len() == 0 ==> (r matches Err(e) && e matches SecureNotifyError::AuthError(m)
            && m@ == "API key is required"@),
        api_key@.len() > 0 ==> (r matches Ok(c) && c.base_url@ == base_url@ && c.api_key@
            == api_key@ && c.timeout_ms == 30000 && c.max_retries == 3),
{
    SecureNotifyClient::builder().base_url(base_url).api_key(api_key).build()
}

/// Assemble a client for the stock service address.
pub fn create_client_with_defaults(api_key: String) -> (r: Result<
    SecureNotifyClient,
    SecureNotifyError,
>)
    ensures
        api_key@.len() == 0 ==> (r matches Err(e) && e matches SecureNotifyError::AuthError(m)
            && m@ == "API key is required"@),
        api_key@.len() > 0 ==> (r matches Ok(c) && c.base_url@ == "https://api.securenotify.dev"@
            && c.api_key@ == api_key@),
{
    create_client(String::from_str("https://api.securenotify.dev"), api_key)
}

} // verus!
