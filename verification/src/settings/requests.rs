//! The bodies that setup and settings requests carry.
use crate::config::SearchFormat;
use crate::json::FiniteFloat;
use crate::text::{is_empty, trim, trimmed};
use vstd::prelude::*;

verus! {

/// The first-run claim.
#[derive(Debug)]
pub struct SetupReq {
    pub username: String,
    pub password: String,
    pub base_url: Option<String>,
    pub nim_keys: Vec<SetupKey>,
    /// Mint a first client key with the claim, so that a fresh keyed-mode
    /// proxy can serve `/v1` at once.
    pub create_client_key: Option<CreateClientKey>,
}

#[derive(Debug)]
pub struct CreateClientKey {
    pub name: String,
}

#[derive(Debug)]
pub struct SetupKey {
    pub key: String,
    pub rpm: Option<usize>,
}

/// The claim as a native form sends it: a tiny projection of [`SetupReq`].
#[derive(Debug)]
pub struct NoScriptSetupForm {
    pub username: String,
    pub password: String,
    pub base_url: Option<String>,
    pub nim_key: Option<String>,
    pub nim_rpm: Option<usize>,
}

impl NoScriptSetupForm {
    /// The claim the form makes. A blank key field brings no key. The form is
    /// answered by a redirect, which has no body to show a secret in, so it
    /// never asks for a client key.
    pub fn into_request(self) -> (r: SetupReq)
        ensures
            r.username@ == self.username@,
            r.password@ == self.password@,
            r.base_url == self.base_url,
            r.create_client_key is None,
            match self.nim_key {
                Some(key) => if trimmed(key@).len() == 0 {
                    r.nim_keys@.len() == 0
                } else {
                    r.nim_keys@.len() == 1 && r.nim_keys@[0].key@ == key@ && r.nim_keys@[0].rpm
                        == self.nim_rpm
                },
                None => r.nim_keys@.len() == 0,
            },
    {
        let mut nim_keys: Vec<SetupKey> = Vec::new();
        if let Some(key) = self.nim_key {
            if !is_empty(trim(&key)) {
                nim_keys.push(SetupKey { key, rpm: self.nim_rpm });
            }
        }
        SetupReq {
            username: self.username,
            password: self.password,
            base_url: self.base_url,
            nim_keys,
            create_client_key: None,
        }
    }
}

/// A key probe.
#[derive(Debug)]
pub struct ValidateKeyReq {
    /// The NIM key to probe.
    pub key: String,
    /// Only the probe before setup honours it.
    pub base_url: Option<String>,
}

/// Exactly one of `add` / `remove` / `set` per request.
#[derive(Debug)]
pub struct NimKeysReq {
    pub add: Option<AddNimKey>,
    /// Fingerprint of the key to remove.
    pub remove: Option<String>,
    pub set: Option<SetNimKey>,
}

#[derive(Debug)]
pub struct AddNimKey {
    pub key: String,
    /// Requests per minute for this key's lane; 40 where absent.
    pub rpm: Option<usize>,
}

#[derive(Debug)]
pub struct SetNimKey {
    pub fingerprint: String,
    pub enabled: Option<bool>,
    pub rpm: Option<usize>,
}

/// Exactly one of `add` / `remove` / `mode` per request.
#[derive(Debug)]
pub struct ClientsReq {
    pub add: Option<AddClient>,
    /// Name of the client key to revoke.
    pub remove: Option<String>,
    /// `open` or `keyed`: whether `/v1` requires a client key.
    pub mode: Option<String>,
}

#[derive(Debug)]
pub struct AddClient {
    pub name: String,
}

#[derive(Debug)]
pub struct UpstreamReq {
    pub base_url: String,
}

/// Every limit at once: a partial body is refused, never a silent reset of
/// the omitted ones.
#[derive(Clone, Copy, Debug)]
pub struct LimitsReq {
    pub max_wait_secs: u64,
    pub heartbeat_secs: u64,
    pub models_ttl_secs: u64,
    pub stream_idle_secs: u64,
    pub request_timeout_secs: u64,
    pub max_inflight: usize,
    pub strict_passthrough: bool,
}

/// The Server form's one complete payload.
#[derive(Debug)]
pub struct ServerReq {
    pub base_url: String,
    pub limits: LimitsReq,
}

#[derive(Clone, Copy, Debug)]
pub struct HistoryReq {
    /// Retention in days; 0 keeps it forever.
    pub days: u64,
    pub default_window_days: u64,
    pub slo_target_percent: FiniteFloat,
}

/// The fields are independent; omitted ones are left alone.
#[derive(Debug)]
pub struct GovernorReq {
    pub enabled: Option<bool>,
    pub set_override: Option<GovernorOverride>,
    /// Model whose pinned cap to drop.
    pub remove_override: Option<String>,
}

#[derive(Debug)]
pub struct GovernorOverride {
    pub model: String,
    pub cap: usize,
}

/// The complete `web_search` provider section.
#[derive(Debug)]
pub struct WebSearchReq {
    pub base_url: String,
    pub format: SearchFormat,
    pub max_results: u8,
    pub timeout_secs: u64,
}

/// Exactly one of `add` / `remove` / `reset_password` / `set_role`.
#[derive(Debug)]
pub struct UsersReq {
    pub add: Option<AddUser>,
    /// User to delete. Their NIM keys leave the pool and their client keys
    /// are revoked.
    pub remove: Option<String>,
    pub reset_password: Option<ResetPassword>,
    pub set_role: Option<SetRole>,
}

#[derive(Debug)]
pub struct AddUser {
    pub username: String,
    /// At least 10 characters.
    pub password: String,
    /// `admin` or `user`; `superuser` is never assignable.
    pub role: String,
}

#[derive(Debug)]
pub struct ResetPassword {
    pub username: String,
    pub new_password: String,
}

#[derive(Debug)]
pub struct SetRole {
    pub username: String,
    /// `admin` or `user`.
    pub role: String,
}

#[derive(Debug)]
pub struct SetServerLocale {
    pub locale: String,
}

}
