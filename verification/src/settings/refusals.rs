//! The refusals that settings requests share.
use crate::api::{refusal, refuse, OkResponse, Refused, RefusedV};
use crate::config::{Role, StoreV, StoredConfig};
use crate::text::chars_of;
use vstd::prelude::*;

verus! {

/// The least number of characters a password has.
pub const MIN_PASSWORD_CHARS: usize = 10;

/// The caller's user was deleted mid-session.
pub open spec fn stale() -> RefusedV {
    refusal(401, "unauthorized"@, "your user no longer exists"@)
}

/// The caller may not.
pub open spec fn forbidden_for(message: Seq<char>) -> RefusedV {
    refusal(403, "forbidden"@, message)
}

/// The request, or the store it asks for, makes no sense.
pub open spec fn bad(message: Seq<char>) -> RefusedV {
    refusal(400, "invalid_config"@, message)
}

/// The password is too short.
pub open spec fn weak() -> RefusedV {
    refusal(400, "weak_password"@, "password must be at least 10 characters"@)
}

/// Setup is over.
pub open spec fn claimed() -> RefusedV {
    refusal(409, "setup_complete"@, "setup is already complete"@)
}

/// Too many attempts before anyone signed in.
pub open spec fn too_many() -> RefusedV {
    refusal(429, "throttled"@, "too many validation attempts, try again shortly"@)
}

/// The view of what a settings request leads to: the store to commit, or a
/// refusal.
pub open spec fn outcome(r: Result<StoredConfig, Refused>) -> Result<StoreV, RefusedV> {
    match r {
        Ok(c) => Ok(c@),
        Err(e) => Err(e@),
    }
}

/// The role of the user called `name`.
pub open spec fn role_in(store: StoreV, name: Seq<char>) -> Option<Role> {
    match store.user(name) {
        Some(u) => Some(u.role),
        None => None,
    }
}

/// Why the user called `name` may not do what takes an administrator.
pub open spec fn admin_bar(store: StoreV, name: Seq<char>, message: Seq<char>) -> Option<RefusedV> {
    match role_in(store, name) {
        None => Some(stale()),
        Some(role) => if role.admin() {
            None
        } else {
            Some(forbidden_for(message))
        },
    }
}

pub fn stale_session() -> (r: Refused)
    ensures
        r@ == stale(),
{
    refuse(401, "unauthorized", "your user no longer exists")
}

pub fn forbidden(message: &str) -> (r: Refused)
    ensures
        r@ == forbidden_for(message@),
{
    refuse(403, "forbidden", message)
}

pub fn bad_request(message: &str) -> (r: Refused)
    ensures
        r@ == bad(message@),
{
    refuse(400, "invalid_config", message)
}

pub fn weak_password() -> (r: Refused)
    ensures
        r@ == weak(),
{
    refuse(400, "weak_password", "password must be at least 10 characters")
}

pub fn setup_complete() -> (r: Refused)
    ensures
        r@ == claimed(),
{
    refuse(409, "setup_complete", "setup is already complete")
}

pub fn throttled() -> (r: Refused)
    ensures
        r@ == too_many(),
{
    refuse(429, "throttled", "too many validation attempts, try again shortly")
}

/// Whether a password is too short.
pub fn too_short(password: &str) -> (r: bool)
    ensures
        r == (password@.len() < MIN_PASSWORD_CHARS),
{
    chars_of(password).len() < MIN_PASSWORD_CHARS
}

/// The caller's role, or `None` if their user was deleted mid-session.
pub fn role_of(store: &StoredConfig, username: &str) -> (r: Option<Role>)
    ensures
        r == role_in(store@, username@),
{
    match store.user(username) {
        Some(u) => Some(u.role),
        None => None,
    }
}

/// Let administrators pass.
pub fn require_admin(store: &StoredConfig, username: &str, message: &str) -> (r: Result<(), Refused>)
    ensures
        match r {
            Ok(_) => admin_bar(store@, username@, message@) is None,
            Err(e) => admin_bar(store@, username@, message@) == Some(e@),
        },
{
    match role_of(store, username) {
        Some(role) => if role.is_admin() {
            Ok(())
        } else {
            Err(forbidden(message))
        },
        None => Err(stale_session()),
    }
}

/// The uniform "it applied" answer every settings write shares, or why it
/// did not apply.
pub fn answer<T>(committed: Result<T, String>) -> (r: Result<OkResponse, Refused>)
    ensures
        match (committed, r) {
            (Ok(_), Ok(body)) => body.ok,
            (Err(e), Err(refusal)) => refusal@ == bad(e@),
            _ => false,
        },
{
    match committed {
        Ok(_) => Ok(OkResponse::new()),
        Err(e) => Err(bad_request(&e)),
    }
}

}
