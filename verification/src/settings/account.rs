//! What every user may change of their own account, and the server's default
//! locale.
use crate::api::{refusal, refuse, Refused, RefusedV};
use crate::config::{called, find_user, StoreV, StoredConfig, UserV};
use crate::json::{opt_owned, Json, JsonV};
use crate::lists::first_where;
use crate::settings::refusals::{
    admin_bar, outcome, require_admin, stale, stale_session, too_short, weak, weak_password,
    MIN_PASSWORD_CHARS,
};
use crate::settings::sections::SERVER_SETTINGS;
use crate::settings::users::{hash_ticket, HashTicket};
use crate::text::{concat3, opt_text, same};
use vstd::prelude::*;

verus! {

/// An own-password change.
#[derive(Debug)]
pub struct AccountPasswordReq {
    pub current_password: String,
    /// At least 10 characters.
    pub new_password: String,
}

/// What an account request asks for.
#[derive(Debug)]
pub enum AccountBody {
    Password(AccountPasswordReq),
    /// Set the locale preference, or clear it.
    Locale(Option<String>),
    InvalidLocale,
    InvalidAction,
}

/// The view of an [`AccountBody`].
#[verifier::ext_equal]
pub enum AccountBodyV {
    Password { current_password: Seq<char>, new_password: Seq<char> },
    Locale(Option<Seq<char>>),
    InvalidLocale,
    InvalidAction,
}

impl View for AccountBody {
    type V = AccountBodyV;

    open spec fn view(&self) -> AccountBodyV {
        match *self {
            AccountBody::Password(req) => AccountBodyV::Password {
                current_password: req.current_password@,
                new_password: req.new_password@,
            },
            AccountBody::Locale(l) => AccountBodyV::Locale(opt_text(l)),
            AccountBody::InvalidLocale => AccountBodyV::InvalidLocale,
            AccountBody::InvalidAction => AccountBodyV::InvalidAction,
        }
    }
}

/// The members of an account body that mean something.
#[derive(Clone, Copy, Debug, PartialEq, Eq, Structural)]
pub enum AccountField {
    CurrentPassword,
    NewPassword,
    Action,
    Locale,
}

/// Why a body is no account request at all.
#[derive(Clone, Copy, Debug, PartialEq, Eq, Structural)]
pub enum BodyFault {
    Duplicate(AccountField),
    NotText(AccountField),
    Missing(AccountField),
}

/// The members of an account body seen so far.
#[derive(Debug)]
pub struct AccountFields {
    current_password: Option<String>,
    new_password: Option<String>,
    action: Option<Json>,
    locale: Option<Json>,
    unknown: bool,
}

/// The view of [`AccountFields`].
#[verifier::ext_equal]
pub struct AccountFieldsV {
    pub current_password: Option<Seq<char>>,
    pub new_password: Option<Seq<char>>,
    pub action: Option<JsonV>,
    pub locale: Option<JsonV>,
    pub unknown: bool,
}

impl View for AccountFields {
    type V = AccountFieldsV;

    closed spec fn view(&self) -> AccountFieldsV {
        AccountFieldsV {
            current_password: opt_text(self.current_password),
            new_password: opt_text(self.new_password),
            action: opt_owned(self.action),
            locale: opt_owned(self.locale),
            unknown: self.unknown,
        }
    }
}

/// Nothing seen yet.
pub open spec fn no_fields() -> AccountFieldsV {
    AccountFieldsV {
        current_password: None,
        new_password: None,
        action: None,
        locale: None,
        unknown: false,
    }
}

/// The member a name stands for.
pub open spec fn field_named(name: Seq<char>) -> Option<AccountField> {
    if name == "current_password"@ {
        Some(AccountField::CurrentPassword)
    } else if name == "new_password"@ {
        Some(AccountField::NewPassword)
    } else if name == "action"@ {
        Some(AccountField::Action)
    } else if name == "locale"@ {
        Some(AccountField::Locale)
    } else {
        None
    }
}

/// The members after one more: none may come twice, and passwords are text.
pub open spec fn field_taken(f: AccountFieldsV, name: Seq<char>, value: JsonV) -> Result<
    AccountFieldsV,
    BodyFault,
> {
    match field_named(name) {
        Some(AccountField::CurrentPassword) => if f.current_password is Some {
            Err(BodyFault::Duplicate(AccountField::CurrentPassword))
        } else {
            match value.as_str() {
                Some(s) => Ok(AccountFieldsV { current_password: Some(s), ..f }),
                None => Err(BodyFault::NotText(AccountField::CurrentPassword)),
            }
        },
        Some(AccountField::NewPassword) => if f.new_password is Some {
            Err(BodyFault::Duplicate(AccountField::NewPassword))
        } else {
            match value.as_str() {
                Some(s) => Ok(AccountFieldsV { new_password: Some(s), ..f }),
                None => Err(BodyFault::NotText(AccountField::NewPassword)),
            }
        },
        Some(AccountField::Action) => if f.action is Some {
            Err(BodyFault::Duplicate(AccountField::Action))
        } else {
            Ok(AccountFieldsV { action: Some(value), ..f })
        },
        Some(AccountField::Locale) => if f.locale is Some {
            Err(BodyFault::Duplicate(AccountField::Locale))
        } else {
            Ok(AccountFieldsV { locale: Some(value), ..f })
        },
        None => Ok(AccountFieldsV { unknown: true, ..f }),
    }
}

/// What the members of a body ask for. A password makes it a password
/// change, whatever else is there. A locale preference names the action and
/// the locale and nothing more.
pub open spec fn account_body(f: AccountFieldsV) -> Result<AccountBodyV, BodyFault> {
    if f.current_password is Some || f.new_password is Some {
        match (f.current_password, f.new_password) {
            (None, _) => Err(BodyFault::Missing(AccountField::CurrentPassword)),
            (Some(_), None) => Err(BodyFault::Missing(AccountField::NewPassword)),
            (Some(current_password), Some(new_password)) => Ok(
                AccountBodyV::Password { current_password, new_password },
            ),
        }
    } else {
        match (f.action, f.locale) {
            (None, None) => Err(BodyFault::Missing(AccountField::CurrentPassword)),
            (Some(action), Some(locale)) => if f.unknown || action.as_str() != Some("locale"@) {
                Ok(AccountBodyV::InvalidAction)
            } else {
                match locale {
                    JsonV::Null => Ok(AccountBodyV::Locale(None)),
                    JsonV::Str(l) => Ok(AccountBodyV::Locale(Some(l))),
                    _ => Ok(AccountBodyV::InvalidLocale),
                }
            },
            _ => Ok(AccountBodyV::InvalidAction),
        }
    }
}

impl AccountFields {
    pub fn new() -> (r: AccountFields)
        ensures
            r@ == no_fields(),
    {
        AccountFields {
            current_password: None,
            new_password: None,
            action: None,
            locale: None,
            unknown: false,
        }
    }

    /// Take one more member, in the order of the body.
    pub fn take(&mut self, name: &str, value: Json) -> (r: Result<(), BodyFault>)
        ensures
            match r {
                Ok(_) => field_taken(old(self)@, name@, value@) == Ok::<AccountFieldsV, BodyFault>(
                    final(self)@,
                ),
                Err(e) => {
                    &&& field_taken(old(self)@, name@, value@) == Err::<AccountFieldsV, BodyFault>(
                        e,
                    )
                    &&& final(self)@ == old(self)@
                },
            },
    {
        if same(name, "current_password") {
            if self.current_password.is_some() {
                return Err(BodyFault::Duplicate(AccountField::CurrentPassword));
            }
            match value {
                Json::Str(s) => {
                    self.current_password = Some(s);
                },
                _ => return Err(BodyFault::NotText(AccountField::CurrentPassword)),
            }
        } else if same(name, "new_password") {
            if self.new_password.is_some() {
                return Err(BodyFault::Duplicate(AccountField::NewPassword));
            }
            match value {
                Json::Str(s) => {
                    self.new_password = Some(s);
                },
                _ => return Err(BodyFault::NotText(AccountField::NewPassword)),
            }
        } else if same(name, "action") {
            if self.action.is_some() {
                return Err(BodyFault::Duplicate(AccountField::Action));
            }
            self.action = Some(value);
        } else if same(name, "locale") {
            if self.locale.is_some() {
                return Err(BodyFault::Duplicate(AccountField::Locale));
            }
            self.locale = Some(value);
        } else {
            self.unknown = true;
        }
        Ok(())
    }

    /// What the members ask for.
    pub fn finish(self) -> (r: Result<AccountBody, BodyFault>)
        ensures
            match r {
                Ok(body) => account_body(self@) == Ok::<AccountBodyV, BodyFault>(body@),
                Err(e) => account_body(self@) == Err::<AccountBodyV, BodyFault>(e),
            },
    {
        match (self.current_password, self.new_password) {
            (Some(current_password), Some(new_password)) => return Ok(
                AccountBody::Password(AccountPasswordReq { current_password, new_password }),
            ),
            (Some(_), None) => return Err(BodyFault::Missing(AccountField::NewPassword)),
            (None, Some(_)) => return Err(BodyFault::Missing(AccountField::CurrentPassword)),
            (None, None) => {},
        }
        match (self.action, self.locale) {
            (None, None) => Err(BodyFault::Missing(AccountField::CurrentPassword)),
            (Some(action), Some(locale)) => {
                let named = match action.as_str() {
                    Some(a) => same(a, "locale"),
                    None => false,
                };
                if self.unknown || !named {
                    return Ok(AccountBody::InvalidAction);
                }
                match locale {
                    Json::Null => Ok(AccountBody::Locale(None)),
                    Json::Str(l) => Ok(AccountBody::Locale(Some(l))),
                    _ => Ok(AccountBody::InvalidLocale),
                }
            },
            _ => Ok(AccountBody::InvalidAction),
        }
    }
}

/// What is left to do of an account request.
#[derive(Debug)]
pub enum AccountWork {
    Password(AccountPasswordReq),
    Locale(Option<String>),
}

/// Sort an account request.
pub fn account_open(body: AccountBody) -> (r: Result<AccountWork, Refused>)
    ensures
        match body {
            AccountBody::Password(req) => r == Ok::<AccountWork, Refused>(
                AccountWork::Password(req),
            ),
            AccountBody::Locale(l) => r == Ok::<AccountWork, Refused>(AccountWork::Locale(l)),
            AccountBody::InvalidAction => r matches Err(e) && e@ == refusal(
                400,
                "invalid_action"@,
                "account action must be locale"@,
            ),
            AccountBody::InvalidLocale => r matches Err(e) && e@ == invalid_locale(),
        },
{
    match body {
        AccountBody::Password(req) => Ok(AccountWork::Password(req)),
        AccountBody::Locale(l) => Ok(AccountWork::Locale(l)),
        AccountBody::InvalidAction => Err(
            refuse(400, "invalid_action", "account action must be locale"),
        ),
        AccountBody::InvalidLocale => Err(refuse(400, "invalid_locale", "locale is not valid")),
    }
}

/// Why a locale cannot be presented.
#[derive(Debug)]
pub enum LocaleError {
    Invalid,
    NotInstalled(String),
}

/// The refusal of a malformed locale.
pub open spec fn invalid_locale() -> RefusedV {
    refusal(400, "invalid_locale"@, "locale is not valid"@)
}

/// The refusal of a locale.
pub open spec fn locale_refusal(e: LocaleError) -> RefusedV {
    match e {
        LocaleError::Invalid => invalid_locale(),
        LocaleError::NotInstalled(l) => refusal(
            400,
            "locale_not_installed"@,
            "locale "@ + l@ + " is not installed"@,
        ),
    }
}

pub fn locale_error_response(e: &LocaleError) -> (r: Refused)
    ensures
        r@ == locale_refusal(*e),
{
    match e {
        LocaleError::Invalid => refuse(400, "invalid_locale", "locale is not valid"),
        LocaleError::NotInstalled(l) => refuse(
            400,
            "locale_not_installed",
            &concat3("locale ", l, " is not installed"),
        ),
    }
}

/// The store with a user's locale preference set or cleared.
pub open spec fn own_locale_change(
    store: StoreV,
    username: Seq<char>,
    choice: Result<Option<String>, LocaleError>,
) -> Result<StoreV, RefusedV> {
    match choice {
        Err(e) => Err(locale_refusal(e)),
        Ok(l) => match first_where(store.users, called(username)) {
            None => Err(stale()),
            Some(i) => Ok(
                StoreV {
                    users: store.users.update(
                        i,
                        UserV { locale: opt_text(l), ..store.users[i] },
                    ),
                    ..store
                },
            ),
        },
    }
}

/// The store with the caller's locale preference set or cleared; `choice` is
/// what the presentation made of the locale asked for.
pub fn own_locale(
    store: &StoredConfig,
    username: &str,
    choice: Result<Option<String>, LocaleError>,
) -> (r: Result<StoredConfig, Refused>)
    ensures
        outcome(r) == own_locale_change(store@, username@, choice),
{
    let l = match choice {
        Ok(l) => l,
        Err(e) => return Err(locale_error_response(&e)),
    };
    let mut cand = store.clone();
    let ghost before = cand@;
    let i = match find_user(&cand.users, username) {
        Some(i) => i,
        None => return Err(stale_session()),
    };
    assert(before.users[i as int] == cand.users@[i as int]@);
    let mut user = cand.users[i].clone();
    user.locale = l;
    cand.users.set(i, user);
    assert(cand@ =~= own_locale_change(store@, username@, choice)->Ok_0);
    Ok(cand)
}

/// What a default locale makes of the store.
pub open spec fn server_locale_change(
    store: StoreV,
    username: Seq<char>,
    found: Result<String, LocaleError>,
) -> Result<StoreV, RefusedV> {
    match found {
        Err(e) => Err(locale_refusal(e)),
        Ok(l) => match admin_bar(store, username, SERVER_SETTINGS@) {
            Some(e) => Err(e),
            None => Ok(StoreV { default_locale: l@, ..store }),
        },
    }
}

/// The store with the server's default locale set; `found` is what the
/// presentation made of the locale asked for. The authority is looked up
/// again: the body was read without the store lock.
pub fn server_locale(store: &StoredConfig, username: &str, found: Result<String, LocaleError>) -> (r:
    Result<StoredConfig, Refused>)
    ensures
        outcome(r) == server_locale_change(store@, username@, found),
{
    let l = match found {
        Ok(l) => l,
        Err(e) => return Err(locale_error_response(&e)),
    };
    match require_admin(store, username, SERVER_SETTINGS) {
        Ok(_) => {},
        Err(e) => return Err(e),
    }
    let mut cand = store.clone();
    cand.default_locale = l;
    assert(cand@ =~= (StoreV { default_locale: l@, ..store@ }));
    Ok(cand)
}

/// Why an own-password change could not be applied to the candidate store.
#[derive(Clone, Copy, Debug, PartialEq, Eq, Structural)]
pub enum PasswordChangeErr {
    UserGone,
    HashRotated,
}

/// What an own-password change makes of the store: it is refused unless the
/// stored hash is still the one the current password was verified against.
pub open spec fn password_change(
    store: StoreV,
    username: Seq<char>,
    verified_hash: Seq<char>,
    new_hash: Seq<char>,
) -> Result<StoreV, PasswordChangeErr> {
    match first_where(store.users, called(username)) {
        None => Err(PasswordChangeErr::UserGone),
        Some(i) => if store.users[i].password_hash != verified_hash {
            Err(PasswordChangeErr::HashRotated)
        } else {
            Ok(
                StoreV {
                    users: store.users.update(
                        i,
                        UserV { password_hash: new_hash, ..store.users[i] },
                    ),
                    ..store
                },
            )
        },
    }
}

/// Apply an own-password change. The verification ran without the store lock,
/// so a hash that was rotated in between wins.
pub fn apply_password_change(
    cand: &mut StoredConfig,
    username: &str,
    verified_hash: &str,
    new_hash: &str,
) -> (r: Result<(), PasswordChangeErr>)
    ensures
        match r {
            Ok(_) => password_change(old(cand)@, username@, verified_hash@, new_hash@) == Ok::<
                StoreV,
                PasswordChangeErr,
            >(final(cand)@),
            Err(e) => {
                &&& password_change(old(cand)@, username@, verified_hash@, new_hash@) == Err::<
                    StoreV,
                    PasswordChangeErr,
                >(e)
                &&& final(cand)@ == old(cand)@
            },
        },
{
    let ghost before = cand@;
    let i = match find_user(&cand.users, username) {
        Some(i) => i,
        None => return Err(PasswordChangeErr::UserGone),
    };
    assert(before.users[i as int] == cand.users@[i as int]@);
    if !same(&cand.users[i].password_hash, verified_hash) {
        return Err(PasswordChangeErr::HashRotated);
    }
    let mut user = cand.users[i].clone();
    user.password_hash = new_hash.to_owned();
    cand.users.set(i, user);
    assert(cand@ =~= password_change(before, username@, verified_hash@, new_hash@)->Ok_0);
    Ok(())
}

/// Leave to verify a password against a stored hash.
#[derive(Debug)]
pub struct VerifyTicket {
    current: String,
    hash: String,
    new: String,
}

impl VerifyTicket {
    /// The password the caller claims is theirs.
    pub closed spec fn claim(self) -> Seq<char> {
        self.current@
    }

    /// The hash it is held against.
    pub closed spec fn stored(self) -> Seq<char> {
        self.hash@
    }

    /// The password it is to be replaced by.
    pub closed spec fn replacement(self) -> Seq<char> {
        self.new@
    }

    pub fn current_password(&self) -> (r: &str)
        ensures
            r@ == self.claim(),
    {
        &self.current
    }

    pub fn stored_hash(&self) -> (r: &str)
        ensures
            r@ == self.stored(),
    {
        &self.hash
    }
}

/// Begin an own-password change: the new password is long enough and the
/// caller is still there.
pub fn begin_password_change(store: &StoredConfig, username: &str, req: &AccountPasswordReq) -> (r:
    Result<VerifyTicket, Refused>)
    ensures
        match r {
            Ok(t) => {
                &&& req.new_password@.len() >= MIN_PASSWORD_CHARS
                &&& store@.user(username@) matches Some(u) && t.stored() == u.password_hash
                &&& t.claim() == req.current_password@
                &&& t.replacement() == req.new_password@
            },
            Err(e) => if req.new_password@.len() < MIN_PASSWORD_CHARS {
                e@ == weak()
            } else {
                store@.user(username@) is None && e@ == stale()
            },
        },
{
    if too_short(&req.new_password) {
        return Err(weak_password());
    }
    match store.user(username) {
        Some(u) => Ok(
            VerifyTicket {
                current: req.current_password.clone(),
                hash: u.password_hash.clone(),
                new: req.new_password.clone(),
            },
        ),
        None => Err(stale_session()),
    }
}

/// A password that was verified, with leave to hash the one it is to be
/// replaced by.
#[derive(Debug)]
pub struct Verified {
    hash: String,
    ticket: HashTicket,
}

impl Verified {
    /// The hash the current password was verified against.
    pub closed spec fn against(self) -> Seq<char> {
        self.hash@
    }

    /// The password to hash.
    pub closed spec fn replacement(self) -> Seq<char> {
        self.ticket.secret()
    }

    pub fn ticket(&self) -> (r: &HashTicket)
        ensures
            r.secret() == self.replacement(),
    {
        &self.ticket
    }
}

/// Go on with an own-password change only where the current password matched.
pub fn judge_password(ticket: VerifyTicket, matched: bool) -> (r: Result<Verified, Refused>)
    ensures
        match r {
            Ok(v) => matched && v.against() == ticket.stored() && v.replacement()
                == ticket.replacement(),
            Err(e) => !matched && e@ == refusal(
                403,
                "wrong_password"@,
                "current password is incorrect"@,
            ),
        },
{
    if !matched {
        return Err(refuse(403, "wrong_password", "current password is incorrect"));
    }
    let hashing = hash_ticket(&ticket.new);
    Ok(Verified { hash: ticket.hash, ticket: hashing })
}

/// The refusal of a password change that came too late.
pub open spec fn password_refusal(e: PasswordChangeErr) -> RefusedV {
    match e {
        PasswordChangeErr::UserGone => stale(),
        PasswordChangeErr::HashRotated => refusal(
            409,
            "password_changed"@,
            "your password was changed while this request was in flight; log in again"@,
        ),
    }
}

/// The store after an own-password change.
pub fn finish_password_change(
    store: &StoredConfig,
    username: &str,
    verified: &Verified,
    new_hash: &str,
) -> (r: Result<StoredConfig, Refused>)
    ensures
        outcome(r) == match password_change(store@, username@, verified.against(), new_hash@) {
            Ok(s) => Ok(s),
            Err(e) => Err(password_refusal(e)),
        },
{
    let mut cand = store.clone();
    match apply_password_change(&mut cand, username, &verified.hash, new_hash) {
        Ok(_) => Ok(cand),
        Err(PasswordChangeErr::UserGone) => Err(stale_session()),
        Err(PasswordChangeErr::HashRotated) => Err(
            refuse(
                409,
                "password_changed",
                "your password was changed while this request was in flight; log in again",
            ),
        ),
    }
}

}
