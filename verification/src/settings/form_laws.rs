//! What the forms and probes of the settings come to: a body's fields in any
//! order, a probe's verdict, and the refusals' codes.
use crate::codec::json_of_bytes;
use crate::digest::sha256_hex_of;
use crate::digest_laws::{hex_read, law_hexadecimal_reads_back};
use crate::json::JsonV;
use crate::settings::account::{
    account_body, field_taken, locale_refusal, no_fields, password_refusal, AccountBodyV,
    AccountField, AccountFieldsV, BodyFault, LocaleError, PasswordChangeErr,
};
use crate::settings::keys::{fingerprint_of, is_secret, secret_text, tail4};
use crate::settings::probe::{probe_verdict, CatalogReply};
use crate::settings::refusals::{
    admin_bar, bad, claimed, forbidden_for, stale, too_many, weak,
};
use crate::settings::change_laws::is_user;
use crate::config::{Role, StoreV};
use vstd::prelude::*;

verus! {

/// The names of the account form's fields, told apart.
proof fn lemma_field_names()
    ensures
        "current_password"@ != "new_password"@,
        "current_password"@ != "action"@,
        "current_password"@ != "locale"@,
        "new_password"@ != "action"@,
        "new_password"@ != "locale"@,
        "action"@ != "locale"@,
{
    reveal_strlit("current_password");
    reveal_strlit("new_password");
    reveal_strlit("action");
    reveal_strlit("locale");
    assert("current_password"@.len() == 16 && "new_password"@.len() == 12);
    assert("action"@.len() == 6 && "locale"@.len() == 6 && "action"@[0] == 'a');
    assert("locale"@[0] == 'l');
}

/// The fields of a body that gives one field after another.
pub open spec fn taken(
    f: AccountFieldsV,
    name: Seq<char>,
    value: JsonV,
    then_name: Seq<char>,
    then_value: JsonV,
) -> Result<AccountFieldsV, BodyFault> {
    match field_taken(f, name, value) {
        Ok(g) => field_taken(g, then_name, then_value),
        Err(e) => Err(e),
    }
}

/// The order of a body's fields does not matter: two that can both be taken
/// come to the same either way.
pub proof fn law_fields_come_in_any_order(
    f: AccountFieldsV,
    a: Seq<char>,
    x: JsonV,
    b: Seq<char>,
    y: JsonV,
)
    requires
        a != b,
        field_taken(f, a, x) is Ok,
        field_taken(f, b, y) is Ok,
    ensures
        taken(f, a, x, b, y) is Ok,
        taken(f, a, x, b, y) == taken(f, b, y, a, x),
{
    lemma_field_names();
}

/// A field that is known is given once at most.
pub proof fn law_fields_come_once(f: AccountFieldsV, name: Seq<char>, x: JsonV, y: JsonV)
    requires
        name == "current_password"@ || name == "new_password"@ || name == "action"@ || name
            == "locale"@,
        field_taken(f, name, x) is Ok,
    ensures
        taken(f, name, x, name, y) is Err,
{
    lemma_field_names();
}

/// A body with both passwords is a password change with these; one that
/// names the locale action and a locale, and nothing else, is a choice of
/// that locale, or of none.
pub proof fn law_account_bodies_are_what_they_say(
    current: Seq<char>,
    new: Seq<char>,
    locale: Seq<char>,
)
    ensures
        ({
            let f = taken(
                no_fields(),
                "current_password"@,
                JsonV::Str(current),
                "new_password"@,
                JsonV::Str(new),
            );
            f is Ok && account_body(f->Ok_0) == Ok::<AccountBodyV, BodyFault>(
                AccountBodyV::Password { current_password: current, new_password: new },
            )
        }),
        ({
            let f = taken(
                no_fields(),
                "action"@,
                JsonV::Str("locale"@),
                "locale"@,
                JsonV::Str(locale),
            );
            f is Ok && account_body(f->Ok_0) == Ok::<AccountBodyV, BodyFault>(
                AccountBodyV::Locale(Some(locale)),
            )
        }),
        ({
            let f = taken(
                no_fields(),
                "action"@,
                JsonV::Str("locale"@),
                "locale"@,
                JsonV::Null,
            );
            f is Ok && account_body(f->Ok_0) == Ok::<AccountBodyV, BodyFault>(
                AccountBodyV::Locale(None),
            )
        }),
{
    lemma_field_names();
}

/// A body that lacks one of the passwords names the one it lacks; a locale
/// action with an unknown field, another action, or no locale is none.
pub proof fn law_incomplete_account_bodies(f: AccountFieldsV)
    ensures
        f.current_password is None && f.new_password is Some ==> account_body(f) == Err::<
            AccountBodyV,
            BodyFault,
        >(BodyFault::Missing(AccountField::CurrentPassword)),
        f.current_password is Some && f.new_password is None ==> account_body(f) == Err::<
            AccountBodyV,
            BodyFault,
        >(BodyFault::Missing(AccountField::NewPassword)),
        f.current_password is None && f.new_password is None && f.action is None && f.locale
            is None ==> account_body(f) is Err,
        account_body(f) matches Ok(AccountBodyV::Locale(l)) ==> !f.unknown && f.action == Some(
            JsonV::Str("locale"@),
        ) && f.locale is Some && (match l {
            Some(t) => f.locale->0 == JsonV::Str(t),
            None => f.locale->0 == JsonV::Null,
        }),
        account_body(f) matches Ok(AccountBodyV::Password { current_password, new_password })
            ==> f.current_password == Some(current_password) && f.new_password == Some(
            new_password,
        ),
{
}

/// A probe succeeds exactly when upstream answers with success and a body
/// that is JSON; it then counts the models that are listed. What it says
/// otherwise holds upstream's own words.
pub proof fn law_probes_count_the_models(reply: CatalogReply)
    ensures
        match reply {
            CatalogReply::Unreachable(e) => probe_verdict(reply) is Err && e@.is_suffix_of(
                probe_verdict(reply)->Err_0,
            ),
            CatalogReply::Answered(status, Ok(bytes)) => {
                &&& probe_verdict(reply) is Ok <==> 200 <= status < 300 && json_of_bytes(bytes@)
                    is Some
                &&& probe_verdict(reply) is Ok ==> probe_verdict(reply)->Ok_0 == json_of_bytes(
                    bytes@,
                )->0.list("data"@).len()
            },
            CatalogReply::Answered(status, Err(e)) => probe_verdict(reply) is Err && (200 <= status
                < 300 ==> e@.is_suffix_of(probe_verdict(reply)->Err_0)),
        },
{
    match reply {
        CatalogReply::Unreachable(e) => {
            let m = "cannot reach upstream: "@ + e@;
            assert(m.skip(m.len() - e@.len()) =~= e@);
        },
        CatalogReply::Answered(status, Err(e)) => {
            let m = "upstream sent an unreadable model list: "@ + e@;
            assert(m.skip(m.len() - e@.len()) =~= e@);
        },
        _ => {},
    }
}

/// A minted secret is marked as one and holds all its random bytes, so that
/// no two runs of randomness make one secret.
pub proof fn law_secrets_hold_their_randomness(raw: Seq<u8>)
    ensures
        "npk_"@.is_prefix_of(secret_text(raw)),
        secret_text(raw).len() == 4 + 2 * raw.len(),
        hex_read(secret_text(raw).skip(4)) == raw,
        raw.len() == 16 ==> is_secret(secret_text(raw)),
{
    reveal_strlit("npk_");
    law_hexadecimal_reads_back(raw);
    let s = secret_text(raw);
    assert(s.take(4) =~= "npk_"@);
    assert(s.skip(4) =~= crate::digest::hex_text(raw));
}

/// Each refusal has its status: who is unknown is unauthorized, who may not
/// is forbidden, what is wrong is a bad request, what is done is a conflict,
/// and what comes too often is throttled.
pub proof fn law_refusals_have_their_status(message: Seq<char>)
    ensures
        stale().status == 401 && stale().code == "unauthorized"@,
        forbidden_for(message).status == 403 && forbidden_for(message).code == "forbidden"@
            && forbidden_for(message).message == message,
        bad(message).status == 400 && bad(message).code == "invalid_config"@ && bad(
            message,
        ).message == message,
        weak().status == 400 && weak().code == "weak_password"@,
        claimed().status == 409 && claimed().code == "setup_complete"@,
        too_many().status == 429 && too_many().code == "throttled"@,
        password_refusal(PasswordChangeErr::UserGone) == stale(),
        password_refusal(PasswordChangeErr::HashRotated).status == 409,
{
}

/// Authority is the user's own role: who is not there is unknown, an
/// administrator passes, and anybody else is told why not.
pub proof fn law_administrators_pass(store: StoreV, name: Seq<char>, u: int, message: Seq<char>)
    requires
        is_user(store.users, name, u),
    ensures
        store.users[u].role == Role::User ==> admin_bar(store, name, message) == Some(
            forbidden_for(message),
        ),
        store.users[u].role != Role::User ==> admin_bar(store, name, message) is None,
{
    crate::settings::change_laws::lemma_user(store, name, u);
}

/// A locale that is not installed is named in its refusal.
pub proof fn law_missing_locales_are_named(l: String)
    ensures
        locale_refusal(LocaleError::NotInstalled(l)).status == 400,
        locale_refusal(LocaleError::NotInstalled(l)).code == "locale_not_installed"@,
        locale_refusal(LocaleError::NotInstalled(l)).message == "locale "@ + l@
            + " is not installed"@,
        locale_refusal(LocaleError::Invalid).status == 400,
        locale_refusal(LocaleError::Invalid).code == "invalid_locale"@,
{
}

/// A key is known in public by the first eight characters of its digest and
/// its own last four, or all of it where it has no more.
pub proof fn law_keys_are_known_by_their_ends(key: Seq<char>)
    ensures
        fingerprint_of(key) == sha256_hex_of(key).take(8),
        tail4(key).is_suffix_of(key),
        tail4(key).len() == if key.len() < 4 {
            key.len()
        } else {
            4
        },
{
    assert(key.skip(0) =~= key);
}

}
