//! What each settings request changes: what it names, to what it gives, and
//! nothing else.
use crate::config::{called, ClientKeyV, Mode, NimKeyV, Role, StoreV, UserV};
use crate::digest::sha256_hex_of;
use crate::lists::{first_where, lemma_filter_contains, lemma_first_where};
use crate::settings::account::{own_locale_change, password_change, server_locale_change};
use crate::settings::keys::{
    clients_change, fingerprint_of, key_named, new_nim_key, nim_keys_change, printed, tail4,
};
use crate::settings::requests::{
    ClientsReq, GovernorReq, HistoryReq, LimitsReq, NimKeysReq, ServerReq, SetupReq, UpstreamReq,
    UsersReq, WebSearchReq,
};
use crate::settings::sections::{
    governor_change, history_change, limits_change, server_change, tidy_url, upstream_change,
    web_search_change,
};
use crate::settings::setup::claim_change;
use crate::settings::users::{other_than, users_change, users_plan};
use crate::text::{trimmed, without_trailing};
use vstd::prelude::*;

verus! {

/// Whether the user at `u` is the first of the given name.
pub open spec fn is_user(users: Seq<UserV>, name: Seq<char>, u: int) -> bool {
    &&& 0 <= u < users.len()
    &&& users[u].username == name
    &&& forall|k: int| 0 <= k < u ==> (#[trigger] users[k]).username != name
}

/// Whether the NIM key at `i` is the first of the given fingerprint.
pub open spec fn is_nim_key(keys: Seq<NimKeyV>, print: Seq<char>, i: int) -> bool {
    &&& 0 <= i < keys.len()
    &&& fingerprint_of(keys[i].key) == print
    &&& forall|k: int| 0 <= k < i ==> fingerprint_of((#[trigger] keys[k]).key) != print
}

/// Whether the client key at `i` is the first of the given name.
pub open spec fn is_client_key(keys: Seq<ClientKeyV>, name: Seq<char>, i: int) -> bool {
    &&& 0 <= i < keys.len()
    &&& keys[i].name == name
    &&& forall|k: int| 0 <= k < i ==> (#[trigger] keys[k]).name != name
}

/// Whether a user may manage what `owner` owns.
pub open spec fn may_manage(user: UserV, owner: Seq<char>) -> bool {
    user.role == Role::Admin || user.role == Role::Superuser || user.username == owner
}

pub proof fn lemma_user(store: StoreV, name: Seq<char>, u: int)
    requires
        is_user(store.users, name, u),
    ensures
        first_where(store.users, called(name)) == Some(u),
        store.user(name) == Some(store.users[u]),
{
    lemma_first_where(store.users, called(name));
    let p = called(name);
    assert(p(store.users[u]));
}

/// A name that nobody has finds nobody.
proof fn lemma_nobody(store: StoreV, name: Seq<char>)
    ensures
        store.user(name) is None || exists|u: int| #[trigger] is_user(store.users, name, u),
{
    lemma_first_where(store.users, called(name));
    match first_where(store.users, called(name)) {
        Some(u) => {
            assert(is_user(store.users, name, u));
        },
        None => {},
    }
}

proof fn lemma_nim_key(keys: Seq<NimKeyV>, print: Seq<char>, i: int)
    requires
        is_nim_key(keys, print, i),
    ensures
        first_where(keys, printed(print)) == Some(i),
{
    lemma_first_where(keys, printed(print));
    let p = printed(print);
    assert(p(keys[i]));
}

proof fn lemma_client_key(keys: Seq<ClientKeyV>, name: Seq<char>, i: int)
    requires
        is_client_key(keys, name, i),
    ensures
        first_where(keys, key_named(name)) == Some(i),
{
    lemma_first_where(keys, key_named(name));
    let p = key_named(name);
    assert(p(keys[i]));
}

/// A set request changes one key, the first with the fingerprint it names,
/// and only for its owner or an administrator: the key is enabled as the
/// request says and its rate is the one the request gives. A field that the
/// request omits is as before, and so is every other key and all the rest.
pub proof fn law_setting_a_key_sets_what_is_given(
    store: StoreV,
    username: Seq<char>,
    req: NimKeysReq,
    u: int,
    i: int,
)
    requires
        req.add is None,
        req.remove is None,
        req.set is Some,
        is_user(store.users, username, u),
        is_nim_key(store.nim_keys, req.set->0.fingerprint@, i),
    ensures
        ({
            let r = nim_keys_change(store, username, req);
            let set = req.set->0;
            &&& r is Ok <==> may_manage(store.users[u], store.nim_keys[i].owner)
            &&& r is Err ==> r->Err_0.status == 403
            &&& r is Ok ==> {
                let after = r->Ok_0;
                &&& after.nim_keys.len() == store.nim_keys.len()
                &&& set.enabled is Some ==> after.nim_keys[i].enabled == set.enabled->0
                &&& set.enabled is None ==> after.nim_keys[i].enabled == store.nim_keys[i].enabled
                &&& set.rpm is Some ==> after.nim_keys[i].rpm == set.rpm->0
                &&& set.rpm is None ==> after.nim_keys[i].rpm == store.nim_keys[i].rpm
                &&& after.nim_keys[i].key == store.nim_keys[i].key
                &&& after.nim_keys[i].owner == store.nim_keys[i].owner
                &&& forall|j: int|
                    0 <= j < store.nim_keys.len() && j != i ==> #[trigger] after.nim_keys[j]
                        == store.nim_keys[j]
                &&& after == (StoreV { nim_keys: after.nim_keys, ..store })
            }
        }),
{
    lemma_user(store, username, u);
    lemma_nim_key(store.nim_keys, req.set->0.fingerprint@, i);
}

/// An add request puts one key at the end, enabled, owned by whoever adds
/// it, at the rate it gives or the default one, and changes nothing else.
pub proof fn law_adding_a_key_adds_it_at_the_end(
    store: StoreV,
    username: Seq<char>,
    req: NimKeysReq,
    u: int,
)
    requires
        req.add is Some,
        req.remove is None,
        req.set is None,
        is_user(store.users, username, u),
    ensures
        nim_keys_change(store, username, req) == Ok::<StoreV, crate::api::RefusedV>(
            StoreV {
                nim_keys: store.nim_keys.push(
                    NimKeyV {
                        key: trimmed(req.add->0.key@),
                        owner: username,
                        enabled: true,
                        rpm: match req.add->0.rpm {
                            Some(rpm) => rpm,
                            None => 40,
                        },
                    },
                ),
                ..store
            },
        ),
{
    lemma_user(store, username, u);
}

/// A remove request takes out one key, the first with the fingerprint it
/// names, and only for its owner or an administrator; the others keep their
/// order, and nothing else changes.
pub proof fn law_removing_a_key_removes_that_key(
    store: StoreV,
    username: Seq<char>,
    req: NimKeysReq,
    u: int,
    i: int,
)
    requires
        req.add is None,
        req.remove is Some,
        req.set is None,
        is_user(store.users, username, u),
        is_nim_key(store.nim_keys, req.remove->0@, i),
    ensures
        ({
            let r = nim_keys_change(store, username, req);
            &&& r is Ok <==> may_manage(store.users[u], store.nim_keys[i].owner)
            &&& r is Err ==> r->Err_0.status == 403
            &&& r is Ok ==> r->Ok_0 == (StoreV {
                nim_keys: store.nim_keys.take(i) + store.nim_keys.skip(i + 1),
                ..store
            })
        }),
{
    lemma_user(store, username, u);
    lemma_nim_key(store.nim_keys, req.remove->0@, i);
    assert(store.nim_keys.remove(i) =~= store.nim_keys.take(i) + store.nim_keys.skip(i + 1));
}

/// A request that names no key that is there is refused.
pub proof fn law_unknown_keys_are_refused(store: StoreV, username: Seq<char>, req: NimKeysReq)
    requires
        req.add is None,
        req.remove is Some && req.set is None && (forall|k: int|
            0 <= k < store.nim_keys.len() ==> fingerprint_of((#[trigger] store.nim_keys[k]).key)
                != req.remove->0@) || req.remove is None && req.set is Some && (forall|k: int|
            0 <= k < store.nim_keys.len() ==> fingerprint_of((#[trigger] store.nim_keys[k]).key)
                != req.set->0.fingerprint@),
    ensures
        nim_keys_change(store, username, req) is Err,
        nim_keys_change(store, username, req)->Err_0.status == if exists|u: int| #[trigger]
            is_user(store.users, username, u) {
            400int
        } else {
            401int
        },
{
    lemma_nobody(store, username);
    if exists|u: int| #[trigger] is_user(store.users, username, u) {
        let u = choose|u: int| #[trigger] is_user(store.users, username, u);
        lemma_user(store, username, u);
    }
    if req.remove is Some {
        lemma_first_where(store.nim_keys, printed(req.remove->0@));
    } else {
        lemma_first_where(store.nim_keys, printed(req.set->0.fingerprint@));
    }
}

/// A new client key stands at the end, under its trimmed name, owned by
/// whoever adds it; of its secret only the digest and the last four
/// characters are stored. Nothing else changes.
pub proof fn law_adding_a_client_key_stores_its_digest(
    store: StoreV,
    username: Seq<char>,
    req: ClientsReq,
    secret: Seq<char>,
    u: int,
)
    requires
        req.add is Some,
        req.remove is None,
        req.mode is None,
        is_user(store.users, username, u),
    ensures
        ({
            let r = clients_change(store, username, req, secret);
            &&& r is Ok
            &&& r->Ok_0 == (StoreV { client_keys: r->Ok_0.client_keys, ..store })
            &&& r->Ok_0.client_keys.len() == store.client_keys.len() + 1
            &&& store.client_keys.is_prefix_of(r->Ok_0.client_keys)
            &&& r->Ok_0.client_keys.last().name == trimmed(req.add->0.name@)
            &&& r->Ok_0.client_keys.last().owner == username
            &&& r->Ok_0.client_keys.last().secret_sha256 == sha256_hex_of(secret)
            &&& r->Ok_0.client_keys.last().last4.is_suffix_of(secret)
            &&& r->Ok_0.client_keys.last().last4.len() == if secret.len() < 4 {
                secret.len()
            } else {
                4
            }
        }),
{
    lemma_user(store, username, u);
    assert(tail4(secret).is_suffix_of(secret)) by {
        assert(secret.skip(0) =~= secret);
    }
}

/// Revoking takes out one client key, the first of the name, and only for
/// its owner or an administrator; nothing else changes.
pub proof fn law_revoking_revokes_that_client_key(
    store: StoreV,
    username: Seq<char>,
    req: ClientsReq,
    secret: Seq<char>,
    u: int,
    i: int,
)
    requires
        req.add is None,
        req.remove is Some,
        req.mode is None,
        is_user(store.users, username, u),
        is_client_key(store.client_keys, req.remove->0@, i),
    ensures
        ({
            let r = clients_change(store, username, req, secret);
            &&& r is Ok <==> may_manage(store.users[u], store.client_keys[i].owner)
            &&& r is Err ==> r->Err_0.status == 403
            &&& r is Ok ==> r->Ok_0 == (StoreV {
                client_keys: store.client_keys.take(i) + store.client_keys.skip(i + 1),
                ..store
            })
        }),
{
    lemma_user(store, username, u);
    lemma_client_key(store.client_keys, req.remove->0@, i);
    assert(store.client_keys.remove(i) =~= store.client_keys.take(i) + store.client_keys.skip(
        i + 1,
    ));
}

/// An administrator sets the access mode to the one named, open or keyed;
/// nobody else does, no other name is taken, and nothing else changes.
pub proof fn law_the_mode_is_the_one_named(
    store: StoreV,
    username: Seq<char>,
    req: ClientsReq,
    secret: Seq<char>,
    u: int,
)
    requires
        req.add is None,
        req.remove is None,
        req.mode is Some,
        is_user(store.users, username, u),
    ensures
        ({
            let r = clients_change(store, username, req, secret);
            let name = req.mode->0@;
            &&& r is Ok <==> store.users[u].role != Role::User && (name == "open"@ || name
                == "keyed"@)
            &&& r is Ok && name == "open"@ ==> r->Ok_0 == (StoreV { mode: Mode::Open, ..store })
            &&& r is Ok && name == "keyed"@ ==> r->Ok_0 == (StoreV { mode: Mode::Keyed, ..store })
        }),
{
    lemma_user(store, username, u);
    reveal_strlit("open");
    reveal_strlit("keyed");
    assert("open"@.len() == 4 && "keyed"@.len() == 5);
}

/// The role that a request may give.
pub open spec fn role_called(name: Seq<char>) -> Option<Role> {
    if name == "admin"@ {
        Some(Role::Admin)
    } else if name == "user"@ {
        Some(Role::User)
    } else {
        None
    }
}

/// A new user stands at the end, under the trimmed name, with the role that
/// the request gives and the hash of its password, and nothing else changes.
/// Only an administrator adds one, with a role that can be given and a
/// password that is long enough.
pub proof fn law_adding_a_user_adds_it_at_the_end(
    store: StoreV,
    username: Seq<char>,
    req: UsersReq,
    hash: Seq<char>,
    u: int,
)
    requires
        req.add is Some,
        req.remove is None,
        req.reset_password is None,
        req.set_role is None,
        is_user(store.users, username, u),
    ensures
        ({
            let r = users_change(store, username, req, hash);
            let add = req.add->0;
            &&& r is Ok <==> store.users[u].role != Role::User && add.password@.len() >= 10
                && role_called(add.role@) is Some
            &&& r is Err ==> r->Err_0.status == if store.users[u].role == Role::User {
                403int
            } else {
                400int
            }
            &&& r is Ok ==> r->Ok_0 == (StoreV {
                users: store.users.push(
                    UserV {
                        username: trimmed(add.username@),
                        password_hash: hash,
                        role: role_called(add.role@)->0,
                        locale: None,
                    },
                ),
                ..store
            })
        }),
{
    lemma_user(store, username, u);
}

/// Deleting a user takes out everybody of that name with everything that
/// they own, and nobody and nothing else. Only an administrator deletes, and
/// never the superuser.
pub proof fn law_deleting_a_user_takes_what_they_own(
    store: StoreV,
    username: Seq<char>,
    req: UsersReq,
    hash: Seq<char>,
    u: int,
    t: int,
)
    requires
        req.add is None,
        req.remove is Some,
        req.reset_password is None,
        req.set_role is None,
        is_user(store.users, username, u),
        is_user(store.users, req.remove->0@, t),
    ensures
        ({
            let r = users_change(store, username, req, hash);
            let name = req.remove->0@;
            &&& r is Ok <==> store.users[u].role != Role::User && store.users[t].role
                != Role::Superuser
            &&& r is Err ==> r->Err_0.status == 403
            &&& r is Ok ==> {
                let after = r->Ok_0;
                &&& after == (StoreV {
                    users: after.users,
                    nim_keys: after.nim_keys,
                    client_keys: after.client_keys,
                    ..store
                })
                &&& forall|x: UserV| #[trigger]
                    after.users.contains(x) <==> store.users.contains(x) && x.username != name
                &&& forall|k: NimKeyV| #[trigger]
                    after.nim_keys.contains(k) <==> store.nim_keys.contains(k) && k.owner != name
                &&& forall|c: ClientKeyV| #[trigger]
                    after.client_keys.contains(c) <==> store.client_keys.contains(c) && c.owner
                        != name
            }
        }),
{
    lemma_user(store, username, u);
    lemma_user(store, req.remove->0@, t);
    let name = req.remove->0@;
    let r = users_change(store, username, req, hash);
    if r is Ok {
        let after = r->Ok_0;
        assert forall|x: UserV| #[trigger] after.users.contains(x) <==> store.users.contains(x)
            && x.username != name by {
            lemma_filter_contains(store.users, other_than(name), x);
        }
        assert forall|k: NimKeyV| #[trigger] after.nim_keys.contains(k)
            <==> store.nim_keys.contains(k) && k.owner != name by {
            lemma_filter_contains(
                store.nim_keys,
                crate::settings::users::nim_not_of(name),
                k,
            );
        }
        assert forall|c: ClientKeyV| #[trigger] after.client_keys.contains(c)
            <==> store.client_keys.contains(c) && c.owner != name by {
            lemma_filter_contains(
                store.client_keys,
                crate::settings::users::client_not_of(name),
                c,
            );
        }
    }
}

/// A reset replaces one password hash, that of the first user of the name,
/// and nothing else. Only an administrator resets, with a password that is
/// long enough, and never the superuser's.
pub proof fn law_a_reset_replaces_one_hash(
    store: StoreV,
    username: Seq<char>,
    req: UsersReq,
    hash: Seq<char>,
    u: int,
    t: int,
)
    requires
        req.add is None,
        req.remove is None,
        req.reset_password is Some,
        req.set_role is None,
        is_user(store.users, username, u),
        is_user(store.users, req.reset_password->0.username@, t),
    ensures
        ({
            let r = users_change(store, username, req, hash);
            &&& r is Ok <==> store.users[u].role != Role::User
                && req.reset_password->0.new_password@.len() >= 10 && store.users[t].role
                != Role::Superuser
            &&& r is Ok ==> {
                let after = r->Ok_0;
                &&& after == (StoreV { users: after.users, ..store })
                &&& after.users.len() == store.users.len()
                &&& after.users[t] == (UserV { password_hash: hash, ..store.users[t] })
                &&& forall|j: int|
                    0 <= j < store.users.len() && j != t ==> #[trigger] after.users[j]
                        == store.users[j]
            }
        }),
{
    lemma_user(store, username, u);
    lemma_user(store, req.reset_password->0.username@, t);
}

/// A role change gives one user, the first of the name, the role that the
/// request names, and changes nothing else. Only an administrator changes
/// roles, and never the superuser's.
pub proof fn law_a_role_change_gives_the_role_named(
    store: StoreV,
    username: Seq<char>,
    req: UsersReq,
    hash: Seq<char>,
    u: int,
    t: int,
)
    requires
        req.add is None,
        req.remove is None,
        req.reset_password is None,
        req.set_role is Some,
        is_user(store.users, username, u),
        is_user(store.users, req.set_role->0.username@, t),
    ensures
        ({
            let r = users_change(store, username, req, hash);
            &&& r is Ok <==> store.users[u].role != Role::User && role_called(
                req.set_role->0.role@,
            ) is Some && store.users[t].role != Role::Superuser
            &&& r is Ok ==> {
                let after = r->Ok_0;
                &&& after == (StoreV { users: after.users, ..store })
                &&& after.users.len() == store.users.len()
                &&& after.users[t] == (UserV {
                    role: role_called(req.set_role->0.role@)->0,
                    ..store.users[t]
                })
                &&& forall|j: int|
                    0 <= j < store.users.len() && j != t ==> #[trigger] after.users[j]
                        == store.users[j]
            }
        }),
{
    lemma_user(store, username, u);
    lemma_user(store, req.set_role->0.username@, t);
}

/// Users choose their own locale, or none; nothing else changes.
pub proof fn law_own_locale_is_the_one_chosen(
    store: StoreV,
    username: Seq<char>,
    choice: Option<String>,
    u: int,
)
    requires
        is_user(store.users, username, u),
    ensures
        ({
            let r = own_locale_change(store, username, Ok(choice));
            &&& r is Ok
            &&& r->Ok_0 == (StoreV { users: r->Ok_0.users, ..store })
            &&& r->Ok_0.users.len() == store.users.len()
            &&& r->Ok_0.users[u].locale == match choice {
                Some(l) => Some(l@),
                None => None,
            }
            &&& r->Ok_0.users[u].username == store.users[u].username
            &&& r->Ok_0.users[u].password_hash == store.users[u].password_hash
            &&& r->Ok_0.users[u].role == store.users[u].role
            &&& forall|j: int|
                0 <= j < store.users.len() && j != u ==> #[trigger] r->Ok_0.users[j]
                    == store.users[j]
        }),
{
    lemma_user(store, username, u);
}

/// A password change replaces the user's own hash, and only where the hash
/// that was verified is still the stored one; nothing else changes.
pub proof fn law_own_password_is_replaced(
    store: StoreV,
    username: Seq<char>,
    verified: Seq<char>,
    new_hash: Seq<char>,
    u: int,
)
    requires
        is_user(store.users, username, u),
    ensures
        ({
            let r = password_change(store, username, verified, new_hash);
            &&& r is Ok <==> store.users[u].password_hash == verified
            &&& r is Ok ==> {
                let after = r->Ok_0;
                &&& after == (StoreV { users: after.users, ..store })
                &&& after.users.len() == store.users.len()
                &&& after.users[u] == (UserV { password_hash: new_hash, ..store.users[u] })
                &&& forall|j: int|
                    0 <= j < store.users.len() && j != u ==> #[trigger] after.users[j]
                        == store.users[j]
            }
        }),
{
    lemma_user(store, username, u);
}

proof fn lemma_without_trailing(s: Seq<char>, c: char) -> (cut: int)
    ensures
        0 <= cut <= s.len(),
        without_trailing(s, c) == s.take(cut),
        forall|k: int| cut <= k < s.len() ==> #[trigger] s[k] == c,
        cut > 0 ==> s[cut - 1] != c,
    decreases s.len(),
{
    if s.len() > 0 && s.last() == c {
        let cut = lemma_without_trailing(s.drop_last(), c);
        assert(s.drop_last().take(cut) =~= s.take(cut));
        assert forall|k: int| cut <= k < s.len() implies #[trigger] s[k] == c by {
            if k < s.len() - 1 {
                assert(s.drop_last()[k] == s[k]);
            }
        }
        cut
    } else {
        assert(s.take(s.len() as int) =~= s);
        s.len() as int
    }
}

/// A stored address is the one given, without the white space around it and
/// the slashes after it, and with nothing else taken off.
pub proof fn law_addresses_lose_slashes_only(s: Seq<char>) -> (cut: int)
    ensures
        0 <= cut <= trimmed(s).len(),
        tidy_url(s) == trimmed(s).take(cut),
        forall|k: int| cut <= k < trimmed(s).len() ==> #[trigger] trimmed(s)[k] == '/',
        cut > 0 ==> tidy_url(s).last() != '/',
{
    let cut = lemma_without_trailing(trimmed(s), '/');
    cut
}

/// Whether a request is let through and makes of the store what `change`
/// says: only an administrator's is.
pub open spec fn administered(
    r: Result<StoreV, crate::api::RefusedV>,
    user: UserV,
    change: StoreV,
) -> bool {
    &&& r is Ok <==> user.role != Role::User
    &&& r is Ok ==> r->Ok_0 == change
}

/// Section requests change their own section to what they give, and no
/// other, and only for an administrator.
pub proof fn law_sections_are_set_as_given(
    store: StoreV,
    username: Seq<char>,
    u: int,
    address: UpstreamReq,
    form: ServerReq,
    limits: LimitsReq,
    history: HistoryReq,
    search: WebSearchReq,
)
    requires
        is_user(store.users, username, u),
    ensures
        ({
            let user = store.users[u];
            let a = upstream_change(store, username, address);
            let f = server_change(store, username, form);
            let l = limits_change(store, username, limits);
            let h = history_change(store, username, history);
            let w = web_search_change(store, username, search);
            &&& administered(a, user, StoreV { base_url: tidy_url(address.base_url@), ..store })
            &&& f is Ok <==> user.role != Role::User
            &&& f is Ok ==> f->Ok_0 == (StoreV {
                base_url: tidy_url(form.base_url@),
                limits: f->Ok_0.limits,
                ..store
            })
            &&& f is Ok ==> f->Ok_0.limits.max_wait_secs == form.limits.max_wait_secs
                && f->Ok_0.limits.heartbeat_secs == form.limits.heartbeat_secs
                && f->Ok_0.limits.models_ttl_secs == form.limits.models_ttl_secs
                && f->Ok_0.limits.stream_idle_secs == form.limits.stream_idle_secs
                && f->Ok_0.limits.request_timeout_secs == form.limits.request_timeout_secs
                && f->Ok_0.limits.max_inflight == form.limits.max_inflight
                && f->Ok_0.limits.strict_passthrough == form.limits.strict_passthrough
            &&& l is Ok <==> user.role != Role::User
            &&& l is Ok ==> l->Ok_0 == (StoreV { limits: l->Ok_0.limits, ..store })
            &&& l is Ok ==> l->Ok_0.limits.max_wait_secs == limits.max_wait_secs
                && l->Ok_0.limits.heartbeat_secs == limits.heartbeat_secs
                && l->Ok_0.limits.models_ttl_secs == limits.models_ttl_secs
                && l->Ok_0.limits.stream_idle_secs == limits.stream_idle_secs
                && l->Ok_0.limits.request_timeout_secs == limits.request_timeout_secs
                && l->Ok_0.limits.max_inflight == limits.max_inflight
                && l->Ok_0.limits.strict_passthrough == limits.strict_passthrough
            &&& h is Ok <==> user.role != Role::User
            &&& h is Ok ==> h->Ok_0 == (StoreV {
                history_days: history.days,
                dashboard: h->Ok_0.dashboard,
                ..store
            })
            &&& h is Ok ==> h->Ok_0.dashboard.default_window_days == history.default_window_days
                && h->Ok_0.dashboard.slo_target_percent == history.slo_target_percent.pattern()
            &&& w is Ok <==> user.role != Role::User
            &&& w is Ok ==> w->Ok_0 == (StoreV { web_search: w->Ok_0.web_search, ..store })
            &&& w is Ok ==> w->Ok_0.web_search.base_url == search.base_url@
                && w->Ok_0.web_search.format == search.format && w->Ok_0.web_search.max_results
                == search.max_results && w->Ok_0.web_search.timeout_secs == search.timeout_secs
        }),
{
    lemma_user(store, username, u);
}

/// A governor request switches the governor where it says so, pins the cap
/// it gives, drops the pin it names, and leaves every other pin and all the
/// rest alone.
pub proof fn law_the_governor_is_set_as_given(
    store: StoreV,
    username: Seq<char>,
    u: int,
    req: GovernorReq,
    model: Seq<char>,
)
    requires
        is_user(store.users, username, u),
    ensures
        ({
            let r = governor_change(store, username, req);
            &&& r is Ok <==> store.users[u].role != Role::User
            &&& r is Ok ==> {
                let before = store.governor.overrides;
                let after = r->Ok_0.governor.overrides;
                let dropped = req.remove_override is Some && req.remove_override->0@ == model;
                let pinned = req.set_override is Some && req.set_override->0.model@ == model;
                &&& r->Ok_0 == (StoreV { governor: r->Ok_0.governor, ..store })
                &&& r->Ok_0.governor.enabled == match req.enabled {
                    Some(e) => e,
                    None => store.governor.enabled,
                }
                &&& dropped ==> !after.contains_key(model)
                &&& pinned && !dropped ==> after.contains_key(model) && after[model]
                    == req.set_override->0.cap
                &&& !pinned && !dropped ==> (after.contains_key(model) <==> before.contains_key(
                    model,
                )) && (before.contains_key(model) ==> after[model] == before[model])
            }
        }),
{
    lemma_user(store, username, u);
}

/// An administrator sets the default locale to the one found; nobody else
/// does, and nothing else changes.
pub proof fn law_the_default_locale_is_the_one_found(
    store: StoreV,
    username: Seq<char>,
    u: int,
    found: String,
)
    requires
        is_user(store.users, username, u),
    ensures
        administered(
            server_locale_change(store, username, Ok(found)),
            store.users[u],
            StoreV { default_locale: found@, ..store },
        ),
{
    lemma_user(store, username, u);
}

/// The claim makes the one who claims the superuser and the only user, with
/// the hash of their password; hands them every key that is there; adds the
/// NIM keys and the client key they bring after those; takes the address
/// they give; and changes nothing else.
pub proof fn law_the_claim_takes_what_is_given(
    store: StoreV,
    req: SetupReq,
    hash: Seq<char>,
    secret: Seq<char>,
)
    requires
        forall|k: int| 0 <= k < store.users.len() ==> (#[trigger] store.users[k]).role
            != Role::Superuser,
        req.password@.len() >= 10,
    ensures
        ({
            let r = claim_change(store, req, hash, secret);
            let after = r->Ok_0;
            let n = store.nim_keys.len() as int;
            let m = store.client_keys.len() as int;
            &&& r is Ok
            &&& after == (StoreV {
                users: after.users,
                base_url: after.base_url,
                nim_keys: after.nim_keys,
                client_keys: after.client_keys,
                ..store
            })
            &&& after.users == seq![
                UserV {
                    username: req.username@,
                    password_hash: hash,
                    role: Role::Superuser,
                    locale: None,
                },
            ]
            &&& after.base_url == match req.base_url {
                Some(b) => tidy_url(b@),
                None => store.base_url,
            }
            &&& after.nim_keys.len() == n + req.nim_keys@.len()
            &&& forall|k: int|
                0 <= k < n ==> #[trigger] after.nim_keys[k] == (NimKeyV {
                    owner: req.username@,
                    ..store.nim_keys[k]
                })
            &&& forall|k: int|
                0 <= k < req.nim_keys@.len() ==> after.nim_keys[n + k] == (NimKeyV {
                    key: trimmed((#[trigger] req.nim_keys@[k]).key@),
                    owner: req.username@,
                    enabled: true,
                    rpm: match req.nim_keys@[k].rpm {
                        Some(rpm) => rpm,
                        None => 40,
                    },
                })
            &&& after.client_keys.len() == m + if req.create_client_key is Some {
                1int
            } else {
                0int
            }
            &&& forall|k: int|
                0 <= k < m ==> #[trigger] after.client_keys[k] == (ClientKeyV {
                    owner: req.username@,
                    ..store.client_keys[k]
                })
            &&& req.create_client_key is Some ==> after.client_keys[m].name == trimmed(
                req.create_client_key->0.name@,
            ) && after.client_keys[m].owner == req.username@ && after.client_keys[m].secret_sha256
                == sha256_hex_of(secret)
        }),
{
    lemma_first_where(store.users, crate::config::supreme());
    let r = claim_change(store, req, hash, secret);
    let after = r->Ok_0;
    let n = store.nim_keys.len() as int;
    assert(store.superuser() is None);
    assert forall|k: int| 0 <= k < req.nim_keys@.len() implies after.nim_keys[n + k] == (NimKeyV {
        key: trimmed((#[trigger] req.nim_keys@[k]).key@),
        owner: req.username@,
        enabled: true,
        rpm: match req.nim_keys@[k].rpm {
            Some(rpm) => rpm,
            None => 40,
        },
    }) by {
        assert(after.nim_keys[n + k] == new_nim_key(
            req.nim_keys@[k].key@,
            req.nim_keys@[k].rpm,
            req.username@,
        ));
    }
}

/// Somebody who is not there changes nothing: whatever they ask for, they
/// are told that they are unknown.
pub proof fn law_nobody_changes_nothing(
    store: StoreV,
    username: Seq<char>,
    keys: NimKeysReq,
    clients: ClientsReq,
    users: UsersReq,
    secret: Seq<char>,
    hash: Seq<char>,
)
    requires
        forall|k: int| 0 <= k < store.users.len() ==> (#[trigger] store.users[k]).username
            != username,
    ensures
        nim_keys_change(store, username, keys) is Err,
        nim_keys_change(store, username, keys)->Err_0.status == 401,
        clients_change(store, username, clients, secret) is Err,
        clients_change(store, username, clients, secret)->Err_0.status == 401,
        users_change(store, username, users, hash) is Err,
        users_change(store, username, users, hash)->Err_0.status == 401,
{
    lemma_first_where(store.users, called(username));
}

/// The password that is to be hashed is the one that the request gives, for
/// a new user or for a reset, and there is none for any other request.
pub proof fn law_the_password_hashed_is_the_one_given(
    store: StoreV,
    username: Seq<char>,
    req: UsersReq,
    u: int,
)
    requires
        is_user(store.users, username, u),
        store.users[u].role != Role::User,
    ensures
        req.add is Some && req.reset_password is None ==> users_plan(store, username, req)
            == if req.add->0.password@.len() >= 10 {
            Ok::<Option<Seq<char>>, crate::api::RefusedV>(Some(req.add->0.password@))
        } else {
            Err(users_plan(store, username, req)->Err_0)
        },
        req.add is None && req.reset_password is Some ==> users_plan(store, username, req)
            == if req.reset_password->0.new_password@.len() >= 10 {
            Ok::<Option<Seq<char>>, crate::api::RefusedV>(
                Some(req.reset_password->0.new_password@),
            )
        } else {
            Err(users_plan(store, username, req)->Err_0)
        },
        req.add is None && req.reset_password is None ==> users_plan(store, username, req) == Ok::<
            Option<Seq<char>>,
            crate::api::RefusedV,
        >(None),
{
    lemma_user(store, username, u);
}

}
