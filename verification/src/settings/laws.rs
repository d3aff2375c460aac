//! What holds of the settings as a whole.
use crate::api::{ClientKeyRowV, ConfigV, NimKeyRowV, PoolSummary, RefusedV};
use crate::config::{called, supreme, ClientKeyV, NimKeyV, Role, StoreV, UserV};
use crate::lists::{
    first_where, lemma_filter_contains, lemma_first_where,
};
use crate::settings::account::{password_change, PasswordChangeErr};
use crate::settings::keys::{
    adjusted, clients_change, key_named, new_nim_key, nim_keys_change, printed, stored_key,
};
use crate::settings::overview::{
    client_of, client_visible, nim_of, nim_visible, overview_of, HistoryStatus, LaneV,
};
use crate::settings::refusals::{claimed, role_in, MIN_PASSWORD_CHARS};
use crate::settings::requests::{ClientsReq, NimKeysReq, SetupReq, UsersReq};
use crate::settings::sections::as_admin;
use crate::settings::setup::{adopted_clients, adopted_nim, brought, claim_change};
use crate::settings::users::{
    assignable, client_not_of, new_user, nim_not_of, other_than, users_change, users_plan,
    without_user,
};
use vstd::prelude::*;

verus! {

/// No two users have one name.
pub open spec fn distinct_names(users: Seq<UserV>) -> bool {
    forall|i: int, j: int|
        0 <= i < j < users.len() ==> (#[trigger] users[i]).username != (
        #[trigger] users[j]).username
}

proof fn lemma_filter_push<A>(s: Seq<A>, p: spec_fn(A) -> bool, x: A)
    ensures
        s.push(x).filter(p) == if p(x) {
            s.filter(p).push(x)
        } else {
            s.filter(p)
        },
{
    reveal(Seq::filter);
    assert(s.push(x).drop_last() == s);
}

proof fn lemma_filter_remove<A>(s: Seq<A>, p: spec_fn(A) -> bool, i: int)
    requires
        0 <= i < s.len(),
        !p(s[i]),
    ensures
        s.remove(i).filter(p) == s.filter(p),
    decreases s.len(),
{
    reveal(Seq::filter);
    if i == s.len() - 1 {
        assert(s.remove(i) == s.drop_last());
    } else {
        let front = s.drop_last();
        lemma_filter_remove(front, p, i);
        assert(s.remove(i).drop_last() == front.remove(i));
        assert(s.remove(i).last() == s.last());
    }
}

proof fn lemma_filter_update<A>(s: Seq<A>, p: spec_fn(A) -> bool, i: int, x: A)
    requires
        0 <= i < s.len(),
        !p(s[i]),
        !p(x),
    ensures
        s.update(i, x).filter(p) == s.filter(p),
    decreases s.len(),
{
    reveal(Seq::filter);
    if i == s.len() - 1 {
        assert(s.update(i, x).drop_last() == s.drop_last());
    } else {
        let front = s.drop_last();
        lemma_filter_update(front, p, i, x);
        assert(s.update(i, x).drop_last() == front.update(i, x));
        assert(s.update(i, x).last() == s.last());
    }
}

proof fn lemma_first_update<A>(s: Seq<A>, p: spec_fn(A) -> bool, i: int, x: A)
    requires
        0 <= i < s.len(),
        !p(s[i]),
        !p(x),
    ensures
        first_where(s.update(i, x), p) == first_where(s, p),
    decreases s.len(),
{
    let front = s.drop_last();
    if i == s.len() - 1 {
        assert(s.update(i, x).drop_last() == front);
    } else {
        lemma_first_update(front, p, i, x);
        assert(s.update(i, x).drop_last() == front.update(i, x));
        assert(s.update(i, x).last() == s.last());
    }
}

proof fn lemma_first_push<A>(s: Seq<A>, p: spec_fn(A) -> bool, x: A)
    requires
        !p(x),
    ensures
        first_where(s.push(x), p) == first_where(s, p),
{
    assert(s.push(x).drop_last() == s);
}

/// The first item that `p` holds of is still the first after a filter that
/// keeps it.
proof fn lemma_first_filter<A>(s: Seq<A>, p: spec_fn(A) -> bool, q: spec_fn(A) -> bool)
    requires
        forall|j: int| 0 <= j < s.len() && p(#[trigger] s[j]) ==> q(s[j]),
    ensures
        match first_where(s, p) {
            Some(i) => first_where(s.filter(q), p) matches Some(k) && 0 <= k < s.filter(q).len()
                && 0 <= i < s.len() && s.filter(q)[k] == s[i],
            None => first_where(s.filter(q), p) is None,
        },
    decreases s.len(),
{
    reveal(Seq::filter);
    if s.len() > 0 {
        let front = s.drop_last();
        assert forall|j: int| 0 <= j < front.len() && p(#[trigger] front[j]) implies q(front[j]) by {
            assert(front[j] == s[j]);
        }
        lemma_first_filter(front, p, q);
        lemma_first_where(front, p);
        assert(s[s.len() - 1] == s.last());
        if q(s.last()) {
            assert(s.filter(q).drop_last() == front.filter(q));
        }
    }
}

/// The superuser can be neither deleted, demoted nor reset: whatever a user
/// request changes, the superuser's record stays as it is.
pub proof fn law_superuser_is_inviolable(
    store: StoreV,
    username: Seq<char>,
    req: UsersReq,
    hash: Seq<char>,
)
    requires
        distinct_names(store.users),
        users_change(store, username, req, hash) is Ok,
    ensures
        users_change(store, username, req, hash)->Ok_0.superuser() == store.superuser(),
{
    let after = users_change(store, username, req, hash)->Ok_0;
    let p = supreme();
    lemma_first_where(store.users, p);
    match (req.add, req.remove, req.reset_password, req.set_role) {
        (Some(add), None, None, None) => {
            let u = new_user(add.username@, hash, assignable(add.role@)->0);
            lemma_first_push(store.users, p, u);
            lemma_first_where(after.users, p);
        },
        (None, Some(target), None, None) => {
            let q = other_than(target@);
            lemma_first_where(store.users, called(target@));
            let t = first_where(store.users, called(target@))->0;
            assert forall|j: int| 0 <= j < store.users.len() && p(#[trigger] store.users[j]) implies q(
                store.users[j],
            ) by {
                if store.users[j].username == target@ {
                    assert(store.users[t].username == target@);
                    assert(j == t);
                }
            }
            lemma_first_filter(store.users, p, q);
        },
        (None, None, Some(reset), None) => {
            lemma_first_where(store.users, called(reset.username@));
            let i = first_where(store.users, called(reset.username@))->0;
            lemma_first_update(
                store.users,
                p,
                i,
                UserV { password_hash: hash, ..store.users[i] },
            );
        },
        (None, None, None, Some(set)) => {
            lemma_first_where(store.users, called(set.username@));
            let i = first_where(store.users, called(set.username@))->0;
            let role = assignable(set.role@)->0;
            lemma_first_update(store.users, p, i, UserV { role, ..store.users[i] });
        },
        _ => {},
    }
}

/// A deleted user leaves nothing behind, and nobody else loses anything.
pub proof fn law_deleted_users_own_nothing(
    store: StoreV,
    name: Seq<char>,
    u: UserV,
    k: NimKeyV,
    c: ClientKeyV,
)
    ensures
        without_user(store, name).users.contains(u) <==> store.users.contains(u) && u.username
            != name,
        without_user(store, name).nim_keys.contains(k) <==> store.nim_keys.contains(k) && k.owner
            != name,
        without_user(store, name).client_keys.contains(c) <==> store.client_keys.contains(c)
            && c.owner != name,
{
    lemma_filter_contains(store.users, other_than(name), u);
    lemma_filter_contains(store.nim_keys, nim_not_of(name), k);
    lemma_filter_contains(store.client_keys, client_not_of(name), c);
}

/// A caller without the administrator's authority changes no NIM key but
/// their own, and nothing besides NIM keys.
pub proof fn law_users_keep_to_their_nim_keys(
    store: StoreV,
    username: Seq<char>,
    req: NimKeysReq,
    other: Seq<char>,
)
    requires
        role_in(store, username) == Some(Role::User),
        nim_keys_change(store, username, req) is Ok,
        other != username,
    ensures
        nim_keys_change(store, username, req)->Ok_0.nim_keys.filter(nim_of(other))
            == store.nim_keys.filter(nim_of(other)),
        nim_keys_change(store, username, req)->Ok_0 == (StoreV {
            nim_keys: nim_keys_change(store, username, req)->Ok_0.nim_keys,
            ..store
        }),
{
    let p = nim_of(other);
    match (req.add, req.remove, req.set) {
        (Some(add), None, None) => {
            lemma_filter_push(store.nim_keys, p, new_nim_key(add.key@, add.rpm, username));
        },
        (None, Some(print), None) => {
            lemma_first_where(store.nim_keys, printed(print@));
            lemma_filter_remove(
                store.nim_keys,
                p,
                first_where(store.nim_keys, printed(print@))->0,
            );
        },
        (None, None, Some(set)) => {
            lemma_first_where(store.nim_keys, printed(set.fingerprint@));
            let i = first_where(store.nim_keys, printed(set.fingerprint@))->0;
            lemma_filter_update(store.nim_keys, p, i, adjusted(store.nim_keys[i], set));
        },
        _ => {},
    }
}

/// A caller without the administrator's authority changes no client key but
/// their own, and nothing besides client keys: the access mode stays.
pub proof fn law_users_keep_to_their_client_keys(
    store: StoreV,
    username: Seq<char>,
    req: ClientsReq,
    secret: Seq<char>,
    other: Seq<char>,
)
    requires
        role_in(store, username) == Some(Role::User),
        clients_change(store, username, req, secret) is Ok,
        other != username,
    ensures
        clients_change(store, username, req, secret)->Ok_0.client_keys.filter(client_of(other))
            == store.client_keys.filter(client_of(other)),
        clients_change(store, username, req, secret)->Ok_0 == (StoreV {
            client_keys: clients_change(store, username, req, secret)->Ok_0.client_keys,
            ..store
        }),
{
    let p = client_of(other);
    match (req.add, req.remove, req.mode) {
        (Some(add), None, None) => {
            lemma_filter_push(store.client_keys, p, stored_key(add.name@, secret, username));
        },
        (None, Some(name), None) => {
            lemma_first_where(store.client_keys, key_named(name@));
            lemma_filter_remove(
                store.client_keys,
                p,
                first_where(store.client_keys, key_named(name@))->0,
            );
        },
        _ => {},
    }
}

/// How many of several things are there.
pub open spec fn present(flags: Seq<bool>) -> nat
    decreases flags.len(),
{
    if flags.len() == 0 {
        0
    } else {
        present(flags.drop_last()) + if flags.last() {
            1nat
        } else {
            0
        }
    }
}

proof fn lemma_present(flags: Seq<bool>, last: bool)
    ensures
        present(flags.push(last)) == present(flags) + if last {
            1nat
        } else {
            0
        },
{
    assert(flags.push(last).drop_last() == flags);
}

proof fn lemma_present_pair(a: bool, b: bool)
    ensures
        present(seq![a, b]) == (if a {
            1nat
        } else {
            0
        }) + (if b {
            1nat
        } else {
            0
        }),
{
    let none = Seq::<bool>::empty();
    lemma_present(none, a);
    lemma_present(none.push(a), b);
    assert(seq![a, b] =~= none.push(a).push(b));
}

proof fn lemma_present_three(a: bool, b: bool, c: bool)
    ensures
        present(seq![a, b, c]) == present(seq![a, b]) + if c {
            1nat
        } else {
            0
        },
{
    lemma_present(seq![a, b], c);
    assert(seq![a, b, c] =~= seq![a, b].push(c));
}

proof fn lemma_present_four(a: bool, b: bool, c: bool, d: bool)
    ensures
        present(seq![a, b, c, d]) == present(seq![a, b, c]) + if d {
            1nat
        } else {
            0
        },
{
    lemma_present(seq![a, b, c], d);
    assert(seq![a, b, c, d] =~= seq![a, b, c].push(d));
}

proof fn lemma_one_nim_action(store: StoreV, username: Seq<char>, req: NimKeysReq)
    requires
        nim_keys_change(store, username, req) is Ok,
    ensures
        present(seq![req.add is Some, req.remove is Some, req.set is Some]) == 1,
{
    lemma_present_pair(req.add is Some, req.remove is Some);
    lemma_present_three(req.add is Some, req.remove is Some, req.set is Some);
}

proof fn lemma_one_client_action(
    store: StoreV,
    username: Seq<char>,
    req: ClientsReq,
    secret: Seq<char>,
)
    requires
        clients_change(store, username, req, secret) is Ok,
    ensures
        present(seq![req.add is Some, req.remove is Some, req.mode is Some]) == 1,
{
    lemma_present_pair(req.add is Some, req.remove is Some);
    lemma_present_three(req.add is Some, req.remove is Some, req.mode is Some);
}

proof fn lemma_one_user_action(store: StoreV, username: Seq<char>, req: UsersReq, hash: Seq<char>)
    requires
        users_change(store, username, req, hash) is Ok,
    ensures
        present(
            seq![
                req.add is Some,
                req.remove is Some,
                req.reset_password is Some,
                req.set_role is Some,
            ],
        ) == 1,
{
    let a = req.add is Some;
    let b = req.remove is Some;
    let c = req.reset_password is Some;
    let d = req.set_role is Some;
    lemma_present_pair(a, b);
    lemma_present_three(a, b, c);
    lemma_present_four(a, b, c, d);
}

/// A request that changes anything asks for exactly one thing.
pub proof fn law_one_action_a_request(
    store: StoreV,
    username: Seq<char>,
    nim: NimKeysReq,
    clients: ClientsReq,
    users: UsersReq,
    text: Seq<char>,
)
    ensures
        nim_keys_change(store, username, nim) is Ok ==> present(
            seq![nim.add is Some, nim.remove is Some, nim.set is Some],
        ) == 1,
        clients_change(store, username, clients, text) is Ok ==> present(
            seq![clients.add is Some, clients.remove is Some, clients.mode is Some],
        ) == 1,
        users_change(store, username, users, text) is Ok ==> present(
            seq![
                users.add is Some,
                users.remove is Some,
                users.reset_password is Some,
                users.set_role is Some,
            ],
        ) == 1,
{
    if nim_keys_change(store, username, nim) is Ok {
        lemma_one_nim_action(store, username, nim);
    }
    if clients_change(store, username, clients, text) is Ok {
        lemma_one_client_action(store, username, clients, text);
    }
    if users_change(store, username, users, text) is Ok {
        lemma_one_user_action(store, username, users, text);
    }
}

/// Server settings and user management are the administrators' alone, and a
/// password is hashed only for one of them.
pub proof fn law_authority_comes_first(
    store: StoreV,
    username: Seq<char>,
    change: StoreV,
    req: UsersReq,
    hash: Seq<char>,
)
    ensures
        as_admin(store, username, change) is Ok <==> (role_in(store, username) matches Some(role)
            && role.admin()),
        users_change(store, username, req, hash) is Ok ==> (role_in(
            store,
            username,
        ) matches Some(role) && role.admin()),
        users_plan(store, username, req) matches Ok(Some(p)) ==> p.len() >= MIN_PASSWORD_CHARS
            && (role_in(store, username) matches Some(role) && role.admin()),
{
}

/// No short password is ever stored: not with a claim, a new user or a reset.
pub proof fn law_stored_passwords_are_long_enough(
    store: StoreV,
    username: Seq<char>,
    claim: SetupReq,
    req: UsersReq,
    hash: Seq<char>,
    secret: Seq<char>,
)
    ensures
        claim_change(store, claim, hash, secret) is Ok ==> claim.password@.len()
            >= MIN_PASSWORD_CHARS,
        users_change(store, username, req, hash) is Ok && req.add is Some
            ==> req.add->0.password@.len() >= MIN_PASSWORD_CHARS,
        users_change(store, username, req, hash) is Ok && req.reset_password is Some
            ==> req.reset_password->0.new_password@.len() >= MIN_PASSWORD_CHARS,
{
}

/// What a caller without the administrator's authority is shown: their own
/// keys and no section that is not theirs, not even as a member of the
/// printed object.
pub proof fn law_users_see_their_own(
    store: StoreV,
    username: Seq<char>,
    lanes: Seq<LaneV>,
    pool: PoolSummary,
    history: HistoryStatus,
    nim: NimKeyRowV,
    client: ClientKeyRowV,
)
    requires
        role_in(store, username) == Some(Role::User),
    ensures
        overview_of(store, username, lanes, pool, history) matches Ok(c) && {
            &&& c.server is None && c.users is None
            &&& c.nim_keys.contains(nim) ==> nim.owner == username
            &&& c.client_keys.contains(client) ==> client.owner == username
            &&& c.wire().get("server"@) is None
            &&& c.wire().get("users"@) is None
        },
{
    let c = overview_of(store, username, lanes, pool, history)->Ok_0;
    let p = nim_visible(false, username);
    let q = client_visible(false, username);
    if c.nim_keys.contains(nim) {
        let i = choose|i: int| 0 <= i < c.nim_keys.len() && c.nim_keys[i] == nim;
        store.nim_keys.lemma_filter_pred(p, i);
    }
    if c.client_keys.contains(client) {
        let i = choose|i: int| 0 <= i < c.client_keys.len() && c.client_keys[i] == client;
        store.client_keys.lemma_filter_pred(q, i);
    }
    lemma_absent_sections(c);
}

/// A section that is not there is not printed.
proof fn lemma_absent_sections(c: ConfigV)
    ensures
        c.server is None ==> c.wire().get("server"@) is None,
        c.users is None ==> c.wire().get("users"@) is None,
{
    reveal_strlit("client_keys");
    reveal_strlit("locale");
    reveal_strlit("mode");
    reveal_strlit("nim_keys");
    reveal_strlit("pool");
    reveal_strlit("role");
    reveal_strlit("server");
    reveal_strlit("username");
    reveal_strlit("users");
    let s = "server"@;
    let u = "users"@;
    assert(s[0] == 's' && s.len() == 6);
    assert(u[0] == 'u' && u.len() == 5);
    assert("client_keys"@[0] == 'c');
    assert("locale"@[0] == 'l');
    assert("mode"@[0] == 'm');
    assert("nim_keys"@[0] == 'n');
    assert("pool"@[0] == 'p');
    assert("role"@[0] == 'r');
    assert("username"@.len() == 8 && "username"@[0] == 'u');
}

/// A claim leaves one user, the superuser, who owns every key; and no second
/// claim is taken.
pub proof fn law_setup_is_claimed_once(
    store: StoreV,
    req: SetupReq,
    hash: Seq<char>,
    secret: Seq<char>,
    second: SetupReq,
    hash2: Seq<char>,
    secret2: Seq<char>,
)
    requires
        claim_change(store, req, hash, secret) is Ok,
    ensures
        ({
            let after = claim_change(store, req, hash, secret)->Ok_0;
            &&& after.users.len() == 1
            &&& after.superuser() == Some(after.users[0])
            &&& after.users[0].username == req.username@
            &&& forall|i: int|
                0 <= i < after.nim_keys.len() ==> (#[trigger] after.nim_keys[i]).owner
                    == req.username@
            &&& forall|i: int|
                0 <= i < after.client_keys.len() ==> (#[trigger] after.client_keys[i]).owner
                    == req.username@
            &&& claim_change(after, second, hash2, secret2) == Err::<StoreV, RefusedV>(claimed())
        }),
{
    let after = claim_change(store, req, hash, secret)->Ok_0;
    assert(after.users.drop_last() =~= Seq::<UserV>::empty());
    lemma_first_where(after.users, supreme());
    assert(after.users[0].role == Role::Superuser);
    assert(first_where(after.users, supreme()) == Some(0int));
    assert forall|i: int| 0 <= i < after.nim_keys.len() implies (
    #[trigger] after.nim_keys[i]).owner == req.username@ by {
        let a = adopted_nim(store.nim_keys, req.username@);
        let b = brought(req.nim_keys@, req.username@);
        assert(after.nim_keys == a + b);
        if i < a.len() {
            assert((a + b)[i] == a[i]);
        } else {
            assert((a + b)[i] == b[i - a.len()]);
        }
    }
    assert forall|i: int| 0 <= i < after.client_keys.len() implies (
    #[trigger] after.client_keys[i]).owner == req.username@ by {
        let a = adopted_clients(store.client_keys, req.username@);
        if i < a.len() {
            assert(a[i].owner == req.username@);
        }
    }
}

/// A password changes only for a caller whose current one was verified
/// against the hash that is still stored; then it is theirs alone that
/// changes.
pub proof fn law_password_changes_are_verified(
    store: StoreV,
    username: Seq<char>,
    verified: Seq<char>,
    new_hash: Seq<char>,
)
    requires
        distinct_names(store.users),
    ensures
        match password_change(store, username, verified, new_hash) {
            Ok(after) => {
                &&& store.user(username) matches Some(u) && u.password_hash == verified
                &&& after.user(username) matches Some(u) && u.password_hash == new_hash
                &&& forall|name: Seq<char>|
                    name != username ==> #[trigger] after.user(name) == store.user(name)
            },
            Err(PasswordChangeErr::UserGone) => store.user(username) is None,
            Err(PasswordChangeErr::HashRotated) => store.user(username) matches Some(u)
                && u.password_hash != verified,
        },
{
    lemma_first_where(store.users, called(username));
    if let Ok(after) = password_change(store, username, verified, new_hash) {
        let i = first_where(store.users, called(username))->0;
        let x = UserV { password_hash: new_hash, ..store.users[i] };
        lemma_first_where(after.users, called(username));
        let k = first_where(after.users, called(username))->0;
        assert(after.users[i].username == username);
        assert(first_where(after.users, called(username)) is Some);
        if k < i {
            assert(after.users[k] == store.users[k]);
            assert(store.users[k].username == username);
        } else if i < k {
            assert(called(username)(after.users[i]));
        }
        assert forall|name: Seq<char>| name != username implies #[trigger] after.user(name)
            == store.user(name) by {
            lemma_first_update(store.users, called(name), i, x);
            lemma_first_where(store.users, called(name));
        }
    }
}

/// A reset that lands while a user is changing their own password wins: the
/// change, verified against the hash from before, is refused.
pub proof fn law_resets_win(
    store: StoreV,
    admin: Seq<char>,
    req: UsersReq,
    hash: Seq<char>,
    new_hash: Seq<char>,
)
    requires
        req.reset_password is Some,
        users_change(store, admin, req, hash) is Ok,
        hash != store.user(req.reset_password->0.username@)->0.password_hash,
    ensures
        password_change(
            users_change(store, admin, req, hash)->Ok_0,
            req.reset_password->0.username@,
            store.user(req.reset_password->0.username@)->0.password_hash,
            new_hash,
        ) == Err::<StoreV, PasswordChangeErr>(PasswordChangeErr::HashRotated),
{
    let name = req.reset_password->0.username@;
    let after = users_change(store, admin, req, hash)->Ok_0;
    lemma_first_where(store.users, called(name));
    let i = first_where(store.users, called(name))->0;
    lemma_first_where(after.users, called(name));
    let k = first_where(after.users, called(name));
    assert(after.users[i].username == name);
    assert(called(name)(after.users[i]));
    if k is None {
        assert(false);
    }
    if k->0 < i {
        assert(after.users[k->0] == store.users[k->0]);
        assert(called(name)(store.users[k->0]));
    }
}

}
